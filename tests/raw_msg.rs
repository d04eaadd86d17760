use ublox_gps::error::UbxError;
use ublox_gps::raw_msg::UbloxRawMsg;

#[test]
fn simple_test_from_vec() {
    let bytes = vec![
        0xb5, 0x62, 0x01, 0x02, 0x04, 0x00, b't', b'e', b's', b't', 0xc7, 0x87,
    ];
    let msg = UbloxRawMsg::try_from(&bytes);
    assert_eq!(
        msg,
        Ok(UbloxRawMsg::new(0x01, 0x02, vec![b't', b'e', b's', b't']))
    );
    let msg = msg.unwrap();
    assert_eq!(msg.class(), 0x01);
    assert_eq!(msg.id(), 0x02);
    assert_eq!(msg.checksum(), [0xc7, 0x87]);
    assert_eq!(msg.take_payload(), vec![b't', b'e', b's', b't']);
}

#[test]
fn simple_test_to_vec() {
    let payload = vec![b't', b'e', b's', b't'];
    let msg = UbloxRawMsg::new(0x01, 0x02, payload);
    let bytes: Vec<u8> = msg.to_bytes();
    assert_eq!(
        bytes,
        vec![0xb5, 0x62, 0x01, 0x02, 0x04, 0x00, b't', b'e', b's', b't', 0xc7, 0x87]
    );
}

#[test]
fn raw_round_trip_scenario() {
    let msg = UbloxRawMsg::new(0x01, 0x02, b"test".to_vec());
    let bytes = msg.to_bytes();
    assert_eq!(bytes, vec![0xb5, 0x62, 0x01, 0x02, 0x04, 0x00, 0x74, 0x65, 0x73, 0x74, 0xc7, 0x87]);
    assert_eq!(UbloxRawMsg::try_from(&bytes), Ok(UbloxRawMsg::new(0x01, 0x02, b"test".to_vec())));
}

#[test]
fn checksum_recomputes_over_envelope() {
    let payload: Vec<u8> = (0u16..300).map(|i| (i * 7 % 256) as u8).collect();
    let msg = UbloxRawMsg::new(0x0a, 0x42, payload.clone());
    let bytes = msg.to_bytes();
    let mut a: u8 = 0;
    let mut b: u8 = 0;
    for byte in &bytes[2..bytes.len() - 2] {
        a = a.wrapping_add(*byte);
        b = b.wrapping_add(a);
    }
    assert_eq!([a, b], [bytes[bytes.len() - 2], bytes[bytes.len() - 1]]);
    assert_eq!(UbloxRawMsg::calc_checksum(0x0a, 0x42, &payload), [a, b]);
    assert_eq!(bytes.len(), 8 + 300);
    assert_eq!(bytes[4], 44);
    assert_eq!(bytes[5], 1);
}

#[test]
fn empty_payload_checksum() {
    let msg = UbloxRawMsg::new(0x06, 0x3e, vec![]);
    // A = 6 + 0x3e = 0x44; B = 6 + 0x44 + 0x44 + 0x44 = 0xd2.
    assert_eq!(msg.checksum(), [0x44, 0xd2]);
    assert_eq!(msg.to_bytes(), vec![0xb5, 0x62, 0x06, 0x3e, 0x00, 0x00, 0x44, 0xd2]);
}

#[test]
fn decode_ignores_trailing_bytes() {
    let bytes = vec![0xb5, 0x62, 0x01, 0x02, 0x01, 0x00, 0x55, 0x00, 0x00, 0xaa, 0xbb];
    assert_eq!(UbloxRawMsg::try_from(&bytes), Ok(UbloxRawMsg::new(0x01, 0x02, vec![0x55])));
}

#[test]
fn decode_rejects_bad_header() {
    let bytes = vec![0xb5, 0x63, 0x01, 0x02, 0x00, 0x00, 0x00, 0x00];
    assert_eq!(UbloxRawMsg::try_from(&bytes), Err(UbxError::Header));
}

#[test]
fn decode_rejects_short_input() {
    assert_eq!(UbloxRawMsg::try_from(&[0xb5, 0x62, 0x01]), Err(UbxError::Truncated));
    let bytes = vec![0xb5, 0x62, 0x01, 0x02, 0x04, 0x00, b't', b'e', b's'];
    assert_eq!(UbloxRawMsg::try_from(&bytes), Err(UbxError::Truncated));
}
