use ublox_gps::error::UbxError;
use ublox_gps::msg::UbloxMsg;
use ublox_gps::port_buffer::{Message, PortBuffer};
use ublox_gps::raw_msg::UbloxRawMsg;

fn stream() -> Vec<u8> {
    vec![
        0x00, 0xff, 0xb5, 0x62, 0x01, 0x02, 0x04, 0x00, b't', b'e', b's', b't', 0xc7, 0x87, b'$',
        b'G', b'P', b'G', b'G', b'A', b',', b',', b'\n',
    ]
}

fn test_frame() -> Message {
    Message::Ublox(UbloxMsg::Other(UbloxRawMsg::new(0x01, 0x02, b"test".to_vec())))
}

fn drain(buf: &mut PortBuffer) -> Vec<Result<Message, UbxError>> {
    let mut out = vec![];
    while let Some(item) = buf.read_msg() {
        out.push(item);
    }
    out
}

#[test]
fn framer_resync_scenario() {
    let mut buf = PortBuffer::new();
    buf.ingest(&stream());
    assert_eq!(buf.read_msg(), Some(Ok(test_frame())));
    assert_eq!(buf.read_msg(), Some(Ok(Message::Nmea("$GPGGA,,\n".to_string()))));
    assert_eq!(buf.read_msg(), None);
}

#[test]
fn framer_split_delivery_scenario() {
    let bytes = stream();
    let mut buf = PortBuffer::new();
    let mut out = vec![];
    for chunk in bytes.chunks(3) {
        buf.ingest(chunk);
        out.extend(drain(&mut buf));
    }
    assert_eq!(bytes.chunks(3).count(), 8);
    assert_eq!(out, vec![Ok(test_frame()), Ok(Message::Nmea("$GPGGA,,\n".to_string()))]);
}

#[test]
fn framer_one_byte_at_a_time() {
    let frame = UbloxRawMsg::new(0x01, 0x02, b"test".to_vec()).to_bytes();
    let mut buf = PortBuffer::new();
    for (i, byte) in frame.iter().enumerate() {
        buf.ingest(&[*byte]);
        let item = buf.read_msg();
        if i + 1 < frame.len() {
            assert_eq!(item, None);
        } else {
            assert_eq!(item, Some(Ok(test_frame())));
        }
    }
}

#[test]
fn framer_frame_garbage_frame() {
    let frame = UbloxRawMsg::new(0x01, 0x02, b"test".to_vec()).to_bytes();
    let mut bytes = frame.clone();
    bytes.extend_from_slice(&[0x11, 0x22, 0xb5, 0x00, 0x24, 0x61]);
    bytes.extend_from_slice(&frame);
    let mut buf = PortBuffer::new();
    buf.ingest(&bytes);
    assert_eq!(drain(&mut buf), vec![Ok(test_frame()), Ok(test_frame())]);
}

#[test]
fn framer_waits_for_line_end() {
    let mut buf = PortBuffer::new();
    buf.ingest(b"xx$GPRMC,1");
    assert_eq!(buf.read_msg(), None);
    buf.ingest(b"2\r\n");
    assert_eq!(buf.read_msg(), Some(Ok(Message::Nmea("$GPRMC,12\r\n".to_string()))));
}

#[test]
fn framer_reports_bad_text_and_moves_on() {
    let mut buf = PortBuffer::new();
    buf.ingest(&[b'$', b'G', 0xff, b'\n']);
    buf.ingest(&UbloxRawMsg::new(0x01, 0x02, b"test".to_vec()).to_bytes());
    assert_eq!(buf.read_msg(), Some(Err(UbxError::Encoding)));
    assert_eq!(buf.read_msg(), Some(Ok(test_frame())));
}

#[test]
fn framer_skips_frame_with_bad_payload() {
    // CFG-RATE with a five-byte payload
    let bad = UbloxRawMsg::new(0x06, 0x08, vec![1, 2, 3, 4, 5]).to_bytes();
    let mut buf = PortBuffer::new();
    buf.ingest(&bad);
    buf.ingest(&UbloxRawMsg::new(0x01, 0x02, b"test".to_vec()).to_bytes());
    assert_eq!(buf.read_msg(), Some(Err(UbxError::Payload)));
    assert_eq!(buf.read_msg(), Some(Ok(test_frame())));
    assert_eq!(buf.read_msg(), None);
}

#[test]
fn framer_keeps_last_byte_without_start() {
    let mut buf = PortBuffer::new();
    buf.ingest(&[0x00, 0xb5]);
    assert!(!buf.sync());
    buf.ingest(&[0x62]);
    assert!(buf.sync());
    assert_eq!(buf.read_msg(), None);
}
