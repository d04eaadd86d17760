use ublox_gps::cfg_gnss::{UbxCfgGnss, UbxCfgGnssBlock, UbxCfgGnssBlockFlags};
use ublox_gps::cfg_msg::UbxCfgMsg;
use ublox_gps::cfg_prt::{UbxCfgPrt, UbxCfgPrtUsbInMask, UbxCfgPrtUsbOutMask};
use ublox_gps::cfg_rate::{UbxCfgRate, UbxCfgRateTimeRef};
use ublox_gps::error::UbxError;
use ublox_gps::gnss_id::GnssId;
use ublox_gps::lnav::{to_i32, GpsSubframe, UbxRxmSfrbxDataGps};
use ublox_gps::msg::UbloxMsg;
use ublox_gps::raw_msg::UbloxRawMsg;
use ublox_gps::rxm_rawx::{
    UbxRxmRawx, UbxRxmRawxMeasurement, UbxRxmRawxMeasurementTrkStatus, UbxRxmRawxRecvStatus,
};
use ublox_gps::rxm_sfrbx::{UbxRxmSfrbx, UbxRxmSfrbxData};

fn round_trip(msg: UbloxMsg) -> UbloxMsg {
    let bytes = msg.to_bytes();
    UbloxMsg::try_from_bytes(&bytes).unwrap()
}

fn gps_block(res: u8, max: u8) -> UbxCfgGnssBlock {
    UbxCfgGnssBlock {
        gnss_id: GnssId::Gps,
        res_trk_ch: res,
        max_trk_ch: max,
        enabled: true,
        flags: UbxCfgGnssBlockFlags::gps_try_from(0x01).unwrap(),
    }
}

fn galileo_block(res: u8, max: u8) -> UbxCfgGnssBlock {
    UbxCfgGnssBlock {
        gnss_id: GnssId::Galileo,
        res_trk_ch: res,
        max_trk_ch: max,
        enabled: true,
        flags: UbxCfgGnssBlockFlags::other_try_from(0x0101).unwrap(),
    }
}

fn subframe2() -> GpsSubframe {
    GpsSubframe::Subframe2 {
        aodo: 27000,
        iode: 42,
        c_rs: -1234,
        delta_n: 17000,
        m0: -2_000_000_000,
        c_uc: -32768,
        e: 42_949_673,
        sqrt_a: 2_702_000_000,
        c_us: 32767,
        t_oe: 345_600,
    }
}

fn subframe3() -> GpsSubframe {
    GpsSubframe::Subframe3 {
        iode: 42,
        c_ic: -5,
        omega0: 1_500_000_000,
        c_is: 77,
        i0: 660_000_000,
        c_rc: 8000,
        omega_small: -700_000_000,
        omega_dot: -8_000_000,
        i_dot: -8192,
    }
}

fn subframe1() -> GpsSubframe {
    GpsSubframe::Subframe1 {
        week_number: 1023,
        ura_index: 15,
        sv_health: 63,
        tgd: -128,
        iodc: 0x3a5,
        toc: 16 * 65535,
        af2: 127,
        af1: -300,
        af0: -0x200000,
    }
}

fn gps_data(subframe: GpsSubframe) -> UbxRxmSfrbxDataGps {
    UbxRxmSfrbxDataGps {
        tlm_message: 0x2abc,
        integrity_bit: true,
        tow: 0x1ffff,
        anti_spoof: true,
        alert: false,
        subframe,
    }
}

#[test]
fn cfg_rate_bytes_and_round_trip() {
    let rate = UbxCfgRate { meas_rate_ms: 1000, nav_rate_cycles: 1, time_ref: UbxCfgRateTimeRef::Gps };
    assert_eq!(rate.to_bytes(), vec![0xe8, 0x03, 0x01, 0x00, 0x01, 0x00]);
    assert_eq!(round_trip(UbloxMsg::CfgRate(rate)), UbloxMsg::CfgRate(rate));
}

#[test]
fn cfg_rate_rejects_unknown_time_ref() {
    assert_eq!(UbxCfgRate::try_from(&[0xe8, 0x03, 0x01, 0x00, 0x05, 0x00]), Err(UbxError::Payload));
    assert_eq!(UbxCfgRate::try_from(&[0xe8, 0x03, 0x01, 0x00, 0x01]), Err(UbxError::Payload));
}

#[test]
fn cfg_msg_variants_by_length() {
    let get = UbxCfgMsg::Get { class: 2, id: 0x13 };
    let set = UbxCfgMsg::SetRate { class: 2, id: 0x15, rate: 1 };
    let ports = UbxCfgMsg::SetRatePorts { class: 1, id: 7, rate: [0, 1, 2, 3, 4, 5] };
    assert_eq!(get.to_bytes(), vec![2, 0x13]);
    assert_eq!(set.to_bytes(), vec![2, 0x15, 1]);
    assert_eq!(ports.to_bytes(), vec![1, 7, 0, 1, 2, 3, 4, 5]);
    for m in [get, set, ports] {
        assert_eq!(round_trip(UbloxMsg::CfgMsg(m)), UbloxMsg::CfgMsg(m));
    }
    assert_eq!(UbxCfgMsg::try_from(&[1, 2, 3, 4]), Err(UbxError::Payload));
}

#[test]
fn cfg_prt_usb_bytes_and_round_trip() {
    let prt = UbxCfgPrt::SetUsb {
        in_mask: UbxCfgPrtUsbInMask::ubx(),
        out_mask: UbxCfgPrtUsbOutMask::from_bits(0x23).unwrap(),
    };
    let bytes = prt.to_bytes();
    assert_eq!(bytes.len(), 20);
    assert_eq!(bytes[0], 3);
    assert_eq!(&bytes[12..16], &[0x01, 0x00, 0x23, 0x00]);
    assert_eq!(round_trip(UbloxMsg::CfgPrt(prt)), UbloxMsg::CfgPrt(prt));
    let get = UbxCfgPrt::Get { port_id: 1 };
    assert_eq!(round_trip(UbloxMsg::CfgPrt(get)), UbloxMsg::CfgPrt(get));
}

#[test]
fn cfg_prt_rejects_unknown_mask_bits() {
    assert_eq!(UbxCfgPrtUsbInMask::from_bits(0x08), None);
    assert_eq!(UbxCfgPrtUsbOutMask::from_bits(0x04), None);
    let mut bytes = vec![0u8; 20];
    bytes[0] = 3;
    bytes[12] = 0x08;
    assert_eq!(UbxCfgPrt::try_from(&bytes), Err(UbxError::Payload));
}

#[test]
fn cfg_prt_other_port_stays_raw() {
    let mut payload = vec![0u8; 20];
    payload[0] = 1;
    let raw = UbloxRawMsg::new(0x06, 0x00, payload.clone());
    assert_eq!(UbloxMsg::try_from(raw), Ok(UbloxMsg::Other(UbloxRawMsg::new(0x06, 0x00, payload))));
}

#[test]
fn cfg_gnss_round_trip() {
    let settings = UbxCfgGnss::Settings {
        version: 0,
        num_trk_ch_hw: 32,
        num_trk_ch_use: 32,
        config_blocks: vec![gps_block(0, 8), galileo_block(4, 8)],
    };
    let bytes = settings.to_bytes();
    assert_eq!(&bytes[..4], &[0, 32, 32, 2]);
    assert_eq!(&bytes[4..12], &[0, 0, 8, 0, 1, 0, 0x01, 0x00]);
    assert_eq!(&bytes[12..20], &[2, 4, 8, 0, 1, 0, 0x00, 0x00]);
    assert_eq!(round_trip(UbloxMsg::CfgGnss(settings.clone())), UbloxMsg::CfgGnss(settings));
    assert_eq!(round_trip(UbloxMsg::CfgGnss(UbxCfgGnss::Poll)), UbloxMsg::CfgGnss(UbxCfgGnss::Poll));
}

#[test]
fn cfg_gnss_rejects_bad_payloads() {
    // length does not match the block count
    assert_eq!(UbxCfgGnss::try_from(&[0, 32, 32, 2, 0, 0, 8, 0, 1, 0, 1, 0]), Err(UbxError::Payload));
    // enabled byte out of range
    assert_eq!(UbxCfgGnss::try_from(&[0, 32, 32, 1, 0, 0, 8, 0, 2, 0, 1, 0]), Err(UbxError::Payload));
    // unknown GPS signal flag
    assert_eq!(UbxCfgGnss::try_from(&[0, 32, 32, 1, 0, 0, 8, 0, 1, 0, 2, 0]), Err(UbxError::Payload));
    // unknown constellation
    assert_eq!(UbxCfgGnss::try_from(&[0, 32, 32, 1, 9, 0, 8, 0, 1, 0, 0, 0]), Err(UbxError::Payload));
    assert_eq!(UbxCfgGnss::try_from(&[0, 32]), Err(UbxError::Payload));
}

#[test]
fn sign_extension() {
    assert_eq!(to_i32(0xff, 8), -1);
    assert_eq!(to_i32(0x7f, 8), 127);
    assert_eq!(to_i32(0x80, 8), -128);
    assert_eq!(to_i32(0x8000, 16), -32768);
    assert_eq!(to_i32(0x2000, 14), -8192);
    assert_eq!(to_i32(0x1fff, 14), 8191);
    assert_eq!(to_i32(0xffff_ffff, 32), -1);
    assert_eq!(to_i32(0x7fff_ffff, 32), i32::MAX);
}

#[test]
fn gps_data_telemetry_word_bytes() {
    let data = UbxRxmSfrbxDataGps {
        tlm_message: 0,
        integrity_bit: false,
        tow: 0,
        anti_spoof: false,
        alert: false,
        subframe: GpsSubframe::Subframe4,
    };
    let bytes = data.to_bytes();
    assert_eq!(bytes.len(), 40);
    // 0x8b0000 shifted above the six parity bits is 0x22c00000.
    assert_eq!(&bytes[..4], &[0x00, 0x00, 0xc0, 0x22]);
    // subframe ID 4 in bits 2..5 of the handover word: 0x10 << 6 = 0x400.
    assert_eq!(&bytes[4..8], &[0x00, 0x04, 0x00, 0x00]);
}

#[test]
fn gps_data_decode_by_hand() {
    let mut words = [0u32; 10];
    words[0] = 0x8b0000 | (5 << 2) | 2;
    words[1] = (100 << 7) | (2 << 2) | 64;
    words[2] = (42 << 16) | 0xffff;
    words[9] = (0x1234 << 8) | (3 << 2);
    let mut bytes = vec![];
    for w in words {
        bytes.extend_from_slice(&(w << 6 | 0x15).to_le_bytes());
    }
    let data = UbxRxmSfrbxDataGps::try_from(&bytes).unwrap();
    assert_eq!(data.tlm_message, 5);
    assert!(data.integrity_bit);
    assert_eq!(data.tow, 100);
    assert!(data.alert);
    assert!(!data.anti_spoof);
    match data.subframe {
        GpsSubframe::Subframe2 { iode, c_rs, t_oe, aodo, m0, .. } => {
            assert_eq!(iode, 42);
            assert_eq!(c_rs, -1);
            assert_eq!(t_oe, 0x1234 * 16);
            assert_eq!(aodo, 3 * 900);
            assert_eq!(m0, 0);
        }
        other => panic!("unexpected subframe {:?}", other),
    }
}

#[test]
fn gps_data_errors() {
    let good = gps_data(GpsSubframe::Subframe5).to_bytes();
    assert_eq!(UbxRxmSfrbxDataGps::try_from(&good[..36]), Err(UbxError::Payload));
    let mut bad_preamble = good.clone();
    bad_preamble[2] ^= 0x40;
    assert_eq!(UbxRxmSfrbxDataGps::try_from(&bad_preamble), Err(UbxError::Preamble));
    let mut bad_id = good.clone();
    // subframe ID 5 -> 7: set bit 1 of the ID, which is bit 3 of the handover word, bit 9 on the wire
    bad_id[5] |= 0x02;
    assert_eq!(UbxRxmSfrbxDataGps::try_from(&bad_id), Err(UbxError::SubframeId));
}

#[test]
fn sfrbx_round_trip_every_subframe() {
    for sf in [subframe1(), subframe2(), subframe3(), GpsSubframe::Subframe4, GpsSubframe::Subframe5] {
        let msg = UbxRxmSfrbx { gnss_id: GnssId::Gps, sv_id: 5, freq_id: 0, version: 2, data: UbxRxmSfrbxData::Gps(gps_data(sf)) };
        let bytes = msg.to_bytes();
        assert_eq!(bytes.len(), 48);
        assert_eq!(bytes[4], 10);
        assert_eq!(round_trip(UbloxMsg::RxmSfrbx(msg.clone())), UbloxMsg::RxmSfrbx(msg));
    }
}

#[test]
fn sfrbx_other_constellation_keeps_bytes() {
    let msg = UbxRxmSfrbx { gnss_id: GnssId::Galileo, sv_id: 11, freq_id: 0, version: 2, data: UbxRxmSfrbxData::Other(vec![1, 2, 3, 4, 5, 6, 7, 8]) };
    let bytes = msg.to_bytes();
    assert_eq!(&bytes[..8], &[2, 11, 0, 0, 2, 0, 2, 0]);
    assert_eq!(round_trip(UbloxMsg::RxmSfrbx(msg.clone())), UbloxMsg::RxmSfrbx(msg));
    assert_eq!(UbxRxmSfrbx::try_from(&bytes[..12]), Err(UbxError::Payload));
    assert_eq!(UbxRxmSfrbx::try_from(&[9, 0, 0, 0, 0, 0, 0, 0]), Err(UbxError::Payload));
}

#[test]
fn rawx_round_trip() {
    let m = UbxRxmRawxMeasurement {
        pseudorange_bits: 2.1e7f64.to_bits(),
        carrier_phase_bits: (-1.5e8f64).to_bits(),
        doppler_bits: 1234.5f32.to_bits(),
        gnss_id: 0,
        sv_id: 5,
        freq_id: 0,
        locktime: 64500,
        cno: 42,
        pseudorange_stdev_exp: 15,
        carrier_phase_stdev_steps: None,
        doppler_stdev_exp: 3,
        trk_status: UbxRxmRawxMeasurementTrkStatus::from_bits(0x0f).unwrap(),
    };
    let mut m2 = m;
    m2.carrier_phase_stdev_steps = Some(14);
    let rawx = UbxRxmRawx {
        rcv_tow_bits: 345_600.25f64.to_bits(),
        week: 2300,
        leap_sec: -18,
        recv_status: UbxRxmRawxRecvStatus::from_bits(0x01).unwrap(),
        measurements: vec![m, m2],
    };
    let bytes = rawx.to_bytes();
    assert_eq!(bytes.len(), 16 + 64);
    assert_eq!(&bytes[..8], &345_600.25f64.to_le_bytes());
    assert_eq!(bytes[10], (-18i8) as u8);
    assert_eq!(bytes[11], 2);
    assert_eq!(bytes[16 + 28], 15);
    assert_eq!(bytes[48 + 28], 14);
    assert_eq!(round_trip(UbloxMsg::RxmRawx(rawx.clone())), UbloxMsg::RxmRawx(rawx));
}

#[test]
fn rawx_rejects_bad_payloads() {
    assert_eq!(UbxRxmRawx::try_from(&[0u8; 15]), Err(UbxError::Payload));
    let mut header = vec![0u8; 16];
    header[11] = 1;
    assert_eq!(UbxRxmRawx::try_from(&header), Err(UbxError::Payload));
    header[11] = 0;
    header[12] = 0x04;
    assert_eq!(UbxRxmRawx::try_from(&header), Err(UbxError::Payload));
    let mut meas = vec![0u8; 32];
    meas[28] = 16;
    assert_eq!(UbxRxmRawxMeasurement::try_from(&meas), Err(UbxError::Payload));
    meas[28] = 15;
    meas[27] = 16;
    assert_eq!(UbxRxmRawxMeasurement::try_from(&meas), Err(UbxError::Payload));
}

#[test]
fn unknown_kind_stays_raw() {
    let raw = UbloxRawMsg::new(0x01, 0x07, vec![1, 2, 3]);
    assert_eq!(round_trip(UbloxMsg::Other(raw)), UbloxMsg::Other(UbloxRawMsg::new(0x01, 0x07, vec![1, 2, 3])));
}

#[test]
fn gnss_id_codes() {
    assert_eq!(GnssId::try_from(6), Ok(GnssId::Glonass));
    assert_eq!(GnssId::try_from(7), Err(UbxError::Payload));
    assert_eq!(GnssId::Galileo.to_u8(), 2);
}

#[test]
fn aodo_sits_above_two_spare_bits() {
    let mut words = [0u32; 10];
    words[0] = 0x8b0000;
    words[1] = 2 << 2;
    words[9] = 4;
    let mut bytes = vec![];
    for w in words {
        bytes.extend_from_slice(&(w << 6).to_le_bytes());
    }
    match UbxRxmSfrbxDataGps::try_from(&bytes).unwrap().subframe {
        GpsSubframe::Subframe2 { aodo, t_oe, .. } => {
            assert_eq!(aodo, 900);
            assert_eq!(t_oe, 0);
        }
        other => panic!("unexpected subframe {:?}", other),
    }
    let encoded = gps_data(subframe2()).to_bytes();
    let last = u32::from_le_bytes([encoded[36], encoded[37], encoded[38], encoded[39]]) >> 6;
    assert_eq!((last >> 2) & 31, 30);
    assert_eq!(last & 3, 0);
}
