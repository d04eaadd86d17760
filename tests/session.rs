use ublox_gps::cfg_gnss::{UbxCfgGnss, UbxCfgGnssBlock, UbxCfgGnssBlockFlags};
use ublox_gps::cfg_msg::UbxCfgMsg;
use ublox_gps::cfg_prt::{UbxCfgPrt, UbxCfgPrtUsbInMask, UbxCfgPrtUsbOutMask};
use ublox_gps::cfg_rate::{UbxCfgRate, UbxCfgRateTimeRef};
use ublox_gps::gnss_id::GnssId;
use ublox_gps::gps_status::GpsStatus;
use ublox_gps::lnav::{GpsSubframe, UbxRxmSfrbxDataGps};
use ublox_gps::msg::UbloxMsg;
use ublox_gps::rxm_rawx::{UbxRxmRawx, UbxRxmRawxRecvStatus};
use ublox_gps::rxm_sfrbx::{UbxRxmSfrbx, UbxRxmSfrbxData};
use ublox_gps::session::{handle_message, rewrite_blocks, startup_messages, Action};

fn block(gnss_id: GnssId, res: u8, max: u8) -> UbxCfgGnssBlock {
    let flags = if gnss_id == GnssId::Gps {
        UbxCfgGnssBlockFlags::gps_try_from(0x01).unwrap()
    } else {
        UbxCfgGnssBlockFlags::other_try_from(0).unwrap()
    };
    UbxCfgGnssBlock { gnss_id, res_trk_ch: res, max_trk_ch: max, enabled: true, flags }
}

#[test]
fn cfg_gnss_rewrite_scenario() {
    let mut store = GpsStatus::new();
    let settings = UbxCfgGnss::Settings {
        version: 0,
        num_trk_ch_hw: 32,
        num_trk_ch_use: 32,
        config_blocks: vec![block(GnssId::Gps, 0, 8), block(GnssId::Galileo, 4, 8)],
    };
    let action = handle_message(&mut store, UbloxMsg::CfgGnss(settings));
    let mut gps = block(GnssId::Gps, 8, 8);
    gps.enabled = true;
    let mut galileo = block(GnssId::Galileo, 4, 8);
    galileo.enabled = false;
    assert_eq!(
        action,
        Action::Send(UbloxMsg::CfgGnss(UbxCfgGnss::Settings {
            version: 0,
            num_trk_ch_hw: 32,
            num_trk_ch_use: 32,
            config_blocks: vec![gps, galileo],
        }))
    );
}

#[test]
fn rewrite_blocks_empty() {
    assert_eq!(rewrite_blocks(vec![]), vec![]);
}

#[test]
fn startup_configuration() {
    let msgs = startup_messages();
    assert_eq!(
        msgs,
        vec![
            UbloxMsg::CfgPrt(UbxCfgPrt::SetUsb {
                in_mask: UbxCfgPrtUsbInMask::from_bits(1).unwrap(),
                out_mask: UbxCfgPrtUsbOutMask::from_bits(1).unwrap(),
            }),
            UbloxMsg::CfgRate(UbxCfgRate { meas_rate_ms: 1000, nav_rate_cycles: 1, time_ref: UbxCfgRateTimeRef::Gps }),
            UbloxMsg::CfgMsg(UbxCfgMsg::SetRate { class: 0x02, id: 0x13, rate: 1 }),
            UbloxMsg::CfgMsg(UbxCfgMsg::SetRate { class: 0x02, id: 0x15, rate: 1 }),
            UbloxMsg::CfgGnss(UbxCfgGnss::Poll),
        ]
    );
}

#[test]
fn rawx_sets_time_correction() {
    let mut store = GpsStatus::new();
    let rawx = UbxRxmRawx {
        rcv_tow_bits: 1234.5f64.to_bits(),
        week: 2200,
        leap_sec: 18,
        recv_status: UbxRxmRawxRecvStatus::from_bits(0).unwrap(),
        measurements: vec![],
    };
    assert_eq!(
        handle_message(&mut store, UbloxMsg::RxmRawx(rawx)),
        Action::SetTimeCorrection { week: 2200, rcv_tow_bits: 1234.5f64.to_bits() }
    );
}

#[test]
fn sfrbx_feeds_the_store() {
    let mut store = GpsStatus::new();
    let frame = |subframe| {
        UbloxMsg::RxmSfrbx(UbxRxmSfrbx {
            gnss_id: GnssId::Gps,
            sv_id: 12,
            freq_id: 0,
            version: 2,
            data: UbxRxmSfrbxData::Gps(UbxRxmSfrbxDataGps {
                tlm_message: 0,
                integrity_bit: false,
                tow: 1,
                anti_spoof: false,
                alert: false,
                subframe,
            }),
        })
    };
    let sf2 = GpsSubframe::Subframe2 { aodo: 0, iode: 3, c_rs: 0, delta_n: 0, m0: 0, c_uc: 0, e: 0, sqrt_a: 0, c_us: 0, t_oe: 0 };
    let sf3 = GpsSubframe::Subframe3 { iode: 3, c_ic: 0, omega0: 0, c_is: 0, i0: 0, c_rc: 0, omega_small: 0, omega_dot: 0, i_dot: 0 };
    assert_eq!(handle_message(&mut store, frame(sf2)), Action::Nothing);
    assert_eq!(handle_message(&mut store, frame(sf3)), Action::Nothing);
    assert!(store.current_orbital_elements(12).is_some());
}

#[test]
fn other_messages_ask_nothing() {
    let mut store = GpsStatus::new();
    assert_eq!(handle_message(&mut store, UbloxMsg::CfgGnss(UbxCfgGnss::Poll)), Action::Nothing);
}
