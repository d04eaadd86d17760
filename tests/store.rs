use ublox_gps::gps_status::{GpsStatus, SatelliteOrbitalElements};
use ublox_gps::lnav::GpsSubframe;

fn sf2(iode: u8) -> GpsSubframe {
    GpsSubframe::Subframe2 {
        aodo: 0,
        iode,
        c_rs: 10,
        delta_n: 20,
        m0: 30,
        c_uc: 40,
        e: 50,
        sqrt_a: 60,
        c_us: 70,
        t_oe: 80,
    }
}

fn sf3(iode: u8) -> GpsSubframe {
    GpsSubframe::Subframe3 {
        iode,
        c_ic: 1,
        omega0: 2,
        c_is: 3,
        i0: 4,
        c_rc: 5,
        omega_small: 6,
        omega_dot: 7,
        i_dot: 8,
    }
}

fn sv_ids(store: &GpsStatus) -> Vec<u8> {
    store.complete_satellites().iter().map(|(sv, _)| *sv).collect()
}

#[test]
fn subframe_pairing_scenario() {
    let mut store = GpsStatus::new();
    store.consume_subframe(5, sf2(42));
    assert!(sv_ids(&store).is_empty());
    store.consume_subframe(5, sf3(42));
    assert_eq!(sv_ids(&store), vec![5]);

    let mut store = GpsStatus::new();
    store.consume_subframe(5, sf3(43));
    store.consume_subframe(5, sf2(42));
    assert!(sv_ids(&store).is_empty());
    store.consume_subframe(5, sf3(42));
    assert_eq!(sv_ids(&store), vec![5]);
}

#[test]
fn pairing_in_either_order_builds_elements() {
    let expected = SatelliteOrbitalElements {
        m0: 30,
        delta_n: 20,
        e: 50,
        sqrt_a: 60,
        omega0: 2,
        i0: 4,
        omega_small: 6,
        omega_dot: 7,
        i_dot: 8,
        c_uc: 40,
        c_us: 70,
        c_rc: 5,
        c_rs: 10,
        c_ic: 1,
        c_is: 3,
        t_oe: 80,
    };
    let mut store = GpsStatus::new();
    store.consume_subframe(9, sf3(7));
    store.consume_subframe(9, sf2(7));
    assert_eq!(store.current_orbital_elements(9), Some(expected));
    assert_eq!(store.complete_satellites(), vec![(9, expected)]);
    assert_eq!(store.satellite(9).partial_subframe, None);
    assert_eq!(SatelliteOrbitalElements::from_subframes(sf2(7), sf3(7)), Some(expected));
    assert_eq!(SatelliteOrbitalElements::from_subframes(sf2(7), sf3(8)), None);
}

#[test]
fn mismatched_iode_keeps_current_elements() {
    let mut store = GpsStatus::new();
    store.consume_subframe(3, sf2(1));
    store.consume_subframe(3, sf3(1));
    let before = store.current_orbital_elements(3);
    assert!(before.is_some());
    store.consume_subframe(3, sf2(2));
    store.consume_subframe(3, sf3(3));
    assert_eq!(store.current_orbital_elements(3), before);
    assert_eq!(store.satellite(3).partial_subframe, Some(sf3(3)));
}

#[test]
fn other_subframes_are_ignored() {
    let mut store = GpsStatus::new();
    store.consume_subframe(4, sf2(9));
    store.consume_subframe(4, GpsSubframe::Subframe4);
    store.consume_subframe(4, GpsSubframe::Subframe5);
    store.consume_subframe(4, sf3(9));
    assert_eq!(sv_ids(&store), vec![4]);
}

#[test]
fn satellites_come_out_in_id_order() {
    let mut store = GpsStatus::new();
    for sv in [200u8, 3, 255, 0] {
        store.consume_subframe(sv, sf2(sv));
        store.consume_subframe(sv, sf3(sv));
    }
    store.consume_subframe(17, sf2(1));
    assert_eq!(sv_ids(&store), vec![0, 3, 200, 255]);
    assert_eq!(store.current_orbital_elements(17), None);
}

#[test]
fn iode_of_subframes() {
    assert_eq!(sf2(42).iode(), Some(42));
    assert_eq!(sf3(43).iode(), Some(43));
    assert_eq!(GpsSubframe::Subframe4.iode(), None);
}
