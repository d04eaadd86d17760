use vstd::prelude::*;

use crate::lnav::GpsSubframe;

verus! {

/// The number of satellite IDs that the store has room for.
pub const NUM_SV_IDS: usize = 256;

/// The Keplerian orbital elements of one satellite, as the raw fields of a matching
/// pair of subframes 2 and 3 (see `GpsSubframe` for the scale of each).
#[derive(Debug, Clone, Copy, PartialEq, Eq, Structural)]
pub struct SatelliteOrbitalElements {
    pub m0: i32,
    pub delta_n: i32,
    pub e: u32,
    pub sqrt_a: u32,
    pub omega0: i32,
    pub i0: i32,
    pub omega_small: i32,
    pub omega_dot: i32,
    pub i_dot: i32,
    pub c_uc: i32,
    pub c_us: i32,
    pub c_rc: i32,
    pub c_rs: i32,
    pub c_ic: i32,
    pub c_is: i32,
    pub t_oe: u32,
}

/// The elements that a subframe 2 and a subframe 3 with the same issue of data give;
/// none for any other pair.
pub open spec fn spec_from_subframes(sf2: GpsSubframe, sf3: GpsSubframe) -> Option<SatelliteOrbitalElements> {
    match (sf2, sf3) {
        (
            GpsSubframe::Subframe2 {
                aodo: _,
                iode: iode2,
                c_rs,
                delta_n,
                m0,
                c_uc,
                e,
                sqrt_a,
                c_us,
                t_oe,
            },
            GpsSubframe::Subframe3 {
                iode: iode3,
                c_ic,
                omega0,
                c_is,
                i0,
                c_rc,
                omega_small,
                omega_dot,
                i_dot,
            },
        ) => if iode2 == iode3 {
            Some(
                SatelliteOrbitalElements {
                    m0,
                    delta_n,
                    e,
                    sqrt_a,
                    omega0,
                    i0,
                    omega_small,
                    omega_dot,
                    i_dot,
                    c_uc,
                    c_us,
                    c_rc,
                    c_rs,
                    c_ic,
                    c_is,
                    t_oe,
                },
            )
        } else {
            None
        },
        _ => None,
    }
}

impl SatelliteOrbitalElements {
    pub fn from_subframes(subframe2: GpsSubframe, subframe3: GpsSubframe) -> (r: Option<Self>)
        ensures
            r == spec_from_subframes(subframe2, subframe3),
    {
        match (subframe2, subframe3) {
            (
                GpsSubframe::Subframe2 {
                    aodo: _,
                    iode: iode2,
                    c_rs,
                    delta_n,
                    m0,
                    c_uc,
                    e,
                    sqrt_a,
                    c_us,
                    t_oe,
                },
                GpsSubframe::Subframe3 {
                    iode: iode3,
                    c_ic,
                    omega0,
                    c_is,
                    i0,
                    c_rc,
                    omega_small,
                    omega_dot,
                    i_dot,
                },
            ) => if iode2 == iode3 {
                Some(
                    SatelliteOrbitalElements {
                        m0,
                        delta_n,
                        e,
                        sqrt_a,
                        omega0,
                        i0,
                        omega_small,
                        omega_dot,
                        i_dot,
                        c_uc,
                        c_us,
                        c_rc,
                        c_rs,
                        c_ic,
                        c_is,
                        t_oe,
                    },
                )
            } else {
                None
            },
            _ => None,
        }
    }
}

/// What the store knows of one satellite: the elements of the last matched pair, and a
/// subframe 2 or 3 that waits for its complement.
#[derive(Debug, Clone, Copy, PartialEq, Eq, Structural)]
pub struct SatelliteStatus {
    pub current_orbital_elements: Option<SatelliteOrbitalElements>,
    pub partial_subframe: Option<GpsSubframe>,
}

pub open spec fn is_sf2(s: GpsSubframe) -> bool {
    s matches GpsSubframe::Subframe2 { .. }
}

pub open spec fn is_sf3(s: GpsSubframe) -> bool {
    s matches GpsSubframe::Subframe3 { .. }
}

/// The status after a subframe arrives. Subframes other than 2 and 3 change nothing.
/// A subframe that completes the waiting one (the other kind, the same issue of data)
/// replaces the elements and clears the wait; any other subframe 2 or 3 waits in
/// place of the earlier one.
pub open spec fn spec_consume(st: SatelliteStatus, sf: GpsSubframe) -> SatelliteStatus {
    if !is_sf2(sf) && !is_sf3(sf) {
        st
    } else {
        let paired = match st.partial_subframe {
            Some(p) => if is_sf2(p) {
                spec_from_subframes(p, sf)
            } else {
                spec_from_subframes(sf, p)
            },
            None => None,
        };
        match paired {
            Some(oe) => SatelliteStatus { current_orbital_elements: Some(oe), partial_subframe: None },
            None => SatelliteStatus {
                current_orbital_elements: st.current_orbital_elements,
                partial_subframe: Some(sf),
            },
        }
    }
}

impl SatelliteStatus {
    pub fn new() -> (r: Self)
        ensures
            r.current_orbital_elements is None,
            r.partial_subframe is None,
    {
        SatelliteStatus { current_orbital_elements: None, partial_subframe: None }
    }

    pub fn consume_subframe(&mut self, subframe: GpsSubframe)
        ensures
            *final(self) == spec_consume(*old(self), subframe),
    {
        match subframe {
            GpsSubframe::Subframe2 { .. } | GpsSubframe::Subframe3 { .. } => {},
            _ => {
                return;
            },
        }
        let paired = match self.partial_subframe {
            Some(p) => match p {
                GpsSubframe::Subframe2 { .. } => SatelliteOrbitalElements::from_subframes(p, subframe),
                _ => SatelliteOrbitalElements::from_subframes(subframe, p),
            },
            None => None,
        };
        match paired {
            Some(oe) => {
                self.current_orbital_elements = Some(oe);
                self.partial_subframe = None;
            },
            None => {
                self.partial_subframe = Some(subframe);
            },
        }
    }
}

/// The satellites that have elements, in increasing order of ID, among the first `n` IDs.
pub open spec fn complete_prefix(sats: Seq<SatelliteStatus>, n: int) -> Seq<(u8, SatelliteOrbitalElements)>
    decreases n,
{
    if n <= 0 {
        Seq::empty()
    } else {
        let rest = complete_prefix(sats, n - 1);
        match sats[n - 1].current_orbital_elements {
            Some(oe) => rest.push(((n - 1) as u8, oe)),
            None => rest,
        }
    }
}

/// The ephemeris store: one status for each satellite ID.
#[derive(Debug, Clone)]
pub struct GpsStatus {
    satellites: Vec<SatelliteStatus>,
}

impl View for GpsStatus {
    type V = Seq<SatelliteStatus>;

    closed spec fn view(&self) -> Seq<SatelliteStatus> {
        self.satellites@
    }
}

impl GpsStatus {
    /// A store that knows no satellite.
    pub fn new() -> (r: Self)
        ensures
            r@.len() == NUM_SV_IDS,
            forall|i: int| 0 <= i < NUM_SV_IDS ==> #[trigger] r@[i] == SatelliteStatus::new_spec(),
    {
        let mut satellites: Vec<SatelliteStatus> = Vec::with_capacity(NUM_SV_IDS);
        let mut i: usize = 0;
        while i < NUM_SV_IDS
            invariant
                0 <= i <= NUM_SV_IDS,
                satellites@.len() == i,
                forall|k: int| 0 <= k < i ==> #[trigger] satellites@[k] == SatelliteStatus::new_spec(),
            decreases NUM_SV_IDS - i,
        {
            satellites.push(SatelliteStatus::new());
            i += 1;
        }
        GpsStatus { satellites }
    }

    /// The status of one satellite.
    pub fn satellite(&self, sv_id: u8) -> (r: SatelliteStatus)
        requires
            self@.len() == NUM_SV_IDS,
        ensures
            r == self@[sv_id as int],
    {
        self.satellites[sv_id as usize]
    }

    /// The elements currently known for one satellite.
    pub fn current_orbital_elements(&self, sv_id: u8) -> (r: Option<SatelliteOrbitalElements>)
        requires
            self@.len() == NUM_SV_IDS,
        ensures
            r == self@[sv_id as int].current_orbital_elements,
    {
        self.satellite(sv_id).current_orbital_elements
    }

    /// Hands a subframe of one satellite to that satellite's status; the others stay.
    pub fn consume_subframe(&mut self, sv_id: u8, subframe: GpsSubframe)
        requires
            old(self)@.len() == NUM_SV_IDS,
        ensures
            final(self)@.len() == NUM_SV_IDS,
            final(self)@ == old(self)@.update(sv_id as int, spec_consume(old(self)@[sv_id as int], subframe)),
    {
        let mut st = self.satellites[sv_id as usize];
        st.consume_subframe(subframe);
        self.satellites.set(sv_id as usize, st);
    }

    /// The satellites whose elements are known, in increasing order of ID.
    pub fn complete_satellites(&self) -> (r: Vec<(u8, SatelliteOrbitalElements)>)
        requires
            self@.len() == NUM_SV_IDS,
        ensures
            r@ == complete_prefix(self@, NUM_SV_IDS as int),
    {
        let mut result: Vec<(u8, SatelliteOrbitalElements)> = Vec::new();
        let mut i: usize = 0;
        while i < NUM_SV_IDS
            invariant
                self.satellites@.len() == NUM_SV_IDS,
                0 <= i <= NUM_SV_IDS,
                result@ == complete_prefix(self.satellites@, i as int),
            decreases NUM_SV_IDS - i,
        {
            if let Some(oe) = self.satellites[i].current_orbital_elements {
                result.push((i as u8, oe));
            }
            i += 1;
        }
        result
    }
}

impl SatelliteStatus {
    pub open spec fn new_spec() -> SatelliteStatus {
        SatelliteStatus { current_orbital_elements: None, partial_subframe: None }
    }
}

/// A subframe 2 or 3 that meets a waiting subframe of the other kind with the same
/// issue of data gives the elements of the pair; with another issue of data, it waits
/// in place of the earlier one and the elements stay as they were.
pub proof fn lemma_iode_matching_step(st: SatelliteStatus, sf: GpsSubframe)
    requires
        is_sf2(sf) || is_sf3(sf),
        st.partial_subframe matches Some(p) && (is_sf2(p) != is_sf2(sf)) && (is_sf2(p) || is_sf3(p)),
    ensures
        ({
            let p = st.partial_subframe->Some_0;
            let next = spec_consume(st, sf);
            &&& crate::lnav::spec_iode(p) == crate::lnav::spec_iode(sf) ==> next.partial_subframe is None
                && next.current_orbital_elements is Some
                && next.current_orbital_elements == (if is_sf2(p) {
                spec_from_subframes(p, sf)
            } else {
                spec_from_subframes(sf, p)
            })
            &&& crate::lnav::spec_iode(p) != crate::lnav::spec_iode(sf) ==> next.partial_subframe == Some(sf)
                && next.current_orbital_elements == st.current_orbital_elements
        }),
{
}

/// With no subframe waiting, a subframe 2 and a subframe 3 with the same issue of data,
/// in either order, give the elements of the pair; with different issues of data the
/// later one waits and the elements stay as they were.
pub proof fn lemma_iode_matching(st: SatelliteStatus, sf2: GpsSubframe, sf3: GpsSubframe)
    requires
        is_sf2(sf2),
        is_sf3(sf3),
        st.partial_subframe is None,
    ensures
        crate::lnav::spec_iode(sf2) == crate::lnav::spec_iode(sf3) ==> {
            &&& spec_consume(spec_consume(st, sf2), sf3).current_orbital_elements == spec_from_subframes(sf2, sf3)
            &&& spec_consume(spec_consume(st, sf3), sf2).current_orbital_elements == spec_from_subframes(sf2, sf3)
            &&& spec_from_subframes(sf2, sf3) is Some
        },
        crate::lnav::spec_iode(sf2) != crate::lnav::spec_iode(sf3) ==> {
            &&& spec_consume(spec_consume(st, sf2), sf3) == SatelliteStatus {
                current_orbital_elements: st.current_orbital_elements,
                partial_subframe: Some(sf3),
            }
            &&& spec_consume(spec_consume(st, sf3), sf2) == SatelliteStatus {
                current_orbital_elements: st.current_orbital_elements,
                partial_subframe: Some(sf2),
            }
        },
{
}

} // verus!
