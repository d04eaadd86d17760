use vstd::prelude::*;
use vstd::slice::slice_subrange;

use crate::error::UbxError;
use crate::raw_msg::{hi_byte, le16, lo_byte};

verus! {

/// The bits that the receiver status may set: leap second known 0x01, clock reset 0x02.
pub const RECV_STATUS_ALL: u8 = 0x03;

/// The bits that the tracking status may set: pseudorange valid 0x01, carrier phase
/// valid 0x02, half cycle valid 0x04, half cycle subtracted 0x08.
pub const TRK_STATUS_ALL: u8 = 0x0f;

/// The carrier-phase deviation index that marks the phase as unknown.
pub const CP_STDEV_INVALID: u8 = 15;

/// The receiver status flags of RXM-RAWX.
#[derive(Debug, Clone, Copy, PartialEq, Eq, Structural)]
pub struct UbxRxmRawxRecvStatus {
    bits: u8,
}

/// The tracking status flags of one measurement.
#[derive(Debug, Clone, Copy, PartialEq, Eq, Structural)]
pub struct UbxRxmRawxMeasurementTrkStatus {
    bits: u8,
}

impl View for UbxRxmRawxRecvStatus {
    type V = u8;

    closed spec fn view(&self) -> u8 {
        self.bits
    }
}

impl View for UbxRxmRawxMeasurementTrkStatus {
    type V = u8;

    closed spec fn view(&self) -> u8 {
        self.bits
    }
}

impl UbxRxmRawxRecvStatus {
    #[verifier::type_invariant]
    spec fn inv(&self) -> bool {
        self.bits & !RECV_STATUS_ALL == 0
    }

    pub fn from_bits(bits: u8) -> (r: Option<Self>)
        ensures
            r is Some <==> bits & !RECV_STATUS_ALL == 0,
            r matches Some(m) ==> m@ == bits,
    {
        if bits & !RECV_STATUS_ALL == 0 {
            Some(UbxRxmRawxRecvStatus { bits })
        } else {
            None
        }
    }

    pub fn bits(&self) -> (r: u8)
        ensures
            r == self@,
            r & !RECV_STATUS_ALL == 0,
    {
        proof {
            use_type_invariant(self);
        }
        self.bits
    }
}

impl UbxRxmRawxMeasurementTrkStatus {
    #[verifier::type_invariant]
    spec fn inv(&self) -> bool {
        self.bits & !TRK_STATUS_ALL == 0
    }

    pub fn from_bits(bits: u8) -> (r: Option<Self>)
        ensures
            r is Some <==> bits & !TRK_STATUS_ALL == 0,
            r matches Some(m) ==> m@ == bits,
    {
        if bits & !TRK_STATUS_ALL == 0 {
            Some(UbxRxmRawxMeasurementTrkStatus { bits })
        } else {
            None
        }
    }

    pub fn bits(&self) -> (r: u8)
        ensures
            r == self@,
            r & !TRK_STATUS_ALL == 0,
    {
        proof {
            use_type_invariant(self);
        }
        self.bits
    }
}

/// One raw measurement of RXM-RAWX. The floating-point quantities are kept as their
/// IEEE 754 bit patterns, and the standard deviations as the indexes of the wire:
/// pseudorange 0.01 m * 2^n, carrier phase 0.004 cycles * n (none when unknown),
/// Doppler 0.002 Hz * 2^n.
#[derive(Debug, Clone, Copy, PartialEq, Eq)]
pub struct UbxRxmRawxMeasurement {
    /// Pseudorange in metres, `f64` bits.
    pub pseudorange_bits: u64,
    /// Carrier phase in cycles, `f64` bits.
    pub carrier_phase_bits: u64,
    /// Doppler in hertz, `f32` bits.
    pub doppler_bits: u32,
    pub gnss_id: u8,
    pub sv_id: u8,
    pub freq_id: u8,
    pub locktime: u16,
    pub cno: u8,
    /// Below 16.
    pub pseudorange_stdev_exp: u8,
    /// Below 15; none when the phase deviation is unknown.
    pub carrier_phase_stdev_steps: Option<u8>,
    /// Below 16.
    pub doppler_stdev_exp: u8,
    pub trk_status: UbxRxmRawxMeasurementTrkStatus,
}

/// What a measurement says, with the tracking status as its bits.
pub struct MeasurementView {
    pub pseudorange_bits: u64,
    pub carrier_phase_bits: u64,
    pub doppler_bits: u32,
    pub gnss_id: u8,
    pub sv_id: u8,
    pub freq_id: u8,
    pub locktime: u16,
    pub cno: u8,
    pub pseudorange_stdev_exp: u8,
    pub carrier_phase_stdev_steps: Option<u8>,
    pub doppler_stdev_exp: u8,
    pub trk_status: u8,
}

impl View for UbxRxmRawxMeasurement {
    type V = MeasurementView;

    open spec fn view(&self) -> MeasurementView {
        MeasurementView {
            pseudorange_bits: self.pseudorange_bits,
            carrier_phase_bits: self.carrier_phase_bits,
            doppler_bits: self.doppler_bits,
            gnss_id: self.gnss_id,
            sv_id: self.sv_id,
            freq_id: self.freq_id,
            locktime: self.locktime,
            cno: self.cno,
            pseudorange_stdev_exp: self.pseudorange_stdev_exp,
            carrier_phase_stdev_steps: self.carrier_phase_stdev_steps,
            doppler_stdev_exp: self.doppler_stdev_exp,
            trk_status: self.trk_status@,
        }
    }
}

/// The little-endian unsigned value of `n` bytes at `i`.
pub open spec fn le_bytes(b: Seq<u8>, i: int, n: nat) -> nat
    decreases n,
{
    if n == 0 {
        0
    } else {
        b[i] as nat + 256 * le_bytes(b, i + 1, (n - 1) as nat)
    }
}

/// The `n` little-endian bytes of `v`.
pub open spec fn bytes_le(v: nat, n: nat) -> Seq<u8>
    decreases n,
{
    if n == 0 {
        Seq::empty()
    } else {
        seq![(v % 256) as u8] + bytes_le(v / 256, (n - 1) as nat)
    }
}

proof fn lemma_bytes_le_len(v: nat, n: nat)
    ensures
        bytes_le(v, n).len() == n,
    decreases n,
{
    if n > 0 {
        lemma_bytes_le_len(v / 256, (n - 1) as nat);
    }
}

/// The value of the carrier-phase deviation byte.
pub open spec fn cp_stdev_byte(s: Option<u8>) -> u8 {
    match s {
        Some(n) => n,
        None => CP_STDEV_INVALID,
    }
}

impl MeasurementView {
    /// The 32 bytes of a measurement.
    pub open spec fn spec_bytes(self) -> Seq<u8> {
        bytes_le(self.pseudorange_bits as nat, 8) + bytes_le(self.carrier_phase_bits as nat, 8)
            + bytes_le(self.doppler_bits as nat, 4) + seq![
            self.gnss_id,
            self.sv_id,
            0u8,
            self.freq_id,
            lo_byte(self.locktime as nat),
            hi_byte(self.locktime as nat),
            self.cno,
            self.pseudorange_stdev_exp,
            cp_stdev_byte(self.carrier_phase_stdev_steps),
            self.doppler_stdev_exp,
            self.trk_status,
            0u8,
        ]
    }

    /// The deviation indexes and the tracking status are in range.
    pub open spec fn valid(self) -> bool {
        &&& self.pseudorange_stdev_exp < 16
        &&& self.doppler_stdev_exp < 16
        &&& (self.carrier_phase_stdev_steps matches Some(n) ==> n < CP_STDEV_INVALID)
        &&& self.trk_status & !TRK_STATUS_ALL == 0
    }
}

/// Reads the 32 bytes of a measurement.
pub open spec fn decode_measurement(b: Seq<u8>) -> Result<MeasurementView, UbxError> {
    if b.len() != 32 || b[27] >= 16 || b[28] > CP_STDEV_INVALID || b[29] >= 16 || b[30]
        & !TRK_STATUS_ALL != 0 {
        Err(UbxError::Payload)
    } else {
        Ok(
            MeasurementView {
                pseudorange_bits: le_bytes(b, 0, 8) as u64,
                carrier_phase_bits: le_bytes(b, 8, 8) as u64,
                doppler_bits: le_bytes(b, 16, 4) as u32,
                gnss_id: b[20],
                sv_id: b[21],
                freq_id: b[23],
                locktime: le16(b[24], b[25]) as u16,
                cno: b[26],
                pseudorange_stdev_exp: b[27],
                carrier_phase_stdev_steps: if b[28] == CP_STDEV_INVALID {
                    None
                } else {
                    Some(b[28])
                },
                doppler_stdev_exp: b[29],
                trk_status: b[30],
            },
        )
    }
}

/// Reads `n` little-endian bytes at `i`.
fn read_le(b: &[u8], i: usize, n: usize) -> (r: u64)
    requires
        n <= 8,
        i + n <= b@.len(),
    ensures
        r == le_bytes(b@, i as int, n as nat),
    decreases n,
{
    if n == 0 {
        0
    } else {
        let len = b.len();
        assert(i < len);
        let rest = read_le(b, i + 1, n - 1);
        proof {
            lemma_le_bytes_bound(b@, i as int + 1, (n - 1) as nat);
            vstd::arithmetic::power2::lemma2_to64();
            vstd::arithmetic::power2::lemma2_to64_rest();
            let p = vstd::arithmetic::power2::pow2(8 * (n - 1) as nat);
            assert(p <= 0x100000000000000) by {
                if n - 1 < 7 {
                    vstd::arithmetic::power2::lemma_pow2_strictly_increases(8 * (n - 1) as nat, 56);
                }
            }
            assert(256 * rest + 255 < 0x10000000000000000) by (nonlinear_arith)
                requires
                    rest < p,
                    p <= 0x100000000000000,
            ;
        }
        b[i] as u64 + 256 * rest
    }
}

proof fn lemma_le_bytes_bound(b: Seq<u8>, i: int, n: nat)
    requires
        0 <= i,
        i + n <= b.len(),
    ensures
        le_bytes(b, i, n) < vstd::arithmetic::power2::pow2(8 * n),
    decreases n,
{
    vstd::arithmetic::power2::lemma2_to64();
    if n > 0 {
        lemma_le_bytes_bound(b, i + 1, (n - 1) as nat);
        vstd::arithmetic::power2::lemma_pow2_adds(8, 8 * (n - 1) as nat);
    }
}

/// Appends the `n` little-endian bytes of `v`.
fn push_le(out: &mut Vec<u8>, v: u64, n: usize)
    requires
        n <= 8,
    ensures
        final(out)@ == old(out)@ + bytes_le(v as nat, n as nat),
    decreases n,
{
    if n > 0 {
        out.push((v % 256) as u8);
        push_le(out, v / 256, n - 1);
        assert(out@ =~= old(out)@ + bytes_le(v as nat, n as nat));
    } else {
        assert(out@ =~= old(out)@ + bytes_le(v as nat, n as nat));
    }
}

impl UbxRxmRawxMeasurement {
    pub fn to_bytes(&self) -> (r: Vec<u8>)
        ensures
            r@ == self@.spec_bytes(),
            r@.len() == 32,
    {
        proof {
            lemma_bytes_le_len(self.pseudorange_bits as nat, 8);
            lemma_bytes_le_len(self.carrier_phase_bits as nat, 8);
            lemma_bytes_le_len(self.doppler_bits as nat, 4);
        }
        let mut r: Vec<u8> = Vec::with_capacity(32);
        push_le(&mut r, self.pseudorange_bits, 8);
        push_le(&mut r, self.carrier_phase_bits, 8);
        push_le(&mut r, self.doppler_bits as u64, 4);
        let ghost head = r@;
        r.push(self.gnss_id);
        r.push(self.sv_id);
        r.push(0);
        r.push(self.freq_id);
        r.push((self.locktime % 256) as u8);
        r.push((self.locktime / 256) as u8);
        r.push(self.cno);
        r.push(self.pseudorange_stdev_exp);
        r.push(
            match self.carrier_phase_stdev_steps {
                Some(n) => n,
                None => CP_STDEV_INVALID,
            },
        );
        r.push(self.doppler_stdev_exp);
        r.push(self.trk_status.bits());
        r.push(0);
        assert(r@ =~= self@.spec_bytes());
        r
    }

    pub fn try_from(bytes: &[u8]) -> (r: Result<UbxRxmRawxMeasurement, UbxError>)
        ensures
            match (r, decode_measurement(bytes@)) {
                (Ok(m), Ok(v)) => m@ == v,
                (Err(e), Err(f)) => e == f,
                _ => false,
            },
    {
        if bytes.len() != 32 {
            return Err(UbxError::Payload);
        }
        let pseudorange_bits = read_le(bytes, 0, 8);
        let carrier_phase_bits = read_le(bytes, 8, 8);
        let doppler_bits = read_le(bytes, 16, 4) as u32;
        let gnss_id = bytes[20];
        let sv_id = bytes[21];
        let freq_id = bytes[23];
        let locktime = bytes[24] as u16 + 256 * (bytes[25] as u16);
        let cno = bytes[26];
        if bytes[27] >= 16 {
            return Err(UbxError::Payload);
        }
        let carrier_phase_stdev_steps = if bytes[28] < CP_STDEV_INVALID {
            Some(bytes[28])
        } else if bytes[28] == CP_STDEV_INVALID {
            None
        } else {
            return Err(UbxError::Payload);
        };
        if bytes[29] >= 16 {
            return Err(UbxError::Payload);
        }
        let trk_status = match UbxRxmRawxMeasurementTrkStatus::from_bits(bytes[30]) {
            Some(t) => t,
            None => {
                return Err(UbxError::Payload);
            },
        };
        Ok(
            UbxRxmRawxMeasurement {
                pseudorange_bits,
                carrier_phase_bits,
                doppler_bits,
                gnss_id,
                sv_id,
                freq_id,
                locktime,
                cno,
                pseudorange_stdev_exp: bytes[27],
                carrier_phase_stdev_steps,
                doppler_stdev_exp: bytes[29],
                trk_status,
            },
        )
    }
}

/// RXM-RAWX: the receiver's time of week and week number, and its raw measurements.
#[derive(Debug, Clone, PartialEq, Eq)]
pub struct UbxRxmRawx {
    /// Receiver time of week in seconds, `f64` bits.
    pub rcv_tow_bits: u64,
    pub week: u16,
    pub leap_sec: i8,
    pub recv_status: UbxRxmRawxRecvStatus,
    pub measurements: Vec<UbxRxmRawxMeasurement>,
}

pub struct RawxView {
    pub rcv_tow_bits: u64,
    pub week: u16,
    pub leap_sec: i8,
    pub recv_status: u8,
    pub measurements: Seq<MeasurementView>,
}

impl View for UbxRxmRawx {
    type V = RawxView;

    open spec fn view(&self) -> RawxView {
        RawxView {
            rcv_tow_bits: self.rcv_tow_bits,
            week: self.week,
            leap_sec: self.leap_sec,
            recv_status: self.recv_status@,
            measurements: self.measurements@.map_values(|m: UbxRxmRawxMeasurement| m@),
        }
    }
}

/// The bytes of a sequence of measurements, one after the other.
pub open spec fn measurements_bytes(ms: Seq<MeasurementView>) -> Seq<u8>
    decreases ms.len(),
{
    if ms.len() == 0 {
        Seq::empty()
    } else {
        measurements_bytes(ms.drop_last()) + ms.last().spec_bytes()
    }
}

impl RawxView {
    /// The payload: a 16-byte header (time of week, week, leap seconds, measurement
    /// count, receiver status, three reserved bytes), then 32 bytes per measurement.
    pub open spec fn spec_bytes(self) -> Seq<u8> {
        bytes_le(self.rcv_tow_bits as nat, 8) + seq![
            lo_byte(self.week as nat),
            hi_byte(self.week as nat),
            self.leap_sec as u8,
            self.measurements.len() as u8,
            self.recv_status,
            0u8,
            0u8,
            0u8,
        ] + measurements_bytes(self.measurements)
    }

    /// At most 255 measurements, each valid, and a valid receiver status.
    pub open spec fn valid(self) -> bool {
        &&& self.measurements.len() <= 255
        &&& self.recv_status & !RECV_STATUS_ALL == 0
        &&& forall|i: int| 0 <= i < self.measurements.len() ==> (#[trigger] self.measurements[i]).valid()
    }
}

/// The bytes of the `i`-th measurement of an RXM-RAWX payload.
pub open spec fn measurement_slice(b: Seq<u8>, i: int) -> Seq<u8> {
    b.subrange(16 + 32 * i, 48 + 32 * i)
}

pub open spec fn measurement_ok(b: Seq<u8>, i: int) -> MeasurementView {
    match decode_measurement(measurement_slice(b, i)) {
        Ok(m) => m,
        Err(_) => arbitrary(),
    }
}

/// Reads an RXM-RAWX payload: the length must be 16 plus 32 per measurement that the
/// header counts, and the status and every measurement must read.
pub open spec fn decode_rawx(b: Seq<u8>) -> Result<RawxView, UbxError> {
    if b.len() < 16 || b.len() != 16 + 32 * b[11] || b[12] & !RECV_STATUS_ALL != 0 {
        Err(UbxError::Payload)
    } else if exists|i: int| 0 <= i < b[11] && #[trigger] decode_measurement(measurement_slice(b, i)) is Err {
        Err(UbxError::Payload)
    } else {
        Ok(
            RawxView {
                rcv_tow_bits: le_bytes(b, 0, 8) as u64,
                week: le16(b[8], b[9]) as u16,
                leap_sec: b[10] as i8,
                recv_status: b[12],
                measurements: Seq::new(b[11] as nat, |i: int| measurement_ok(b, i)),
            },
        )
    }
}

impl UbxRxmRawx {
    pub fn to_bytes(&self) -> (r: Vec<u8>)
        requires
            self@.measurements.len() <= 255,
        ensures
            r@ == self@.spec_bytes(),
    {
        let n = self.measurements.len();
        let mut result: Vec<u8> = Vec::new();
        push_le(&mut result, self.rcv_tow_bits, 8);
        result.push((self.week % 256) as u8);
        result.push((self.week / 256) as u8);
        result.push(#[verifier::truncate] (self.leap_sec as u8));
        result.push(n as u8);
        result.push(self.recv_status.bits());
        result.push(0);
        result.push(0);
        result.push(0);
        let ghost head = result@;
        let ghost views = self@.measurements;
        assert(head =~= bytes_le(self.rcv_tow_bits as nat, 8) + seq![
            lo_byte(self.week as nat),
            hi_byte(self.week as nat),
            self.leap_sec as u8,
            n as u8,
            self.recv_status@,
            0u8,
            0u8,
            0u8,
        ]);
        let mut i: usize = 0;
        while i < n
            invariant
                n == self.measurements@.len(),
                views == self@.measurements,
                0 <= i <= n,
                result@ == head + measurements_bytes(views.take(i as int)),
            decreases n - i,
        {
            let b = self.measurements[i].to_bytes();
            let ghost prev = result@;
            let mut j: usize = 0;
            while j < 32
                invariant
                    b@.len() == 32,
                    0 <= j <= 32,
                    result@ == prev + b@.take(j as int),
                decreases 32 - j,
            {
                result.push(b[j]);
                j += 1;
                assert(result@ =~= prev + b@.take(j as int));
            }
            assert(views.take(i + 1).drop_last() =~= views.take(i as int));
            assert(b@.take(32) =~= b@);
            assert(result@ =~= head + measurements_bytes(views.take(i + 1)));
            i += 1;
        }
        assert(views.take(n as int) =~= views);
        result
    }

    pub fn try_from(bytes: &[u8]) -> (r: Result<UbxRxmRawx, UbxError>)
        ensures
            match (r, decode_rawx(bytes@)) {
                (Ok(m), Ok(v)) => m@ == v,
                (Err(e), Err(f)) => e == f,
                _ => false,
            },
    {
        let len = bytes.len();
        if len < 16 {
            return Err(UbxError::Payload);
        }
        let length = bytes[11] as usize;
        if len != 16 + 32 * length {
            return Err(UbxError::Payload);
        }
        let recv_status = match UbxRxmRawxRecvStatus::from_bits(bytes[12]) {
            Some(s) => s,
            None => {
                return Err(UbxError::Payload);
            },
        };
        let rcv_tow_bits = read_le(bytes, 0, 8);
        let week = bytes[8] as u16 + 256 * (bytes[9] as u16);
        let leap_sec = bytes[10] as i8;
        let mut measurements: Vec<UbxRxmRawxMeasurement> = Vec::new();
        let mut i: usize = 0;
        while i < length
            invariant
                length == bytes@[11],
                len == bytes@.len(),
                len == 16 + 32 * length,
                0 <= i <= length,
                forall|k: int| 0 <= k < i ==> decode_measurement(#[trigger] measurement_slice(bytes@, k)) is Ok,
                measurements@.map_values(|m: UbxRxmRawxMeasurement| m@) =~= Seq::new(
                    i as nat,
                    |k: int| measurement_ok(bytes@, k),
                ),
            decreases length - i,
        {
            let slice = slice_subrange(bytes, 16 + 32 * i, 48 + 32 * i);
            assert(slice@ == measurement_slice(bytes@, i as int));
            match UbxRxmRawxMeasurement::try_from(slice) {
                Ok(m) => {
                    let ghost prev = measurements@;
                    measurements.push(m);
                    assert(measurements@.map_values(|m: UbxRxmRawxMeasurement| m@) =~= prev.map_values(
                        |m: UbxRxmRawxMeasurement| m@,
                    ).push(m@));
                },
                Err(_) => {
                    return Err(UbxError::Payload);
                },
            }
            i += 1;
        }
        Ok(UbxRxmRawx { rcv_tow_bits, week, leap_sec, recv_status, measurements })
    }
}

/// Measurements take 32 bytes each.
pub proof fn lemma_measurements_bytes_len(ms: Seq<MeasurementView>)
    ensures
        measurements_bytes(ms).len() == 32 * ms.len(),
    decreases ms.len(),
{
    if ms.len() > 0 {
        lemma_measurements_bytes_len(ms.drop_last());
        let m = ms.last();
        lemma_bytes_le_len(m.pseudorange_bits as nat, 8);
        lemma_bytes_le_len(m.carrier_phase_bits as nat, 8);
        lemma_bytes_le_len(m.doppler_bits as nat, 4);
    }
}

/// An RXM-RAWX payload is 16 bytes plus 32 per measurement.
pub proof fn lemma_rawx_len(v: RawxView)
    ensures
        v.spec_bytes().len() == 16 + 32 * v.measurements.len(),
{
    lemma_measurements_bytes_len(v.measurements);
    lemma_bytes_le_len(v.rcv_tow_bits as nat, 8);
}

proof fn lemma_le_bytes_of(b: Seq<u8>, i: int, v: nat, n: nat)
    requires
        0 <= i,
        i + n <= b.len(),
        b.subrange(i, i + n) == bytes_le(v, n),
        v < vstd::arithmetic::power2::pow2(8 * n),
    ensures
        le_bytes(b, i, n) == v,
    decreases n,
{
    vstd::arithmetic::power2::lemma2_to64();
    if n == 0 {
        vstd::arithmetic::power2::lemma_pow2_pos(0);
    } else {
        let p = vstd::arithmetic::power2::pow2(8 * (n - 1) as nat);
        vstd::arithmetic::power2::lemma_pow2_adds(8, 8 * (n - 1) as nat);
        assert(b[i] == bytes_le(v, n)[0]);
        assert(b.subrange(i + 1, i + n) =~= bytes_le(v, n).subrange(1, n as int));
        assert(bytes_le(v, n).subrange(1, n as int) =~= bytes_le(v / 256, (n - 1) as nat));
        assert(v / 256 < p) by (nonlinear_arith)
            requires
                v < 256 * p,
        ;
        lemma_le_bytes_of(b, i + 1, v / 256, (n - 1) as nat);
    }
}

proof fn bv_leap(x: i8)
    by (bit_vector)
    ensures
        (x as u8) as i8 == x,
{
}

/// A valid measurement reads back as itself.
pub proof fn lemma_measurement_round_trip(m: MeasurementView)
    requires
        m.valid(),
    ensures
        decode_measurement(m.spec_bytes()) == Ok::<MeasurementView, UbxError>(m),
{
    let b = m.spec_bytes();
    vstd::arithmetic::power2::lemma2_to64();
    vstd::arithmetic::power2::lemma2_to64_rest();
    lemma_bytes_le_len(m.pseudorange_bits as nat, 8);
    lemma_bytes_le_len(m.carrier_phase_bits as nat, 8);
    lemma_bytes_le_len(m.doppler_bits as nat, 4);
    assert(b.subrange(0, 8) =~= bytes_le(m.pseudorange_bits as nat, 8));
    assert(b.subrange(8, 16) =~= bytes_le(m.carrier_phase_bits as nat, 8));
    assert(b.subrange(16, 20) =~= bytes_le(m.doppler_bits as nat, 4));
    lemma_le_bytes_of(b, 0, m.pseudorange_bits as nat, 8);
    lemma_le_bytes_of(b, 8, m.carrier_phase_bits as nat, 8);
    lemma_le_bytes_of(b, 16, m.doppler_bits as nat, 4);
    assert(decode_measurement(b) == Ok::<MeasurementView, UbxError>(m));
}

proof fn lemma_measurements_slices(ms: Seq<MeasurementView>)
    ensures
        measurements_bytes(ms).len() == 32 * ms.len(),
        forall|k: int|
            0 <= k < ms.len() ==> measurements_bytes(ms).subrange(32 * k, 32 * k + 32)
                == #[trigger] ms[k].spec_bytes(),
    decreases ms.len(),
{
    lemma_measurements_bytes_len(ms);
    if ms.len() > 0 {
        let init = ms.drop_last();
        lemma_measurements_slices(init);
        lemma_measurements_bytes_len(init);
        let all = measurements_bytes(ms);
        assert forall|k: int| 0 <= k < ms.len() implies all.subrange(32 * k, 32 * k + 32)
            == #[trigger] ms[k].spec_bytes() by {
            if k < ms.len() - 1 {
                assert(init[k] == ms[k]);
                assert(all.subrange(32 * k, 32 * k + 32) =~= measurements_bytes(init).subrange(
                    32 * k,
                    32 * k + 32,
                ));
            } else {
                assert(all.subrange(32 * k, 32 * k + 32) =~= ms.last().spec_bytes());
            }
        }
    }
}

/// A valid RXM-RAWX message reads back as itself.
pub proof fn lemma_rawx_round_trip(v: RawxView)
    requires
        v.valid(),
    ensures
        decode_rawx(v.spec_bytes()) == Ok::<RawxView, UbxError>(v),
{
    let b = v.spec_bytes();
    let ms = v.measurements;
    vstd::arithmetic::power2::lemma2_to64();
    vstd::arithmetic::power2::lemma2_to64_rest();
    lemma_rawx_len(v);
    lemma_bytes_le_len(v.rcv_tow_bits as nat, 8);
    lemma_measurements_slices(ms);
    assert(b.subrange(0, 8) =~= bytes_le(v.rcv_tow_bits as nat, 8));
    lemma_le_bytes_of(b, 0, v.rcv_tow_bits as nat, 8);
    bv_leap(v.leap_sec);
    assert(b[11] == ms.len());
    let body = measurements_bytes(ms);
    assert forall|i: int| 0 <= i < ms.len() implies decode_measurement(
        #[trigger] measurement_slice(b, i),
    ) == Ok::<MeasurementView, UbxError>(ms[i]) by {
        assert(measurement_slice(b, i) =~= body.subrange(32 * i, 32 * i + 32));
        lemma_measurement_round_trip(ms[i]);
    }
    assert(Seq::new(b[11] as nat, |i: int| measurement_ok(b, i)) =~= ms);
}

} // verus!
