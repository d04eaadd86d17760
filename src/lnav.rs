use vstd::prelude::*;
use vstd::arithmetic::power2::{pow2, lemma2_to64, lemma2_to64_rest, lemma_pow2_unfold};
use vstd::bits::lemma_u64_shl_is_mul;

use crate::error::UbxError;

verus! {

/// Telemetry preamble: the top eight bits of the first data word of every subframe.
pub const TLM_PREAMBLE: u32 = 0x8b;

/// `val`, read as a two's-complement number of `bits` bits.
pub open spec fn sign_extend(val: nat, bits: nat) -> int {
    if val >= pow2((bits - 1) as nat) {
        val - pow2(bits)
    } else {
        val as int
    }
}

/// `val` sign-extended from `bits` bits, as an `i32`.
pub open spec fn sx(val: u32, bits: nat) -> i32 {
    sign_extend(val as nat, bits) as i32
}

/// Converts a `bits`-wide two's-complement value to `i32` by replicating its top bit.
pub fn to_i32(val: u32, bits: u8) -> (r: i32)
    requires
        1 <= bits <= 32,
        val < pow2(bits as nat),
    ensures
        r as int == sign_extend(val as nat, bits as nat),
        r == sx(val, bits as nat),
{
    proof {
        lemma2_to64();
        lemma_pow2_unfold(bits as nat);
        vstd::arithmetic::power2::lemma_pow2_strictly_increases((bits - 1) as nat, 32);
        if bits < 32 {
            vstd::arithmetic::power2::lemma_pow2_strictly_increases((bits - 1) as nat, 31);
        }
        lemma_u64_shl_is_mul(1, (bits - 1) as u64);
    }
    let half: u64 = 1u64 << ((bits - 1) as u64);
    if (val as u64) >= half {
        let wide: i64 = val as i64 - 2 * (half as i64);
        wide as i32
    } else {
        val as i32
    }
}

/// A subframe of the GPS legacy navigation message. Every number is the raw field
/// of the broadcast, sign-extended where it is signed: its physical value is the
/// field times a power of two that each field documents.
#[derive(Debug, Clone, Copy, PartialEq, Eq, Structural)]
pub enum GpsSubframe {
    Subframe1 {
        /// Week number, ten bits.
        week_number: u16,
        /// User range accuracy index, four bits.
        ura_index: u8,
        /// Satellite health, six bits.
        sv_health: u8,
        /// Group delay, times 2^-31 s.
        tgd: i32,
        /// Issue of data, clock, ten bits.
        iodc: u16,
        /// Clock reference time in seconds (a multiple of 16).
        toc: u32,
        /// Clock drift rate, times 2^-55 s/s^2.
        af2: i32,
        /// Clock drift, times 2^-43 s/s.
        af1: i32,
        /// Clock bias, times 2^-31 s.
        af0: i32,
    },
    Subframe2 {
        /// Age of data offset in seconds (a multiple of 900).
        aodo: u16,
        /// Issue of data, ephemeris.
        iode: u8,
        /// Sine correction to the orbit radius, times 2^-5 m.
        c_rs: i32,
        /// Mean motion difference, times 2^-43 semicircles/s.
        delta_n: i32,
        /// Mean anomaly at reference time, times 2^-31 semicircles.
        m0: i32,
        /// Cosine correction to the argument of latitude, times 2^-29 rad.
        c_uc: i32,
        /// Eccentricity, times 2^-33.
        e: u32,
        /// Square root of the semi-major axis, times 2^-19 m^(1/2).
        sqrt_a: u32,
        /// Sine correction to the argument of latitude, times 2^-29 rad.
        c_us: i32,
        /// Reference time of ephemeris in seconds (a multiple of 16).
        t_oe: u32,
    },
    Subframe3 {
        /// Issue of data, ephemeris.
        iode: u8,
        /// Cosine correction to the inclination, times 2^-29 rad.
        c_ic: i32,
        /// Longitude of the ascending node at weekly epoch, times 2^-31 semicircles.
        omega0: i32,
        /// Sine correction to the inclination, times 2^-29 rad.
        c_is: i32,
        /// Inclination at reference time, times 2^-31 semicircles.
        i0: i32,
        /// Cosine correction to the orbit radius, times 2^-5 m.
        c_rc: i32,
        /// Argument of perigee, times 2^-31 semicircles.
        omega_small: i32,
        /// Rate of right ascension, times 2^-43 semicircles/s, 24 bits.
        omega_dot: i32,
        /// Rate of inclination, times 2^-43 semicircles/s, 14 bits.
        i_dot: i32,
    },
    Subframe4,
    Subframe5,
}

/// The issue of data of an ephemeris subframe; none for the other subframes.
pub open spec fn spec_iode(s: GpsSubframe) -> Option<u8> {
    match s {
        GpsSubframe::Subframe2 { iode, .. } => Some(iode),
        GpsSubframe::Subframe3 { iode, .. } => Some(iode),
        _ => None,
    }
}

impl GpsSubframe {
    /// The issue of data of subframe 2 or 3.
    pub fn iode(&self) -> (r: Option<u8>)
        ensures
            r == spec_iode(*self),
    {
        match *self {
            GpsSubframe::Subframe2 { iode, .. } => Some(iode),
            GpsSubframe::Subframe3 { iode, .. } => Some(iode),
            _ => None,
        }
    }
}

/// Every word holds 24 data bits.
pub open spec fn data_words(w: Seq<u32>) -> bool {
    forall|i: int| 0 <= i < w.len() ==> #[trigger] w[i] < 0x1000000
}

/// Two 24-bit words joined: the low eight bits of the first above all of the second.
pub open spec fn join32(hi: u32, lo: u32) -> u32 {
    ((hi & 255) << 24) | lo
}

/// Subframe 1 from data words 3 to 10.
pub open spec fn spec_subframe1(w: Seq<u32>) -> GpsSubframe {
    GpsSubframe::Subframe1 {
        week_number: (w[0] >> 14) as u16,
        ura_index: ((w[0] >> 8) & 15) as u8,
        sv_health: ((w[0] >> 2) & 63) as u8,
        iodc: (((w[0] & 3) << 8) | (w[5] >> 16)) as u16,
        tgd: sx(w[4] & 255, 8),
        toc: ((w[5] & 65535) * 16) as u32,
        af0: sx(w[7] >> 2, 22),
        af1: sx(w[6] & 65535, 16),
        af2: sx(w[6] >> 16, 8),
    }
}

/// Subframe 2 from data words 3 to 10.
pub open spec fn spec_subframe2(w: Seq<u32>) -> GpsSubframe {
    GpsSubframe::Subframe2 {
        iode: (w[0] >> 16) as u8,
        c_rs: sx(w[0] & 65535, 16),
        delta_n: sx(w[1] >> 8, 16),
        m0: sx(join32(w[1], w[2]), 32),
        c_uc: sx(w[3] >> 8, 16),
        e: join32(w[3], w[4]),
        c_us: sx(w[5] >> 8, 16),
        sqrt_a: join32(w[5], w[6]),
        t_oe: ((w[7] >> 8) * 16) as u32,
        aodo: (((w[7] >> 2) & 31) * 900) as u16,
    }
}

/// Subframe 3 from data words 3 to 10.
pub open spec fn spec_subframe3(w: Seq<u32>) -> GpsSubframe {
    GpsSubframe::Subframe3 {
        c_ic: sx(w[0] >> 8, 16),
        omega0: sx(join32(w[0], w[1]), 32),
        c_is: sx(w[2] >> 8, 16),
        i0: sx(join32(w[2], w[3]), 32),
        c_rc: sx(w[4] >> 8, 16),
        omega_small: sx(join32(w[4], w[5]), 32),
        omega_dot: sx(w[6], 24),
        iode: (w[7] >> 16) as u8,
        i_dot: sx((w[7] >> 2) & 16383, 14),
    }
}

proof fn lemma_word_bounds(w: u32)
    by (bit_vector)
    requires
        w < 0x1000000,
    ensures
        w >> 8 < 0x10000,
        w >> 2 < 0x400000,
        w >> 16 < 0x100,
        w >> 14 < 0x400,
        w & 255 < 0x100,
        w & 65535 < 0x10000,
        (w >> 2) & 16383 < 0x4000,
        (w >> 8) & 15 < 16,
        (w >> 2) & 63 < 64,
        (w >> 2) & 31 < 32,
{
}

proof fn lemma_iodc_bound(a: u32, b: u32)
    by (bit_vector)
    requires
        a < 0x1000000,
        b < 0x1000000,
    ensures
        ((a & 3) << 8) | (b >> 16) < 0x400,
{
}

fn decode_subframe1(w: &[u32]) -> (r: GpsSubframe)
    requires
        w@.len() == 8,
        data_words(w@),
    ensures
        r == spec_subframe1(w@),
{
    proof {
        lemma2_to64();
        lemma_word_bounds(w[0]);
        lemma_word_bounds(w[4]);
        lemma_word_bounds(w[5]);
        lemma_word_bounds(w[6]);
        lemma_word_bounds(w[7]);
        lemma_iodc_bound(w[0], w[5]);
    }
    let week_number = (w[0] >> 14) as u16;
    let ura_index = ((w[0] >> 8) & 15) as u8;
    let sv_health = ((w[0] >> 2) & 63) as u8;
    let iodc = (((w[0] & 3) << 8) | (w[5] >> 16)) as u16;
    let tgd = to_i32(w[4] & 255, 8);
    let toc = (w[5] & 65535) * 16;
    let af0 = to_i32(w[7] >> 2, 22);
    let af1 = to_i32(w[6] & 65535, 16);
    let af2 = to_i32(w[6] >> 16, 8);
    GpsSubframe::Subframe1 { week_number, ura_index, sv_health, iodc, tgd, toc, af0, af1, af2 }
}

fn decode_subframe2(w: &[u32]) -> (r: GpsSubframe)
    requires
        w@.len() == 8,
        data_words(w@),
    ensures
        r == spec_subframe2(w@),
{
    proof {
        lemma2_to64();
        lemma_word_bounds(w[0]);
        lemma_word_bounds(w[1]);
        lemma_word_bounds(w[3]);
        lemma_word_bounds(w[5]);
        lemma_word_bounds(w[7]);
    }
    let iode = (w[0] >> 16) as u8;
    let c_rs = to_i32(w[0] & 65535, 16);
    let delta_n = to_i32(w[1] >> 8, 16);
    let m0 = to_i32(((w[1] & 255) << 24) | w[2], 32);
    let c_uc = to_i32(w[3] >> 8, 16);
    let e = ((w[3] & 255) << 24) | w[4];
    let c_us = to_i32(w[5] >> 8, 16);
    let sqrt_a = ((w[5] & 255) << 24) | w[6];
    let t_oe = (w[7] >> 8) * 16;
    let aodo = ((w[7] >> 2) & 31) as u16 * 900;
    GpsSubframe::Subframe2 { iode, c_rs, delta_n, m0, c_uc, e, c_us, sqrt_a, t_oe, aodo }
}

fn decode_subframe3(w: &[u32]) -> (r: GpsSubframe)
    requires
        w@.len() == 8,
        data_words(w@),
    ensures
        r == spec_subframe3(w@),
{
    proof {
        lemma2_to64();
        lemma_word_bounds(w[0]);
        lemma_word_bounds(w[2]);
        lemma_word_bounds(w[4]);
        lemma_word_bounds(w[6]);
        lemma_word_bounds(w[7]);
    }
    let c_ic = to_i32(w[0] >> 8, 16);
    let omega0 = to_i32(((w[0] & 255) << 24) | w[1], 32);
    let c_is = to_i32(w[2] >> 8, 16);
    let i0 = to_i32(((w[2] & 255) << 24) | w[3], 32);
    let c_rc = to_i32(w[4] >> 8, 16);
    let omega_small = to_i32(((w[4] & 255) << 24) | w[5], 32);
    let omega_dot = to_i32(w[6], 24);
    let iode = (w[7] >> 16) as u8;
    let i_dot = to_i32((w[7] >> 2) & 16383, 14);
    GpsSubframe::Subframe3 { c_ic, omega0, c_is, i0, c_rc, omega_small, omega_dot, iode, i_dot }
}

/// The 32-bit value that four little-endian bytes at `i` hold.
pub open spec fn le32(b: Seq<u8>, i: int) -> nat {
    b[i] as nat + 256 * (b[i + 1] as nat) + 65536 * (b[i + 2] as nat) + 16777216 * (b[i + 3] as nat)
}

/// The 24 data bits of the `k`-th 32-bit word: the word without its six low parity bits
/// and its two top bits.
pub open spec fn nav_word(b: Seq<u8>, k: int) -> u32 {
    ((le32(b, 4 * k) as u32) >> 6) & 0xffffff
}

/// The ten data words of a 40-byte subframe.
pub open spec fn nav_words(b: Seq<u8>) -> Seq<u32> {
    Seq::new(10, |k: int| nav_word(b, k))
}

/// A GPS subframe with its telemetry (TLM) and handover (HOW) words.
#[derive(Debug, Clone, Copy, PartialEq, Eq, Structural)]
pub struct UbxRxmSfrbxDataGps {
    /// Telemetry message, 14 bits.
    pub tlm_message: u16,
    pub integrity_bit: bool,
    /// Truncated time of week, 17 bits (units of six seconds).
    pub tow: u32,
    pub anti_spoof: bool,
    pub alert: bool,
    pub subframe: GpsSubframe,
}

/// The subframe that an ID names, read from data words 3 to 10; none for an ID outside 1..=5.
pub open spec fn spec_subframe(id: u32, w: Seq<u32>) -> Option<GpsSubframe> {
    if id == 1 {
        Some(spec_subframe1(w))
    } else if id == 2 {
        Some(spec_subframe2(w))
    } else if id == 3 {
        Some(spec_subframe3(w))
    } else if id == 4 {
        Some(GpsSubframe::Subframe4)
    } else if id == 5 {
        Some(GpsSubframe::Subframe5)
    } else {
        None
    }
}

/// Reads the 40-byte GPS payload of RXM-SFRBX. Parity bits are not checked.
pub open spec fn decode_gps_data(b: Seq<u8>) -> Result<UbxRxmSfrbxDataGps, UbxError> {
    if b.len() != 40 {
        Err(UbxError::Payload)
    } else {
        let w = nav_words(b);
        if w[0] >> 16 != TLM_PREAMBLE {
            Err(UbxError::Preamble)
        } else {
            match spec_subframe((w[1] >> 2) & 7, w.subrange(2, 10)) {
                None => Err(UbxError::SubframeId),
                Some(subframe) => Ok(
                    UbxRxmSfrbxDataGps {
                        tlm_message: ((w[0] >> 2) & 0x3fff) as u16,
                        integrity_bit: (w[0] >> 1) & 1 == 1,
                        tow: w[1] >> 7,
                        anti_spoof: w[1] & 32 != 0,
                        alert: w[1] & 64 != 0,
                        subframe,
                    },
                ),
            }
        }
    }
}

proof fn lemma_nav_word_bound(x: u32)
    by (bit_vector)
    ensures
        (x >> 6) & 0xffffff < 0x1000000,
        ((x >> 6) & 0xffffff) >> 2 & 0x3fff < 0x4000,
{
}

impl UbxRxmSfrbxDataGps {
    pub fn try_from(bytes: &[u8]) -> (r: Result<UbxRxmSfrbxDataGps, UbxError>)
        ensures
            r == decode_gps_data(bytes@),
    {
        if bytes.len() != 40 {
            return Err(UbxError::Payload);
        }
        let mut words: Vec<u32> = Vec::with_capacity(10);
        let mut k: usize = 0;
        while k < 10
            invariant
                bytes@.len() == 40,
                0 <= k <= 10,
                words@ =~= nav_words(bytes@).take(k as int),
            decreases 10 - k,
        {
            let word_32 = bytes[4 * k] as u32 + 256 * (bytes[4 * k + 1] as u32) + 65536 * (
            bytes[4 * k + 2] as u32) + 16777216 * (bytes[4 * k + 3] as u32);
            words.push((word_32 >> 6) & 0x00ffffff);
            k += 1;
        }
        assert(words@ =~= nav_words(bytes@));
        proof {
            assert forall|i: int| 0 <= i < 10 implies #[trigger] words@[i] < 0x1000000 by {
                lemma_nav_word_bound(le32(bytes@, 4 * i) as u32);
            }
            lemma_nav_word_bound(le32(bytes@, 0) as u32);
        }
        if words[0] >> 16 != TLM_PREAMBLE {
            return Err(UbxError::Preamble);
        }
        let tlm_message = ((words[0] >> 2) & 0x3fff) as u16;
        let integrity_bit = (words[0] >> 1) & 1 == 1;
        let tow = words[1] >> 7;
        let rest = vstd::slice::slice_subrange(words.as_slice(), 2, 10);
        assert(data_words(rest@));
        let subframe = match (words[1] >> 2) & 7 {
            1 => decode_subframe1(rest),
            2 => decode_subframe2(rest),
            3 => decode_subframe3(rest),
            4 => GpsSubframe::Subframe4,
            5 => GpsSubframe::Subframe5,
            _ => {
                return Err(UbxError::SubframeId);
            },
        };
        let anti_spoof = (words[1] & 32) != 0;
        let alert = (words[1] & 64) != 0;
        Ok(UbxRxmSfrbxDataGps { tlm_message, integrity_bit, tow, anti_spoof, alert, subframe })
    }
}

/// The subframe ID that the handover word carries.
pub open spec fn subframe_id(s: GpsSubframe) -> u32 {
    match s {
        GpsSubframe::Subframe1 { .. } => 1,
        GpsSubframe::Subframe2 { .. } => 2,
        GpsSubframe::Subframe3 { .. } => 3,
        GpsSubframe::Subframe4 => 4,
        GpsSubframe::Subframe5 => 5,
    }
}

/// The bits of a signed value that `mask` keeps: its two's-complement field.
pub open spec fn field(v: i32, mask: u32) -> u32 {
    (v as u32) & mask
}

/// Data words 3 to 10 of a subframe; reserved bits, and the words of subframes 4 and 5,
/// are zero.
pub open spec fn subframe_words(s: GpsSubframe) -> Seq<u32> {
    match s {
        GpsSubframe::Subframe1 { week_number, ura_index, sv_health, tgd, iodc, toc, af2, af1, af0 } =>
            seq![
            ((week_number as u32) << 14) | ((ura_index as u32) << 8) | ((sv_health as u32) << 2) | (
            (iodc as u32) >> 8),
            0u32,
            0u32,
            0u32,
            field(tgd, 0xff),
            (((iodc as u32) & 0xff) << 16) | (toc / 16),
            (field(af2, 0xff) << 16) | field(af1, 0xffff),
            field(af0, 0x3fffff) << 2,
        ],
        GpsSubframe::Subframe2 { aodo, iode, c_rs, delta_n, m0, c_uc, e, sqrt_a, c_us, t_oe } =>
            seq![
            ((iode as u32) << 16) | field(c_rs, 0xffff),
            (field(delta_n, 0xffff) << 8) | ((m0 as u32) >> 24),
            field(m0, 0xffffff),
            (field(c_uc, 0xffff) << 8) | (e >> 24),
            e & 0xffffff,
            (field(c_us, 0xffff) << 8) | (sqrt_a >> 24),
            sqrt_a & 0xffffff,
            ((t_oe / 16) << 8) | (((aodo / 900) as u32) << 2),
        ],
        GpsSubframe::Subframe3 {
            iode,
            c_ic,
            omega0,
            c_is,
            i0,
            c_rc,
            omega_small,
            omega_dot,
            i_dot,
        } => seq![
            (field(c_ic, 0xffff) << 8) | ((omega0 as u32) >> 24),
            field(omega0, 0xffffff),
            (field(c_is, 0xffff) << 8) | ((i0 as u32) >> 24),
            field(i0, 0xffffff),
            (field(c_rc, 0xffff) << 8) | ((omega_small as u32) >> 24),
            field(omega_small, 0xffffff),
            field(omega_dot, 0xffffff),
            ((iode as u32) << 16) | (field(i_dot, 0x3fff) << 2),
        ],
        _ => Seq::new(8, |i: int| 0u32),
    }
}

/// The telemetry word: preamble, message, integrity bit.
pub open spec fn tlm_word(d: UbxRxmSfrbxDataGps) -> u32 {
    (TLM_PREAMBLE << 16) | ((d.tlm_message as u32) << 2) | (if d.integrity_bit {
        2u32
    } else {
        0u32
    })
}

/// The handover word: time of week, alert and anti-spoof flags, subframe ID.
pub open spec fn how_word(d: UbxRxmSfrbxDataGps) -> u32 {
    (d.tow << 7) | (if d.alert {
        64u32
    } else {
        0u32
    }) | (if d.anti_spoof {
        32u32
    } else {
        0u32
    }) | (subframe_id(d.subframe) << 2)
}

/// The ten data words of a subframe.
pub open spec fn gps_words(d: UbxRxmSfrbxDataGps) -> Seq<u32> {
    seq![tlm_word(d), how_word(d)] + subframe_words(d.subframe)
}

/// A data word on the wire: shifted above the six parity bits, little-endian.
pub open spec fn word_bytes(w: u32) -> Seq<u8> {
    let x = w << 6;
    seq![(x % 256) as u8, ((x / 256) % 256) as u8, ((x / 65536) % 256) as u8, ((x / 16777216) % 256) as u8]
}

/// The bytes of a sequence of words, one after the other.
pub open spec fn words_bytes(ws: Seq<u32>) -> Seq<u8>
    decreases ws.len(),
{
    if ws.len() == 0 {
        Seq::empty()
    } else {
        words_bytes(ws.drop_last()) + word_bytes(ws.last())
    }
}

/// The 40-byte GPS payload of a subframe; parity bits are zero.
pub open spec fn encode_gps_data(d: UbxRxmSfrbxDataGps) -> Seq<u8> {
    words_bytes(gps_words(d))
}

fn subframe_words_of(s: &GpsSubframe) -> (r: Vec<u32>)
    ensures
        r@ == subframe_words(*s),
{
    let r = match *s {
        GpsSubframe::Subframe1 { week_number, ura_index, sv_health, tgd, iodc, toc, af2, af1, af0 } =>
            vec![
            ((week_number as u32) << 14) | ((ura_index as u32) << 8) | ((sv_health as u32) << 2) | (
            (iodc as u32) >> 8),
            0,
            0,
            0,
            (tgd as u32) & 0xff,
            (((iodc as u32) & 0xff) << 16) | (toc / 16),
            (((af2 as u32) & 0xff) << 16) | ((af1 as u32) & 0xffff),
            ((af0 as u32) & 0x3fffff) << 2,
        ],
        GpsSubframe::Subframe2 { aodo, iode, c_rs, delta_n, m0, c_uc, e, sqrt_a, c_us, t_oe } =>
            vec![
            ((iode as u32) << 16) | ((c_rs as u32) & 0xffff),
            (((delta_n as u32) & 0xffff) << 8) | ((m0 as u32) >> 24),
            (m0 as u32) & 0xffffff,
            (((c_uc as u32) & 0xffff) << 8) | (e >> 24),
            e & 0xffffff,
            (((c_us as u32) & 0xffff) << 8) | (sqrt_a >> 24),
            sqrt_a & 0xffffff,
            ((t_oe / 16) << 8) | (((aodo / 900) as u32) << 2),
        ],
        GpsSubframe::Subframe3 {
            iode,
            c_ic,
            omega0,
            c_is,
            i0,
            c_rc,
            omega_small,
            omega_dot,
            i_dot,
        } => vec![
            (((c_ic as u32) & 0xffff) << 8) | ((omega0 as u32) >> 24),
            (omega0 as u32) & 0xffffff,
            (((c_is as u32) & 0xffff) << 8) | ((i0 as u32) >> 24),
            (i0 as u32) & 0xffffff,
            (((c_rc as u32) & 0xffff) << 8) | ((omega_small as u32) >> 24),
            (omega_small as u32) & 0xffffff,
            (omega_dot as u32) & 0xffffff,
            ((iode as u32) << 16) | (((i_dot as u32) & 0x3fff) << 2),
        ],
        _ => vec![0, 0, 0, 0, 0, 0, 0, 0],
    };
    assert(r@ =~= subframe_words(*s));
    r
}

impl UbxRxmSfrbxDataGps {
    /// The 40-byte payload; parity bits are zero.
    pub fn to_bytes(&self) -> (r: Vec<u8>)
        ensures
            r@ == encode_gps_data(*self),
    {
        let id: u32 = match self.subframe {
            GpsSubframe::Subframe1 { .. } => 1,
            GpsSubframe::Subframe2 { .. } => 2,
            GpsSubframe::Subframe3 { .. } => 3,
            GpsSubframe::Subframe4 => 4,
            GpsSubframe::Subframe5 => 5,
        };
        let tlm = (TLM_PREAMBLE << 16) | ((self.tlm_message as u32) << 2) | (if self.integrity_bit {
            2
        } else {
            0
        });
        let how = (self.tow << 7) | (if self.alert {
            64
        } else {
            0
        }) | (if self.anti_spoof {
            32
        } else {
            0
        }) | (id << 2);
        let rest = subframe_words_of(&self.subframe);
        let mut words: Vec<u32> = vec![tlm, how];
        let mut j: usize = 0;
        while j < 8
            invariant
                rest@.len() == 8,
                0 <= j <= 8,
                words@ =~= seq![tlm, how] + rest@.take(j as int),
            decreases 8 - j,
        {
            words.push(rest[j]);
            j += 1;
        }
        assert(words@ =~= gps_words(*self));
        let mut result: Vec<u8> = Vec::with_capacity(40);
        let mut k: usize = 0;
        while k < 10
            invariant
                words@.len() == 10,
                0 <= k <= 10,
                result@ == words_bytes(words@.take(k as int)),
            decreases 10 - k,
        {
            let x = words[k] << 6;
            result.push((x % 256) as u8);
            result.push(((x / 256) % 256) as u8);
            result.push(((x / 65536) % 256) as u8);
            result.push(((x / 16777216) % 256) as u8);
            assert(words@.take(k + 1).drop_last() =~= words@.take(k as int));
            assert(result@ =~= words_bytes(words@.take(k + 1)));
            k += 1;
        }
        assert(words@.take(10) =~= words@);
        result
    }
}

/// Words take four bytes each.
pub proof fn lemma_words_bytes_len(ws: Seq<u32>)
    ensures
        words_bytes(ws).len() == 4 * ws.len(),
    decreases ws.len(),
{
    if ws.len() > 0 {
        lemma_words_bytes_len(ws.drop_last());
    }
}

/// The GPS payload is 40 bytes.
pub proof fn lemma_gps_data_len(d: UbxRxmSfrbxDataGps)
    ensures
        encode_gps_data(d).len() == 40,
{
    lemma_words_bytes_len(gps_words(d));
}

/// `v` fits in `bits` bits, two's complement.
pub open spec fn fits(v: i32, bits: nat) -> bool {
    -(pow2((bits - 1) as nat) as int) <= v < pow2((bits - 1) as nat)
}

/// Every field of a subframe fits its place in the words: the unsigned fields their
/// widths, the signed fields theirs, and the times the multiples that the words hold.
pub open spec fn subframe_valid(s: GpsSubframe) -> bool {
    match s {
        GpsSubframe::Subframe1 { week_number, ura_index, sv_health, tgd, iodc, toc, af2, af1, af0 } => {
            &&& week_number < 1024
            &&& ura_index < 16
            &&& sv_health < 64
            &&& iodc < 1024
            &&& fits(tgd, 8)
            &&& toc % 16 == 0
            &&& toc / 16 < 65536
            &&& fits(af2, 8)
            &&& fits(af1, 16)
            &&& fits(af0, 22)
        },
        GpsSubframe::Subframe2 { aodo, iode, c_rs, delta_n, m0, c_uc, e, sqrt_a, c_us, t_oe } => {
            &&& aodo % 900 == 0
            &&& aodo / 900 < 32
            &&& fits(c_rs, 16)
            &&& fits(delta_n, 16)
            &&& fits(c_uc, 16)
            &&& fits(c_us, 16)
            &&& t_oe % 16 == 0
            &&& t_oe / 16 < 65536
        },
        GpsSubframe::Subframe3 { c_ic, c_is, c_rc, omega_dot, i_dot, .. } => {
            &&& fits(c_ic, 16)
            &&& fits(c_is, 16)
            &&& fits(c_rc, 16)
            &&& fits(omega_dot, 24)
            &&& fits(i_dot, 14)
        },
        _ => true,
    }
}

/// The telemetry message and the time of week fit their widths, and the subframe is valid.
pub open spec fn gps_data_valid(d: UbxRxmSfrbxDataGps) -> bool {
    &&& d.tlm_message < 0x4000
    &&& d.tow < 0x20000
    &&& subframe_valid(d.subframe)
}

proof fn lemma_signed_field(v: i32, n: nat, mask: u32)
    requires
        1 <= n <= 32,
        mask as int == pow2(n) - 1,
        fits(v, n),
        v >= 0 ==> field(v, mask) == v as u32,
        v < 0 ==> field(v, mask) as int == v + pow2(n),
    ensures
        sx(field(v, mask), n) == v,
        field(v, mask) < pow2(n),
{
    lemma2_to64();
    lemma_pow2_unfold(n);
    if n < 32 {
        vstd::arithmetic::power2::lemma_pow2_strictly_increases((n - 1) as nat, 31);
    }
}

proof fn bv_field8(v: i32)
    by (bit_vector)
    requires
        -128 <= v < 128,
    ensures
        v >= 0 ==> (v as u32) & 0xff == v as u32,
        v < 0 ==> ((v as u32) & 0xff) as int == v as int + 0x100,
{
}

proof fn bv_field14(v: i32)
    by (bit_vector)
    requires
        -0x2000 <= v < 0x2000,
    ensures
        v >= 0 ==> (v as u32) & 0x3fff == v as u32,
        v < 0 ==> ((v as u32) & 0x3fff) as int == v as int + 0x4000,
{
}

proof fn bv_field16(v: i32)
    by (bit_vector)
    requires
        -0x8000 <= v < 0x8000,
    ensures
        v >= 0 ==> (v as u32) & 0xffff == v as u32,
        v < 0 ==> ((v as u32) & 0xffff) as int == v as int + 0x10000,
{
}

proof fn bv_field22(v: i32)
    by (bit_vector)
    requires
        -0x200000 <= v < 0x200000,
    ensures
        v >= 0 ==> (v as u32) & 0x3fffff == v as u32,
        v < 0 ==> ((v as u32) & 0x3fffff) as int == v as int + 0x400000,
{
}

proof fn bv_field24(v: i32)
    by (bit_vector)
    requires
        -0x800000 <= v < 0x800000,
    ensures
        v >= 0 ==> (v as u32) & 0xffffff == v as u32,
        v < 0 ==> ((v as u32) & 0xffffff) as int == v as int + 0x1000000,
{
}

proof fn bv_field32(v: i32)
    by (bit_vector)
    ensures
        v >= 0 ==> (v as u32) & 0xffffffff == v as u32,
        v < 0 ==> ((v as u32) & 0xffffffff) as int == v as int + 0x100000000,
{
}

proof fn lemma_field8(v: i32)
    requires
        fits(v, 8),
    ensures
        sx(field(v, 0xff), 8) == v,
        field(v, 0xff) < 0x100,
{
    lemma2_to64();
    bv_field8(v);
    lemma_signed_field(v, 8, 0xff);
}

proof fn lemma_field14(v: i32)
    requires
        fits(v, 14),
    ensures
        sx(field(v, 0x3fff), 14) == v,
        field(v, 0x3fff) < 0x4000,
{
    lemma2_to64();
    bv_field14(v);
    lemma_signed_field(v, 14, 0x3fff);
}

proof fn lemma_field16(v: i32)
    requires
        fits(v, 16),
    ensures
        sx(field(v, 0xffff), 16) == v,
        field(v, 0xffff) < 0x10000,
{
    lemma2_to64();
    bv_field16(v);
    lemma_signed_field(v, 16, 0xffff);
}

proof fn lemma_field22(v: i32)
    requires
        fits(v, 22),
    ensures
        sx(field(v, 0x3fffff), 22) == v,
        field(v, 0x3fffff) < 0x400000,
{
    lemma2_to64();
    bv_field22(v);
    lemma_signed_field(v, 22, 0x3fffff);
}

proof fn lemma_field24(v: i32)
    requires
        fits(v, 24),
    ensures
        sx(field(v, 0xffffff), 24) == v,
        field(v, 0xffffff) < 0x1000000,
{
    lemma2_to64();
    bv_field24(v);
    lemma_signed_field(v, 24, 0xffffff);
}

proof fn lemma_field32(v: i32)
    ensures
        sx(v as u32, 32) == v,
{
    lemma2_to64();
    lemma2_to64_rest();
    bv_field32(v);
    assert(field(v, 0xffffffff) == v as u32) by (bit_vector);
    lemma_signed_field(v, 32, 0xffffffff);
}

/// A 16-bit field above the top byte of a 32-bit value, and the low 24 bits of that
/// value in the next word.
proof fn bv_split32(a: u32, x: u32)
    by (bit_vector)
    requires
        a < 0x10000,
    ensures
        ((a << 8) | (x >> 24)) >> 8 == a,
        ((a << 8) | (x >> 24)) < 0x1000000,
        x & 0xffffff < 0x1000000,
        ((((a << 8) | (x >> 24)) & 255) << 24) | (x & 0xffffff) == x,
{
}

/// An 8-bit field above a 16-bit field.
proof fn bv_8_16(a: u32, c: u32)
    by (bit_vector)
    requires
        a < 0x100,
        c < 0x10000,
    ensures
        ((a << 16) | c) >> 16 == a,
        ((a << 16) | c) & 65535 == c,
        ((a << 16) | c) < 0x1000000,
{
}

/// The first data word of subframe 1 and the issue of data split over two words.
proof fn bv_subframe1(week: u32, ura: u32, health: u32, iodc: u32, t: u32)
    by (bit_vector)
    requires
        week < 1024,
        ura < 16,
        health < 64,
        iodc < 1024,
        t < 0x10000,
    ensures
        ((week << 14) | (ura << 8) | (health << 2) | (iodc >> 8)) >> 14 == week,
        (((week << 14) | (ura << 8) | (health << 2) | (iodc >> 8)) >> 8) & 15 == ura,
        (((week << 14) | (ura << 8) | (health << 2) | (iodc >> 8)) >> 2) & 63 == health,
        ((week << 14) | (ura << 8) | (health << 2) | (iodc >> 8)) < 0x1000000,
        (((iodc & 0xff) << 16) | t) < 0x1000000,
        (((iodc & 0xff) << 16) | t) & 65535 == t,
        (((((week << 14) | (ura << 8) | (health << 2) | (iodc >> 8)) & 3) << 8) | ((((iodc & 0xff)
            << 16) | t) >> 16)) == iodc,
{
}

/// A 22-bit field above two spare bits.
proof fn bv_22_2(a: u32)
    by (bit_vector)
    requires
        a < 0x400000,
    ensures
        (a << 2) >> 2 == a,
        (a << 2) < 0x1000000,
{
}

/// A 16-bit field, the fit-interval flag, a 5-bit field and two spare bits (the last
/// word of subframe 2).
proof fn bv_16_5(t: u32, k: u32)
    by (bit_vector)
    requires
        t < 0x10000,
        k < 32,
    ensures
        ((t << 8) | (k << 2)) >> 8 == t,
        (((t << 8) | (k << 2)) >> 2) & 31 == k,
        ((t << 8) | (k << 2)) < 0x1000000,
{
}

/// An 8-bit field above a 14-bit field above two spare bits (the last word of subframe 3).
proof fn bv_8_14(a: u32, b: u32)
    by (bit_vector)
    requires
        a < 0x100,
        b < 0x4000,
    ensures
        ((a << 16) | (b << 2)) >> 16 == a,
        (((a << 16) | (b << 2)) >> 2) & 16383 == b,
        ((a << 16) | (b << 2)) < 0x1000000,
{
}

/// The telemetry word.
proof fn bv_tlm(m: u32, i: u32)
    by (bit_vector)
    requires
        m < 0x4000,
        i == 0 || i == 2,
    ensures
        ((0x8bu32 << 16) | (m << 2) | i) >> 16 == 0x8b,
        (((0x8bu32 << 16) | (m << 2) | i) >> 2) & 0x3fff == m,
        ((((0x8bu32 << 16) | (m << 2) | i) >> 1) & 1 == 1) == (i == 2),
        ((0x8bu32 << 16) | (m << 2) | i) < 0x1000000,
{
}

/// The handover word.
proof fn bv_how(tow: u32, al: u32, asp: u32, id: u32)
    by (bit_vector)
    requires
        tow < 0x20000,
        al == 0 || al == 64,
        asp == 0 || asp == 32,
        id < 8,
    ensures
        ((tow << 7) | al | asp | (id << 2)) >> 7 == tow,
        (((tow << 7) | al | asp | (id << 2)) >> 2) & 7 == id,
        (((tow << 7) | al | asp | (id << 2)) & 32 != 0) == (asp == 32),
        (((tow << 7) | al | asp | (id << 2)) & 64 != 0) == (al == 64),
        ((tow << 7) | al | asp | (id << 2)) < 0x1000000,
{
}

proof fn bv_word_bytes(w: u32)
    by (bit_vector)
    requires
        w < 0x1000000,
    ensures
        ((((w << 6) % 256) as u8) as u32 + 256 * ((((w << 6) / 256) % 256) as u8 as u32) + 65536 * (
        (((w << 6) / 65536) % 256) as u8 as u32) + 16777216 * ((((w << 6) / 16777216) % 256) as u8
            as u32)) == w << 6,
        ((w << 6) >> 6) & 0xffffff == w,
{
}

proof fn lemma_words_bytes_slices(ws: Seq<u32>)
    ensures
        words_bytes(ws).len() == 4 * ws.len(),
        forall|k: int|
            0 <= k < ws.len() ==> words_bytes(ws).subrange(4 * k, 4 * k + 4) == word_bytes(
                #[trigger] ws[k],
            ),
    decreases ws.len(),
{
    if ws.len() > 0 {
        let init = ws.drop_last();
        lemma_words_bytes_slices(init);
        let all = words_bytes(ws);
        assert forall|k: int| 0 <= k < ws.len() implies all.subrange(4 * k, 4 * k + 4) == word_bytes(
            #[trigger] ws[k],
        ) by {
            if k < ws.len() - 1 {
                assert(init[k] == ws[k]);
                assert(all.subrange(4 * k, 4 * k + 4) =~= words_bytes(init).subrange(4 * k, 4 * k + 4));
            } else {
                assert(all.subrange(4 * k, 4 * k + 4) =~= word_bytes(ws.last()));
            }
        }
    }
}

/// Data words written to bytes read back as the same words.
proof fn lemma_nav_words_round_trip(ws: Seq<u32>)
    requires
        ws.len() == 10,
        data_words(ws),
    ensures
        nav_words(words_bytes(ws)) == ws,
{
    let b = words_bytes(ws);
    lemma_words_bytes_slices(ws);
    assert forall|k: int| 0 <= k < 10 implies #[trigger] nav_word(b, k) == ws[k] by {
        let wb = word_bytes(ws[k]);
        assert(b.subrange(4 * k, 4 * k + 4) == wb);
        assert(b[4 * k] == wb[0] && b[4 * k + 1] == wb[1] && b[4 * k + 2] == wb[2] && b[4 * k + 3] == wb[3]);
        bv_word_bytes(ws[k]);
    }
    assert(nav_words(b) =~= ws);
}

/// The words of a valid subframe are data words and read back as the subframe.
proof fn lemma_subframe_round_trip(s: GpsSubframe)
    requires
        subframe_valid(s),
    ensures
        data_words(subframe_words(s)),
        spec_subframe(subframe_id(s), subframe_words(s)) == Some(s),
{
    let w = subframe_words(s);
    match s {
        GpsSubframe::Subframe1 { week_number, ura_index, sv_health, tgd, iodc, toc, af2, af1, af0 } => {
            lemma_field8(tgd);
            lemma_field8(af2);
            lemma_field16(af1);
            lemma_field22(af0);
            bv_subframe1(week_number as u32, ura_index as u32, sv_health as u32, iodc as u32, toc / 16);
            bv_8_16(field(af2, 0xff), field(af1, 0xffff));
            bv_22_2(field(af0, 0x3fffff));
            assert(field(tgd, 0xff) & 255 == field(tgd, 0xff)) by (bit_vector)
                requires
                    field(tgd, 0xff) < 0x100,
            ;
            assert(spec_subframe1(w) =~= s);
        },
        GpsSubframe::Subframe2 { aodo, iode, c_rs, delta_n, m0, c_uc, e, sqrt_a, c_us, t_oe } => {
            lemma_field16(c_rs);
            lemma_field16(delta_n);
            lemma_field16(c_uc);
            lemma_field16(c_us);
            lemma_field32(m0);
            bv_8_16(iode as u32, field(c_rs, 0xffff));
            bv_split32(field(delta_n, 0xffff), m0 as u32);
            bv_split32(field(c_uc, 0xffff), e);
            bv_split32(field(c_us, 0xffff), sqrt_a);
            bv_16_5(t_oe / 16, (aodo / 900) as u32);
            assert(field(m0, 0xffffff) == (m0 as u32) & 0xffffff);
            assert(spec_subframe2(w) =~= s);
        },
        GpsSubframe::Subframe3 { iode, c_ic, omega0, c_is, i0, c_rc, omega_small, omega_dot, i_dot } => {
            lemma_field16(c_ic);
            lemma_field16(c_is);
            lemma_field16(c_rc);
            lemma_field24(omega_dot);
            lemma_field14(i_dot);
            lemma_field32(omega0);
            lemma_field32(i0);
            lemma_field32(omega_small);
            bv_split32(field(c_ic, 0xffff), omega0 as u32);
            bv_split32(field(c_is, 0xffff), i0 as u32);
            bv_split32(field(c_rc, 0xffff), omega_small as u32);
            bv_8_14(iode as u32, field(i_dot, 0x3fff));
            assert(spec_subframe3(w) =~= s);
        },
        _ => {},
    }
}

/// A valid GPS subframe, encoded and read back, is the same subframe.
pub proof fn lemma_gps_data_round_trip(d: UbxRxmSfrbxDataGps)
    requires
        gps_data_valid(d),
    ensures
        decode_gps_data(encode_gps_data(d)) == Ok::<UbxRxmSfrbxDataGps, UbxError>(d),
{
    let ws = gps_words(d);
    let i: u32 = if d.integrity_bit {
        2
    } else {
        0
    };
    let al: u32 = if d.alert {
        64
    } else {
        0
    };
    let asp: u32 = if d.anti_spoof {
        32
    } else {
        0
    };
    bv_tlm(d.tlm_message as u32, i);
    bv_how(d.tow, al, asp, subframe_id(d.subframe));
    lemma_subframe_round_trip(d.subframe);
    assert(ws[0] == tlm_word(d));
    assert(ws[1] == how_word(d));
    assert forall|k: int| 0 <= k < 10 implies #[trigger] ws[k] < 0x1000000 by {
        if k >= 2 {
            assert(ws[k] == subframe_words(d.subframe)[k - 2]);
        }
    }
    lemma_nav_words_round_trip(ws);
    lemma_gps_data_len(d);
    assert(ws.subrange(2, 10) =~= subframe_words(d.subframe));
}

} // verus!
