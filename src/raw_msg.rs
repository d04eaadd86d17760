use vstd::prelude::*;

use crate::error::UbxError;

verus! {

/// First sync byte of every UBX frame.
pub const SYNC_1: u8 = 0xb5;

/// Second sync byte of every UBX frame.
pub const SYNC_2: u8 = 0x62;

/// Largest payload that the two-byte length field can announce.
pub const MAX_PAYLOAD: usize = 65535;

/// Low byte of a 16-bit value, little-endian order.
pub open spec fn lo_byte(n: nat) -> u8 {
    (n % 256) as u8
}

/// High byte of a 16-bit value, little-endian order.
pub open spec fn hi_byte(n: nat) -> u8 {
    ((n / 256) % 256) as u8
}

/// The 16-bit value that two little-endian bytes hold.
pub open spec fn le16(lo: u8, hi: u8) -> nat {
    lo as nat + 256 * (hi as nat)
}

/// One step of the two running sums: `A += byte`, then `B += A`, both modulo 256.
pub open spec fn fletcher_push(ck: (u8, u8), byte: u8) -> (u8, u8) {
    let a = ck.0.wrapping_add(byte);
    (a, ck.1.wrapping_add(a))
}

/// The 8-bit Fletcher checksum `(A, B)` of a byte sequence, both sums starting at 0.
pub open spec fn fletcher(bytes: Seq<u8>) -> (u8, u8)
    decreases bytes.len(),
{
    if bytes.len() == 0 {
        (0u8, 0u8)
    } else {
        fletcher_push(fletcher(bytes.drop_last()), bytes.last())
    }
}

/// The bytes that the checksum covers: class, id, the payload length (little-endian)
/// and the payload.
pub open spec fn envelope(class: u8, id: u8, payload: Seq<u8>) -> Seq<u8> {
    seq![class, id, lo_byte(payload.len()), hi_byte(payload.len())] + payload
}

/// The complete on-wire form of a frame: sync bytes, envelope, checksum.
pub open spec fn frame_bytes(class: u8, id: u8, payload: Seq<u8>) -> Seq<u8> {
    let ck = fletcher(envelope(class, id, payload));
    seq![SYNC_1, SYNC_2] + envelope(class, id, payload) + seq![ck.0, ck.1]
}

/// What a raw frame means: its class, id and payload. The checksum follows from them.
pub struct RawMsgView {
    pub class: u8,
    pub id: u8,
    pub payload: Seq<u8>,
}

/// The result of reading one frame from the start of `bytes`.
pub open spec fn decode_raw(bytes: Seq<u8>) -> Result<RawMsgView, UbxError> {
    if bytes.len() < 8 {
        Err(UbxError::Truncated)
    } else if bytes[0] != SYNC_1 || bytes[1] != SYNC_2 {
        Err(UbxError::Header)
    } else if bytes.len() < 8 + le16(bytes[4], bytes[5]) {
        Err(UbxError::Truncated)
    } else {
        Ok(
            RawMsgView {
                class: bytes[2],
                id: bytes[3],
                payload: bytes.subrange(6, 6 + le16(bytes[4], bytes[5]) as int),
            },
        )
    }
}

/// A UBX frame: class, id, payload, and the checksum over them, which is always
/// consistent with the other fields.
#[derive(Debug, PartialEq, Eq)]
pub struct UbloxRawMsg {
    class: u8,
    id: u8,
    payload: Vec<u8>,
    checksum: [u8; 2],
}

impl View for UbloxRawMsg {
    type V = RawMsgView;

    closed spec fn view(&self) -> RawMsgView {
        RawMsgView { class: self.class, id: self.id, payload: self.payload@ }
    }
}

impl Clone for UbloxRawMsg {
    fn clone(&self) -> (r: Self)
        ensures
            r@ == self@,
    {
        proof {
            use_type_invariant(self);
        }
        let payload = self.payload.clone();
        assert(payload@ =~= self.payload@);
        UbloxRawMsg { class: self.class, id: self.id, payload, checksum: self.checksum }
    }
}

fn consume_byte(ck_a: &mut u8, ck_b: &mut u8, byte: u8)
    ensures
        (*final(ck_a), *final(ck_b)) == fletcher_push((*old(ck_a), *old(ck_b)), byte),
{
    *ck_a = ck_a.wrapping_add(byte);
    *ck_b = ck_b.wrapping_add(*ck_a);
}

proof fn lemma_fletcher_prefix(s: Seq<u8>, i: int)
    requires
        0 <= i < s.len(),
    ensures
        fletcher(s.subrange(0, i + 1)) == fletcher_push(fletcher(s.subrange(0, i)), s[i]),
{
    assert(s.subrange(0, i + 1).drop_last() =~= s.subrange(0, i));
}

impl UbloxRawMsg {
    #[verifier::type_invariant]
    spec fn inv(&self) -> bool {
        &&& self.payload@.len() <= MAX_PAYLOAD
        &&& self.checksum@ == seq![
            fletcher(envelope(self.class, self.id, self.payload@)).0,
            fletcher(envelope(self.class, self.id, self.payload@)).1,
        ]
    }

    /// Builds a frame and computes its checksum.
    pub fn new(class: u8, id: u8, payload: Vec<u8>) -> (r: Self)
        requires
            payload@.len() <= MAX_PAYLOAD,
        ensures
            r@ == (RawMsgView { class, id, payload: payload@ }),
    {
        let checksum = Self::calc_checksum(class, id, &payload);
        UbloxRawMsg { class, id, payload, checksum }
    }

    pub fn class(&self) -> (r: u8)
        ensures
            r == self@.class,
    {
        self.class
    }

    pub fn id(&self) -> (r: u8)
        ensures
            r == self@.id,
    {
        self.id
    }

    pub fn take_payload(self) -> (r: Vec<u8>)
        ensures
            r@ == self@.payload,
            r@.len() <= MAX_PAYLOAD,
    {
        proof {
            use_type_invariant(&self);
        }
        self.payload
    }

    /// The stored checksum `[A, B]`.
    pub fn checksum(&self) -> (r: [u8; 2])
        ensures
            r@ == seq![
                fletcher(envelope(self@.class, self@.id, self@.payload)).0,
                fletcher(envelope(self@.class, self@.id, self@.payload)).1,
            ],
    {
        proof {
            use_type_invariant(self);
        }
        self.checksum
    }

    /// The Fletcher checksum over class, id, the little-endian payload length and the payload.
    pub fn calc_checksum(class: u8, id: u8, payload: &Vec<u8>) -> (r: [u8; 2])
        requires
            payload@.len() <= MAX_PAYLOAD,
        ensures
            r@ == seq![
                fletcher(envelope(class, id, payload@)).0,
                fletcher(envelope(class, id, payload@)).1,
            ],
    {
        let ghost env = envelope(class, id, payload@);
        let mut ck_a: u8 = 0;
        let mut ck_b: u8 = 0;
        let len = payload.len();
        let l0 = (len % 256) as u8;
        let l1 = (len / 256) as u8;
        proof {
            lemma_fletcher_prefix(env, 0);
            lemma_fletcher_prefix(env, 1);
            lemma_fletcher_prefix(env, 2);
            lemma_fletcher_prefix(env, 3);
            assert(env.subrange(0, 0) =~= Seq::<u8>::empty());
        }
        consume_byte(&mut ck_a, &mut ck_b, class);
        consume_byte(&mut ck_a, &mut ck_b, id);
        consume_byte(&mut ck_a, &mut ck_b, l0);
        consume_byte(&mut ck_a, &mut ck_b, l1);
        let mut i: usize = 0;
        while i < len
            invariant
                len == payload@.len(),
                env == envelope(class, id, payload@),
                0 <= i <= len,
                (ck_a, ck_b) == fletcher(env.subrange(0, 4 + i as int)),
            decreases len - i,
        {
            proof {
                lemma_fletcher_prefix(env, 4 + i as int);
            }
            consume_byte(&mut ck_a, &mut ck_b, payload[i]);
            i += 1;
        }
        assert(env.subrange(0, 4 + len as int) =~= env);
        [ck_a, ck_b]
    }

    /// Reads one frame from the start of `bytes`; bytes after the frame are ignored.
    pub fn try_from(bytes: &[u8]) -> (r: Result<Self, UbxError>)
        ensures
            match (r, decode_raw(bytes@)) {
                (Ok(m), Ok(v)) => m@ == v,
                (Err(e), Err(f)) => e == f,
                _ => false,
            },
    {
        if bytes.len() < 8 {
            return Err(UbxError::Truncated);
        }
        if bytes[0] != SYNC_1 || bytes[1] != SYNC_2 {
            return Err(UbxError::Header);
        }
        let class = bytes[2];
        let id = bytes[3];
        let length = bytes[4] as usize + 256 * (bytes[5] as usize);
        if bytes.len() < 8 + length {
            return Err(UbxError::Truncated);
        }
        let mut payload: Vec<u8> = Vec::with_capacity(length);
        let mut i: usize = 0;
        while i < length
            invariant
                length == le16(bytes@[4], bytes@[5]),
                8 + length <= bytes@.len(),
                0 <= i <= length,
                payload@ =~= bytes@.subrange(6, 6 + i as int),
            decreases length - i,
        {
            payload.push(bytes[6 + i]);
            i += 1;
        }
        Ok(Self::new(class, id, payload))
    }

    /// The on-wire bytes of the frame.
    pub fn to_bytes(&self) -> (r: Vec<u8>)
        ensures
            r@ == frame_bytes(self@.class, self@.id, self@.payload),
    {
        proof {
            use_type_invariant(self);
        }
        let len = self.payload.len();
        let mut result: Vec<u8> = vec![SYNC_1, SYNC_2, self.class, self.id, (len % 256) as u8, (len / 256) as u8];
        let mut i: usize = 0;
        while i < len
            invariant
                len == self.payload@.len(),
                len <= MAX_PAYLOAD,
                0 <= i <= len,
                result@ =~= seq![SYNC_1, SYNC_2, self.class, self.id, lo_byte(len as nat), hi_byte(len as nat)]
                    + self.payload@.subrange(0, i as int),
            decreases len - i,
        {
            result.push(self.payload[i]);
            i += 1;
        }
        result.push(self.checksum[0]);
        result.push(self.checksum[1]);
        assert(result@ =~= frame_bytes(self@.class, self@.id, self@.payload));
        result
    }
}

/// Encoding a frame and reading it back gives the same class, id and payload.
pub proof fn lemma_raw_round_trip(class: u8, id: u8, payload: Seq<u8>)
    requires
        payload.len() <= MAX_PAYLOAD,
    ensures
        decode_raw(frame_bytes(class, id, payload)) == Ok::<RawMsgView, UbxError>(
            RawMsgView { class, id, payload },
        ),
{
    let f = frame_bytes(class, id, payload);
    assert(le16(f[4], f[5]) == payload.len());
    assert(f.subrange(6, 6 + payload.len() as int) =~= payload);
}

/// The last two bytes of an encoded frame are the Fletcher checksum of the bytes between
/// the sync bytes and the checksum.
pub proof fn lemma_checksum_recomputes(class: u8, id: u8, payload: Seq<u8>)
    requires
        payload.len() <= MAX_PAYLOAD,
    ensures
        ({
            let f = frame_bytes(class, id, payload);
            fletcher(f.subrange(2, f.len() - 2)) == (f[f.len() - 2], f[f.len() - 1])
        }),
{
    let f = frame_bytes(class, id, payload);
    assert(f.subrange(2, f.len() - 2) =~= envelope(class, id, payload));
}

} // verus!
