use vstd::prelude::*;
use vstd::utf8::{decode_utf8, valid_utf8};

use crate::error::UbxError;
use crate::msg::{decode_msg, MsgView, UbloxMsg};
use crate::raw_msg::{decode_raw, frame_bytes, lemma_raw_round_trip, le16, RawMsgView, MAX_PAYLOAD, SYNC_1, SYNC_2};

verus! {

/// First byte of a text sentence.
pub const NMEA_START: u8 = 0x24;

/// Last byte of a text sentence.
pub const NMEA_END: u8 = 0x0a;

/// What the receiver sends: a UBX message or a text sentence.
#[derive(Debug, Clone, PartialEq, Eq)]
pub enum Message {
    Ublox(UbloxMsg),
    Nmea(String),
}

pub enum MessageView {
    Ublox(MsgView),
    Nmea(Seq<char>),
}

impl View for Message {
    type V = MessageView;

    open spec fn view(&self) -> MessageView {
        match self {
            Message::Ublox(m) => MessageView::Ublox(m@),
            Message::Nmea(s) => MessageView::Nmea(s@),
        }
    }
}

/// A frame or a sentence may start at `i`: the two sync bytes, or `$` and a capital letter.
pub open spec fn is_start(b: Seq<u8>, i: int) -> bool {
    ||| b[i] == SYNC_1 && b[i + 1] == SYNC_2
    ||| b[i] == NMEA_START && 0x41 <= b[i + 1] <= 0x5a
}

/// The first index from `i` on where a frame or a sentence may start; -1 if none.
pub open spec fn find_start(b: Seq<u8>, i: int) -> int
    decreases b.len() - i,
{
    if i < 0 || i + 1 >= b.len() {
        -1
    } else if is_start(b, i) {
        i
    } else {
        find_start(b, i + 1)
    }
}

/// The first index from `i` on that holds the end of a sentence; -1 if none.
pub open spec fn find_end(b: Seq<u8>, i: int) -> int
    decreases b.len() - i,
{
    if i < 0 || i >= b.len() {
        -1
    } else if b[i] == NMEA_END {
        i
    } else {
        find_end(b, i + 1)
    }
}

proof fn lemma_find_start(b: Seq<u8>, i: int)
    ensures
        find_start(b, i) >= 0 ==> i <= find_start(b, i) && find_start(b, i) + 1 < b.len() && is_start(
            b,
            find_start(b, i),
        ),
        find_start(b, i) == -1 || find_start(b, i) >= 0,
    decreases b.len() - i,
{
    if !(i < 0 || i + 1 >= b.len()) && !is_start(b, i) {
        lemma_find_start(b, i + 1);
    }
}

proof fn lemma_find_end(b: Seq<u8>, i: int)
    ensures
        find_end(b, i) >= 0 ==> i <= find_end(b, i) < b.len() && b[find_end(b, i)] == NMEA_END,
        find_end(b, i) == -1 || find_end(b, i) >= 0,
    decreases b.len() - i,
{
    if !(i < 0 || i >= b.len()) && b[i] != NMEA_END {
        lemma_find_end(b, i + 1);
    }
}

/// The message that a complete sentence gives.
pub open spec fn nmea_item(line: Seq<u8>) -> Result<MessageView, UbxError> {
    if valid_utf8(line) {
        Ok(MessageView::Nmea(decode_utf8(line)))
    } else {
        Err(UbxError::Encoding)
    }
}

/// The message that a complete frame gives.
pub open spec fn ubx_item(frame: Seq<u8>) -> Result<MessageView, UbxError> {
    match decode_raw(frame) {
        Err(e) => Err(e),
        Ok(raw) => match decode_msg(raw) {
            Ok(m) => Ok(MessageView::Ublox(m)),
            Err(e) => Err(e),
        },
    }
}

/// One step of the framer on a buffer that starts where a frame or a sentence may
/// start: a sentence runs up to and including its line feed; a frame is as long as its
/// header says. An item whose bytes are all there leaves the buffer even when it fails
/// to decode.
pub open spec fn step_at_start(c: Seq<u8>) -> (Seq<u8>, Option<Result<MessageView, UbxError>>) {
    if c[0] == NMEA_START {
        let e = find_end(c, 0);
        if e < 0 {
            (c, None)
        } else {
            (c.subrange(e + 1, c.len() as int), Some(nmea_item(c.subrange(0, e + 1))))
        }
    } else if c.len() < 8 {
        (c, None)
    } else {
        let n = 8 + le16(c[4], c[5]);
        if c.len() < n {
            (c, None)
        } else {
            (c.subrange(n as int, c.len() as int), Some(ubx_item(c.subrange(0, n as int))))
        }
    }
}

/// One step of the framer on a buffer: the buffer that is left, and the item that
/// comes out, if any. Bytes before the first place where a frame or a sentence may
/// start are dropped; with no such place, nothing is.
pub open spec fn framer_step(b: Seq<u8>) -> (Seq<u8>, Option<Result<MessageView, UbxError>>) {
    let s = find_start(b, 0);
    if s < 0 {
        (b, None)
    } else {
        step_at_start(b.subrange(s, b.len() as int))
    }
}

/// Relies on `String::from_utf8`: it succeeds exactly on valid UTF-8, and the string
/// then holds the characters that the bytes encode.
#[verifier::external_body]
fn utf8_string(bytes: Vec<u8>) -> (r: Option<String>)
    ensures
        r is Some <==> valid_utf8(bytes@),
        r matches Some(s) ==> s@ == decode_utf8(bytes@),
{
    String::from_utf8(bytes).ok()
}

/// Reassembles frames and sentences from the bytes of a serial stream that may start
/// in the middle of a frame, carry noise, or deliver a frame in pieces.
#[derive(Debug)]
pub struct PortBuffer {
    buf: Vec<u8>,
}

impl View for PortBuffer {
    type V = Seq<u8>;

    closed spec fn view(&self) -> Seq<u8> {
        self.buf@
    }
}

impl PortBuffer {
    pub fn new() -> (r: PortBuffer)
        ensures
            r@ == Seq::<u8>::empty(),
    {
        PortBuffer { buf: Vec::new() }
    }

    /// Appends bytes that were read; nothing is parsed.
    pub fn ingest(&mut self, chunk: &[u8])
        ensures
            final(self)@ == old(self)@ + chunk@,
    {
        let mut i: usize = 0;
        while i < chunk.len()
            invariant
                0 <= i <= chunk@.len(),
                self.buf@ == old(self)@ + chunk@.take(i as int),
            decreases chunk@.len() - i,
        {
            self.buf.push(chunk[i]);
            i += 1;
            assert(self.buf@ =~= old(self)@ + chunk@.take(i as int));
        }
        assert(chunk@.take(chunk@.len() as int) =~= chunk@);
    }

    /// Drops the bytes before the first place where a frame or a sentence may start.
    /// Returns whether there is such a place; if not, nothing is dropped.
    pub fn sync(&mut self) -> (r: bool)
        ensures
            r == (find_start(old(self)@, 0) >= 0),
            r ==> final(self)@ == old(self)@.subrange(
                find_start(old(self)@, 0),
                old(self)@.len() as int,
            ),
            !r ==> final(self)@ == old(self)@,
    {
        let len = self.buf.len();
        if len < 2 {
            return false;
        }
        let mut i: usize = 0;
        while i < len - 1
            invariant
                len == self.buf@.len(),
                len >= 2,
                self.buf@ == old(self)@,
                0 <= i <= len - 1,
                find_start(self.buf@, 0) == find_start(self.buf@, i as int),
            decreases len - 1 - i,
        {
            if (self.buf[i] == SYNC_1 && self.buf[i + 1] == SYNC_2) || (self.buf[i] == NMEA_START
                && self.buf[i + 1] >= 0x41 && self.buf[i + 1] <= 0x5a) {
                let rest = self.buf.split_off(i);
                self.buf = rest;
                return true;
            }
            i += 1;
        }
        false
    }

    /// The first index of the buffer that holds a line feed.
    fn find_line_end(&self) -> (r: Option<usize>)
        ensures
            match r {
                Some(e) => find_end(self@, 0) == e as int,
                None => find_end(self@, 0) == -1,
            },
    {
        let mut i: usize = 0;
        while i < self.buf.len()
            invariant
                0 <= i <= self.buf@.len(),
                find_end(self.buf@, 0) == find_end(self.buf@, i as int),
            decreases self.buf@.len() - i,
        {
            if self.buf[i] == NMEA_END {
                return Some(i);
            }
            i += 1;
        }
        None
    }

    /// Takes the first `n` bytes off the buffer.
    fn take_front(&mut self, n: usize) -> (r: Vec<u8>)
        requires
            n <= old(self)@.len(),
        ensures
            r@ == old(self)@.subrange(0, n as int),
            final(self)@ == old(self)@.subrange(n as int, old(self)@.len() as int),
    {
        let mut rest = self.buf.split_off(n);
        std::mem::swap(&mut self.buf, &mut rest);
        rest
    }

    /// Runs the framer one step: returns the next sentence or message, if all of its
    /// bytes have arrived, and drops the bytes it has used. A sentence that is not
    /// UTF-8 and a frame whose payload does not decode are dropped and reported.
    pub fn read_msg(&mut self) -> (r: Option<Result<Message, UbxError>>)
        ensures
            final(self)@ == framer_step(old(self)@).0,
            match (r, framer_step(old(self)@).1) {
                (None, None) => true,
                (Some(Ok(m)), Some(Ok(v))) => m@ == v,
                (Some(Err(e)), Some(Err(f))) => e == f,
                _ => false,
            },
    {
        proof {
            lemma_find_start(self.buf@, 0);
        }
        if !self.sync() {
            return None;
        }
        let ghost c = self.buf@;
        proof {
            lemma_find_end(c, 0);
        }
        if self.buf[0] == NMEA_START {
            let end = match self.find_line_end() {
                Some(e) => e,
                None => {
                    return None;
                },
            };
            let len = self.buf.len();
            assert(end < len);
            let line = self.take_front(end + 1);
            return match utf8_string(line) {
                Some(s) => Some(Ok(Message::Nmea(s))),
                None => Some(Err(UbxError::Encoding)),
            };
        }
        if self.buf.len() < 8 {
            return None;
        }
        let length = self.buf[4] as usize + 256 * (self.buf[5] as usize);
        if self.buf.len() < 8 + length {
            return None;
        }
        let frame = self.take_front(8 + length);
        match UbloxMsg::try_from_bytes(frame.as_slice()) {
            Ok(m) => Some(Ok(Message::Ublox(m))),
            Err(e) => Some(Err(e)),
        }
    }
}

proof fn lemma_find_start_at(b: Seq<u8>, i: int, k: int)
    requires
        0 <= i <= k,
        k + 1 < b.len(),
        is_start(b, k),
        forall|j: int| i <= j < k ==> !is_start(b, j),
    ensures
        find_start(b, i) == k,
    decreases k - i,
{
    if i < k {
        lemma_find_start_at(b, i + 1, k);
    }
}

/// A complete frame at the front of the buffer comes out on the next step, and the
/// bytes after it stay.
pub proof fn lemma_frame_at_front(class: u8, id: u8, payload: Seq<u8>, rest: Seq<u8>)
    requires
        payload.len() <= MAX_PAYLOAD,
    ensures
        ({
            let f = frame_bytes(class, id, payload);
            &&& framer_step(f + rest) == (rest, Some(ubx_item(f)))
            &&& step_at_start(f + rest) == (rest, Some(ubx_item(f)))
            &&& decode_raw(f) == Ok::<RawMsgView, UbxError>(RawMsgView { class, id, payload })
        }),
{
    let f = frame_bytes(class, id, payload);
    let b = f + rest;
    lemma_raw_round_trip(class, id, payload);
    lemma_find_start_at(b, 0, 0);
    let c = b.subrange(0, b.len() as int);
    assert(c =~= b);
    assert(le16(c[4], c[5]) == payload.len());
    assert(c.subrange(0, f.len() as int) =~= f);
    assert(c.subrange(f.len() as int, c.len() as int) =~= rest);
}

/// Noise in which no frame or sentence can start is dropped, and the frame after it
/// comes out on the next step.
pub proof fn lemma_noise_then_frame(noise: Seq<u8>, class: u8, id: u8, payload: Seq<u8>, rest: Seq<u8>)
    requires
        payload.len() <= MAX_PAYLOAD,
        forall|i: int|
            0 <= i < noise.len() ==> !is_start(noise + frame_bytes(class, id, payload) + rest, i),
    ensures
        framer_step(noise + frame_bytes(class, id, payload) + rest) == (
            rest,
            Some(ubx_item(frame_bytes(class, id, payload))),
        ),
{
    let f = frame_bytes(class, id, payload);
    let b = noise + f + rest;
    let n = noise.len() as int;
    lemma_frame_at_front(class, id, payload, rest);
    assert(b[n] == SYNC_1 && b[n + 1] == SYNC_2);
    assert forall|j: int| 0 <= j < n implies !is_start(b, j) by {
        assert(!is_start(noise + f + rest, j));
    }
    lemma_find_start_at(b, 0, n);
    assert(b.subrange(n, b.len() as int) =~= f + rest);
}

/// A frame that has arrived only in part leaves the buffer as it is and gives nothing;
/// fed one byte at a time, a frame comes out on the step after its last byte.
pub proof fn lemma_partial_frame_waits(class: u8, id: u8, payload: Seq<u8>, k: int)
    requires
        payload.len() <= MAX_PAYLOAD,
        0 <= k < frame_bytes(class, id, payload).len(),
    ensures
        ({
            let f = frame_bytes(class, id, payload);
            &&& framer_step(f.take(k)) == (f.take(k), None::<Result<MessageView, UbxError>>)
            &&& framer_step(f) == (Seq::<u8>::empty(), Some(ubx_item(f)))
        }),
{
    let f = frame_bytes(class, id, payload);
    assert(f =~= f + Seq::<u8>::empty());
    lemma_frame_at_front(class, id, payload, Seq::<u8>::empty());
    let b = f.take(k);
    if k >= 2 {
        lemma_find_start_at(b, 0, 0);
        assert(b.subrange(0, b.len() as int) =~= b);
        if k >= 8 {
            assert(le16(b[4], b[5]) == payload.len());
        }
    }
}

/// Two frames with noise between them come out one after the other, and the noise
/// is dropped.
pub proof fn lemma_two_frames(class: u8, id: u8, payload: Seq<u8>, noise: Seq<u8>)
    requires
        payload.len() <= MAX_PAYLOAD,
        forall|i: int|
            0 <= i < noise.len() ==> !is_start(noise + frame_bytes(class, id, payload), i),
    ensures
        ({
            let f = frame_bytes(class, id, payload);
            let first = framer_step(f + noise + f);
            let second = framer_step(first.0);
            &&& first.1 == Some(ubx_item(f))
            &&& second == (Seq::<u8>::empty(), Some(ubx_item(f)))
        }),
{
    let f = frame_bytes(class, id, payload);
    assert(f + noise + f =~= f + (noise + f));
    lemma_frame_at_front(class, id, payload, noise + f);
    assert(noise + f =~= noise + f + Seq::<u8>::empty());
    lemma_noise_then_frame(noise, class, id, payload, Seq::<u8>::empty());
}

/// The framer never spins: a step that gives an item uses at least one byte, and a
/// step that gives nothing leaves a buffer on which the next step, without new bytes,
/// gives nothing either and changes nothing.
pub proof fn lemma_framer_progress(b: Seq<u8>)
    ensures
        framer_step(b).1 is Some ==> framer_step(b).0.len() < b.len(),
        framer_step(b).1 is None ==> framer_step(framer_step(b).0) == framer_step(b),
{
    lemma_find_start(b, 0);
    let s = find_start(b, 0);
    if s >= 0 {
        let c = b.subrange(s, b.len() as int);
        lemma_find_end(c, 0);
        assert(is_start(c, 0));
        if framer_step(b).1 is None {
            lemma_find_start_at(c, 0, 0);
            assert(c.subrange(0, c.len() as int) =~= c);
        }
    }
}

/// Feeds `bytes` to a framer holding `buf` one at a time, running one step after each
/// byte (an `ingest` of one byte, then a `read_msg`): the buffer that is left, and the
/// item of each step.
pub open spec fn feed_bytewise(buf: Seq<u8>, bytes: Seq<u8>) -> (
    Seq<u8>,
    Seq<Option<Result<MessageView, UbxError>>>,
)
    decreases bytes.len(),
{
    if bytes.len() == 0 {
        (buf, Seq::empty())
    } else {
        let prev = feed_bytewise(buf, bytes.drop_last());
        let step = framer_step(prev.0.push(bytes.last()));
        (step.0, prev.1.push(step.1))
    }
}

proof fn lemma_feed_prefix(class: u8, id: u8, payload: Seq<u8>, k: int)
    requires
        payload.len() <= MAX_PAYLOAD,
        0 <= k < frame_bytes(class, id, payload).len(),
    ensures
        ({
            let f = frame_bytes(class, id, payload);
            feed_bytewise(Seq::empty(), f.take(k)) == (
                f.take(k),
                Seq::new(k as nat, |i: int| None::<Result<MessageView, UbxError>>),
            )
        }),
    decreases k,
{
    let f = frame_bytes(class, id, payload);
    if k == 0 {
        assert(f.take(0) =~= Seq::<u8>::empty());
        assert(Seq::new(0, |i: int| None::<Result<MessageView, UbxError>>) =~= Seq::empty());
    } else {
        lemma_feed_prefix(class, id, payload, k - 1);
        assert(f.take(k).drop_last() =~= f.take(k - 1));
        assert(f.take(k - 1).push(f.take(k).last()) =~= f.take(k));
        lemma_partial_frame_waits(class, id, payload, k);
        assert(Seq::new((k - 1) as nat, |i: int| None::<Result<MessageView, UbxError>>).push(None)
            =~= Seq::new(k as nat, |i: int| None::<Result<MessageView, UbxError>>));
    }
}

/// Fed one byte at a time to an empty framer, a frame gives nothing on every step but
/// the last, and comes out whole on the step after its last byte, leaving the buffer
/// empty.
pub proof fn lemma_frame_byte_by_byte(class: u8, id: u8, payload: Seq<u8>)
    requires
        payload.len() <= MAX_PAYLOAD,
    ensures
        ({
            let f = frame_bytes(class, id, payload);
            let fed = feed_bytewise(Seq::empty(), f);
            &&& fed.0 == Seq::<u8>::empty()
            &&& fed.1.len() == f.len()
            &&& forall|i: int| 0 <= i < f.len() - 1 ==> fed.1[i] is None
            &&& fed.1[f.len() - 1] == Some(ubx_item(f))
            &&& decode_raw(f) == Ok::<RawMsgView, UbxError>(RawMsgView { class, id, payload })
        }),
{
    let f = frame_bytes(class, id, payload);
    let n = f.len() as int;
    lemma_feed_prefix(class, id, payload, n - 1);
    assert(f.take(n) =~= f);
    assert(f.take(n).drop_last() =~= f.take(n - 1));
    assert(f.take(n - 1).push(f.last()) =~= f);
    lemma_partial_frame_waits(class, id, payload, n - 1);
    lemma_frame_at_front(class, id, payload, Seq::<u8>::empty());
}

} // verus!
