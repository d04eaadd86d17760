use vstd::prelude::*;

verus! {

/// The ways in which decoding a frame, a payload or a stream can fail.
#[derive(Debug, Clone, Copy, PartialEq, Eq, Structural)]
pub enum UbxError {
    /// The frame does not start with the two sync bytes.
    Header,
    /// Fewer bytes than the frame announces.
    Truncated,
    /// A payload of the wrong length, or a field out of range.
    Payload,
    /// The navigation subframe does not start with the telemetry preamble.
    Preamble,
    /// The navigation subframe carries an ID outside 1..=5.
    SubframeId,
    /// A text line that is not UTF-8.
    Encoding,
}

} // verus!
