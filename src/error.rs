use vstd::prelude::*;

verus! {

/// Why locating, decoding or walking ADTS frames stopped.
#[derive(Debug, Clone, Copy, PartialEq, Eq, Structural)]
pub enum AdtsError {
    /// A read ran past the end of the stream, or a seek left the addressable range. A scan
    /// that reaches the end of the stream without a pattern ends this way, in a short read.
    IoFailure,
    /// The 12-bit syncword of a header is not `0xFFF`.
    InvalidSyncword,
    /// The profile code of a header names no known audio object type.
    InvalidAudioObjectType,
    /// The declared frame length is shorter than the header itself.
    InvalidFrameLength,
}

} // verus!
