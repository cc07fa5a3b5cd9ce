//! Error kinds surfaced by the container writer.

use vstd::prelude::*;

verus! {

/// Everything that can go wrong while building the container.
///
/// No operation recovers internally: each error is returned to the immediate
/// caller of the operation that detected it.
#[derive(Debug, Clone, PartialEq, Eq)]
pub enum MjpegError {
    /// A sink write or seek failed; the message describes the failure.
    Io(String),
    /// A size computation would exceed the container's 2 GiB - 1 ceiling or
    /// overflow a 32-bit size field.
    FileSizeExceeded,
    /// The frame count would exceed the supported maximum.
    FrameCountExceeded,
    /// A single frame's raw byte length does not fit in 32 bits.
    FrameSizeExceeded,
    /// A zero-length frame was appended, or the writer was constructed with
    /// zero frames per second.
    InvalidFrameSize,
}

} // verus!
