//! Streaming writer for motion-JPEG video containers in the RIFF/AVI format.
//!
//! The writer emits a fixed 256-byte header up front, then one chunk per
//! appended frame, and at finalization an index chunk followed by patches of
//! the header fields whose values are only known once all frames have been
//! seen.  All container bookkeeping (sizes, offsets, limits) is verified.

pub mod error;
pub mod format;
pub mod laws;
pub mod mjpeg_sync;
pub mod sizes;
pub mod writer;

pub use error::MjpegError;
pub use mjpeg_sync::{MjpegAviWriter, MjpegWriter};
pub use writer::{MemorySink, Writer};
