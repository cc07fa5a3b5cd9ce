//! The size accountant: pure, overflow-checked arithmetic that validates
//! per-frame and cumulative limits and computes the totals needed at
//! finalization.

use vstd::prelude::*;
use crate::error::MjpegError;
use crate::format::{spec_padded, MAX_AVI_FILE_SIZE, MAX_FRAME_COUNT};

verus! {

/// Size of the index chunk's payload: one 16-byte entry per frame.
pub open spec fn spec_index_size(count: int) -> int {
    16 * count
}

/// The value patched into the RIFF size field: the 256-byte header, every
/// frame's padded payload, and 24 bytes of per-frame overhead (8-byte chunk
/// header plus 16-byte index entry).
pub open spec fn spec_total_file_size(count: int, jpeg_total: int) -> int {
    256 + jpeg_total + 24 * count
}

/// The payload list's own size field: its 4-byte tag, every frame's padded
/// payload, and each frame's 8-byte chunk header; the index is excluded.
pub open spec fn spec_movi_size(count: int, jpeg_total: int) -> int {
    4 + jpeg_total + 8 * count
}

/// The three derived totals computed once at finalization, each checked to
/// fit its 32-bit field.
#[derive(Debug, Clone, Copy, PartialEq, Eq, Structural)]
pub struct FileSizes {
    pub total_file_size: u32,
    pub movi_size: u32,
    pub index_size: u32,
}

/// Computes the authoritative totals from the recorded frame sizes and the
/// running payload total.  Fails with the file-size error exactly when one
/// of the three totals does not fit its 32-bit field.
pub fn calculate_file_sizes(frame_sizes: &[u32], jpeg_total_size: u64) -> (r: Result<
    FileSizes,
    MjpegError,
>)
    ensures
        match r {
            Ok(fs) => {
                &&& frame_sizes@.len() <= u32::MAX
                &&& spec_index_size(frame_sizes@.len() as int) <= u32::MAX
                &&& spec_total_file_size(frame_sizes@.len() as int, jpeg_total_size as int)
                    <= u32::MAX
                &&& spec_movi_size(frame_sizes@.len() as int, jpeg_total_size as int) <= u32::MAX
                &&& fs.index_size == spec_index_size(frame_sizes@.len() as int)
                &&& fs.total_file_size == spec_total_file_size(
                    frame_sizes@.len() as int,
                    jpeg_total_size as int,
                )
                &&& fs.movi_size == spec_movi_size(frame_sizes@.len() as int, jpeg_total_size as int)
            },
            Err(MjpegError::FrameCountExceeded) => frame_sizes@.len() > u32::MAX,
            Err(MjpegError::FileSizeExceeded) => {
                &&& frame_sizes@.len() <= u32::MAX
                &&& {
                    ||| spec_index_size(frame_sizes@.len() as int) > u32::MAX
                    ||| spec_total_file_size(frame_sizes@.len() as int, jpeg_total_size as int)
                        > u32::MAX
                    ||| spec_movi_size(frame_sizes@.len() as int, jpeg_total_size as int) > u32::MAX
                }
            },
            Err(_) => false,
        },
{
    let frame_count: usize = frame_sizes.len();
    if frame_count > u32::MAX as usize {
        return Err(MjpegError::FrameCountExceeded);
    }
    let frame_count_u32: u32 = frame_count as u32;

    if frame_count_u32 > u32::MAX / 16 {
        return Err(MjpegError::FileSizeExceeded);
    }
    let index_size: u32 = frame_count_u32 * 16;

    let header_size: u64 = 256;
    if jpeg_total_size > u64::MAX - header_size {
        return Err(MjpegError::FileSizeExceeded);
    }
    let with_header: u64 = header_size + jpeg_total_size;
    let frame_overhead: u64 = (frame_count_u32 as u64) * 24;
    if with_header > u64::MAX - frame_overhead {
        return Err(MjpegError::FileSizeExceeded);
    }
    let total_file_size: u64 = with_header + frame_overhead;
    if total_file_size > u32::MAX as u64 {
        return Err(MjpegError::FileSizeExceeded);
    }

    if jpeg_total_size > u64::MAX - 4 {
        return Err(MjpegError::FileSizeExceeded);
    }
    let with_tag: u64 = 4 + jpeg_total_size;
    let chunk_overhead: u64 = (frame_count_u32 as u64) * 8;
    if with_tag > u64::MAX - chunk_overhead {
        return Err(MjpegError::FileSizeExceeded);
    }
    let movi_size: u64 = with_tag + chunk_overhead;
    if movi_size > u32::MAX as u64 {
        return Err(MjpegError::FileSizeExceeded);
    }

    Ok(
        FileSizes {
            total_file_size: total_file_size as u32,
            movi_size: movi_size as u32,
            index_size,
        },
    )
}

/// The early, deliberately pessimistic per-frame admission check: given the
/// current frame count, the current estimated file size, and a candidate
/// frame's raw byte length, decides whether the frame may be appended, and
/// returns its even-padded size.  Performed before any byte is written.
pub fn check_frame_admission(frame_count: usize, estimated_file_size: u64, frame_size: usize) -> (r:
    Result<u32, MjpegError>)
    ensures
        match r {
            Ok(padded) => {
                &&& frame_count < MAX_FRAME_COUNT
                &&& frame_size <= u32::MAX
                &&& padded == spec_padded(frame_size as int)
                &&& estimated_file_size + 24 + spec_padded(frame_size as int) <= MAX_AVI_FILE_SIZE
            },
            Err(MjpegError::FrameCountExceeded) => frame_count >= MAX_FRAME_COUNT,
            Err(MjpegError::FrameSizeExceeded) => frame_count < MAX_FRAME_COUNT && frame_size
                > u32::MAX,
            Err(MjpegError::FileSizeExceeded) => {
                &&& frame_count < MAX_FRAME_COUNT
                &&& frame_size <= u32::MAX
                &&& estimated_file_size + 24 + spec_padded(frame_size as int) > MAX_AVI_FILE_SIZE
            },
            Err(_) => false,
        },
{
    if frame_count >= MAX_FRAME_COUNT as usize {
        return Err(MjpegError::FrameCountExceeded);
    }
    if frame_size > u32::MAX as usize {
        return Err(MjpegError::FrameSizeExceeded);
    }
    let padded: u64 = if frame_size % 2 == 1 {
        frame_size as u64 + 1
    } else {
        frame_size as u64
    };
    if estimated_file_size > u64::MAX - 24 - padded {
        return Err(MjpegError::FileSizeExceeded);
    }
    let estimated_new_size: u64 = estimated_file_size + 8 + padded + 16;
    if estimated_new_size > MAX_AVI_FILE_SIZE {
        return Err(MjpegError::FileSizeExceeded);
    }
    Ok(padded as u32)
}

} // verus!
