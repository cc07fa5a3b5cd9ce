//! The streaming frame writer: accepts one frame payload (or several
//! payload fragments) at a time, pads it to even length, writes a chunk
//! header plus payload to the sink, and records the bookkeeping needed for
//! the index and the final totals.  Finalization writes the index chunk and
//! patches the header fields whose values are only known at the end.

use vstd::prelude::*;
use vstd::bytes::{u32_to_le_bytes, lemma_auto_spec_u32_to_from_le_bytes};
use crate::error::MjpegError;
use crate::format::{
    le32, spec_header, spec_padded, spec_frame_chunk, spec_frames_bytes, spec_frame_sizes,
    spec_partial_file, spec_sum_sizes, spec_index_chunk, spec_index_entries,
    create_header_template, create_frame_chunk_header, create_index_entry, create_idx_header,
    lemma_header_len, lemma_frames_bytes_push, lemma_sum_sizes_nonneg, lemma_sum_sizes_take_succ,
    lemma_sum_sizes_take_le, lemma_index_entries_len, lemma_index_entries_snoc,
    MAX_AVI_FILE_SIZE, MAX_FRAME_COUNT,
};
use crate::sizes::{
    calculate_file_sizes, check_frame_admission, spec_movi_size, spec_total_file_size, FileSizes,
};
use crate::writer::{
    write_at, lemma_write_at_end, lemma_write_at_prefix, spec_concat_bufs, Writer,
};

verus! {

/// The immutable video parameters fixed at construction.
pub struct VideoParams {
    pub width: u32,
    pub height: u32,
    pub fps: u32,
}

/// The running size estimate maintained while frames arrive: the header,
/// every padded payload, and 24 bytes of per-frame overhead.  It coincides
/// with the authoritative total computed at finalization.
pub open spec fn spec_estimated_size(frames: Seq<Seq<u8>>) -> int {
    256 + spec_sum_sizes(spec_frame_sizes(frames)) + 24 * frames.len()
}

/// Whether one more frame of raw length `len` may be admitted after
/// `frames`: the frame count stays below the maximum, the length fits in 32
/// bits, and the projected file size stays within the container's ceiling.
pub open spec fn spec_can_append(frames: Seq<Seq<u8>>, len: int) -> bool {
    &&& frames.len() < MAX_FRAME_COUNT
    &&& len <= u32::MAX
    &&& spec_estimated_size(frames) + 24 + spec_padded(len) <= MAX_AVI_FILE_SIZE
}

/// The finalized container: the patched header, the frame chunks, and the
/// index chunk.
pub open spec fn spec_final_file(width: u32, height: u32, fps: u32, frames: Seq<Seq<u8>>) -> Seq<
    u8,
> {
    let sizes = spec_frame_sizes(frames);
    let count = frames.len() as int;
    let jpeg = spec_sum_sizes(sizes);
    spec_header(
        width,
        height,
        fps,
        spec_total_file_size(count, jpeg) as u32,
        count as u32,
        count as u32,
        count as u32,
        spec_movi_size(count, jpeg) as u32,
    ) + spec_frames_bytes(frames) + spec_index_chunk(sizes)
}

/// Patching the RIFF size field at offset 4 only replaces that field.
pub proof fn lemma_patch_file_size(
    width: u32,
    height: u32,
    fps: u32,
    a: u32,
    b: u32,
    c: u32,
    d: u32,
    e: u32,
    v: u32,
)
    ensures
        write_at(spec_header(width, height, fps, a, b, c, d, e), 4, le32(v)) == spec_header(
            width,
            height,
            fps,
            v,
            b,
            c,
            d,
            e,
        ),
{
    lemma_auto_spec_u32_to_from_le_bytes();
    lemma_header_len(width, height, fps, a, b, c, d, e);
    lemma_header_len(width, height, fps, v, b, c, d, e);
    assert(write_at(spec_header(width, height, fps, a, b, c, d, e), 4, le32(v)) =~= spec_header(
        width,
        height,
        fps,
        v,
        b,
        c,
        d,
        e,
    ));
}

/// Patching the total-frames field at offset 48 only replaces that field.
pub proof fn lemma_patch_total_frames(
    width: u32,
    height: u32,
    fps: u32,
    a: u32,
    b: u32,
    c: u32,
    d: u32,
    e: u32,
    v: u32,
)
    ensures
        write_at(spec_header(width, height, fps, a, b, c, d, e), 48, le32(v)) == spec_header(
            width,
            height,
            fps,
            a,
            v,
            c,
            d,
            e,
        ),
{
    lemma_auto_spec_u32_to_from_le_bytes();
    lemma_header_len(width, height, fps, a, b, c, d, e);
    lemma_header_len(width, height, fps, a, v, c, d, e);
    assert(write_at(spec_header(width, height, fps, a, b, c, d, e), 48, le32(v)) =~= spec_header(
        width,
        height,
        fps,
        a,
        v,
        c,
        d,
        e,
    ));
}

/// Patching the stream-length field at offset 140 only replaces that field.
pub proof fn lemma_patch_stream_length(
    width: u32,
    height: u32,
    fps: u32,
    a: u32,
    b: u32,
    c: u32,
    d: u32,
    e: u32,
    v: u32,
)
    ensures
        write_at(spec_header(width, height, fps, a, b, c, d, e), 140, le32(v)) == spec_header(
            width,
            height,
            fps,
            a,
            b,
            v,
            d,
            e,
        ),
{
    lemma_auto_spec_u32_to_from_le_bytes();
    lemma_header_len(width, height, fps, a, b, c, d, e);
    lemma_header_len(width, height, fps, a, b, v, d, e);
    assert(write_at(spec_header(width, height, fps, a, b, c, d, e), 140, le32(v)) =~= spec_header(
        width,
        height,
        fps,
        a,
        b,
        v,
        d,
        e,
    ));
}

/// Patching the extended-index total-frames field at offset 240 only
/// replaces that field.
pub proof fn lemma_patch_odml_frames(
    width: u32,
    height: u32,
    fps: u32,
    a: u32,
    b: u32,
    c: u32,
    d: u32,
    e: u32,
    v: u32,
)
    ensures
        write_at(spec_header(width, height, fps, a, b, c, d, e), 240, le32(v)) == spec_header(
            width,
            height,
            fps,
            a,
            b,
            c,
            v,
            e,
        ),
{
    lemma_auto_spec_u32_to_from_le_bytes();
    lemma_header_len(width, height, fps, a, b, c, d, e);
    lemma_header_len(width, height, fps, a, b, c, v, e);
    assert(write_at(spec_header(width, height, fps, a, b, c, d, e), 240, le32(v)) =~= spec_header(
        width,
        height,
        fps,
        a,
        b,
        c,
        v,
        e,
    ));
}

/// Patching the payload-list size field at offset 248 only replaces that
/// field.
pub proof fn lemma_patch_movi_size(
    width: u32,
    height: u32,
    fps: u32,
    a: u32,
    b: u32,
    c: u32,
    d: u32,
    e: u32,
    v: u32,
)
    ensures
        write_at(spec_header(width, height, fps, a, b, c, d, e), 248, le32(v)) == spec_header(
            width,
            height,
            fps,
            a,
            b,
            c,
            d,
            v,
        ),
{
    lemma_auto_spec_u32_to_from_le_bytes();
    lemma_header_len(width, height, fps, a, b, c, d, e);
    lemma_header_len(width, height, fps, a, b, c, d, v);
    assert(write_at(spec_header(width, height, fps, a, b, c, d, e), 248, le32(v)) =~= spec_header(
        width,
        height,
        fps,
        a,
        b,
        c,
        d,
        v,
    ));
}

/// Writes the 256-byte header, with the placeholder fields zero-filled,
/// to a fresh sink.
pub fn create_header_data<W: Writer>(writer: &mut W, fps: u32, width: u32, height: u32) -> (r:
    Result<(), MjpegError>)
    requires
        fps >= 1,
        old(writer).contents().len() == 0,
        old(writer).position() == 0,
    ensures
        match r {
            Ok(()) => final(writer).contents() == spec_header(width, height, fps, 0, 0, 0, 0, 0)
                && final(writer).position() == 256,
            Err(MjpegError::Io(_)) => true,
            Err(_) => false,
        },
{
    let header = create_header_template(fps, width, height);
    match writer.write_all(header.as_slice()) {
        Ok(()) => {},
        Err(e) => {
            return Err(e);
        },
    }
    proof {
        lemma_write_at_end(Seq::<u8>::empty(), header@);
        assert(Seq::<u8>::empty() + header@ =~= header@);
        lemma_header_len(width, height, fps, 0, 0, 0, 0, 0);
    }
    Ok(())
}

/// The synchronous writing interface: append frames one at a time, then
/// finalize exactly once.  The contracts pin down every byte handed to the
/// sink and say exactly which inputs are rejected with which error.
pub trait MjpegAviWriter: Sized {
    /// Whether the writer is still in its frame-accepting state with all
    /// bookkeeping intact.
    spec fn wf(&self) -> bool;

    /// The video parameters fixed at construction.
    spec fn video_params(&self) -> VideoParams;

    /// The payloads of the frames appended so far, in arrival order.
    spec fn frames(&self) -> Seq<Seq<u8>>;

    /// The bytes handed to the sink so far.
    spec fn sink_contents(&self) -> Seq<u8>;

    /// Adds a single frame to the container.
    ///
    /// The payload is treated as one complete, opaque image bitstream.
    fn add_frame(&mut self, jpeg_binary: &[u8]) -> (r: Result<(), MjpegError>)
        requires
            old(self).wf(),
        ensures
            match r {
                Ok(()) => {
                    &&& jpeg_binary@.len() >= 1
                    &&& spec_can_append(old(self).frames(), jpeg_binary@.len() as int)
                    &&& final(self).wf()
                    &&& final(self).video_params() == old(self).video_params()
                    &&& final(self).frames() == old(self).frames().push(jpeg_binary@)
                    &&& final(self).sink_contents() == old(self).sink_contents()
                        + spec_frame_chunk(jpeg_binary@)
                },
                Err(MjpegError::InvalidFrameSize) => jpeg_binary@.len() == 0 && *final(self)
                    == *old(self),
                Err(MjpegError::FrameCountExceeded) => jpeg_binary@.len() >= 1 && old(
                    self,
                ).frames().len() >= MAX_FRAME_COUNT && *final(self) == *old(self),
                Err(MjpegError::FrameSizeExceeded) => jpeg_binary@.len() >= 1 && old(
                    self,
                ).frames().len() < MAX_FRAME_COUNT && jpeg_binary@.len() > u32::MAX && *final(self)
                    == *old(self),
                Err(MjpegError::FileSizeExceeded) => jpeg_binary@.len() >= 1 && old(
                    self,
                ).frames().len() < MAX_FRAME_COUNT && jpeg_binary@.len() <= u32::MAX
                    && spec_estimated_size(old(self).frames()) + 24 + spec_padded(
                    jpeg_binary@.len() as int,
                ) > MAX_AVI_FILE_SIZE && *final(self) == *old(self),
                Err(MjpegError::Io(_)) => jpeg_binary@.len() >= 1 && spec_can_append(
                    old(self).frames(),
                    jpeg_binary@.len() as int,
                ) && final(self).video_params() == old(self).video_params() && final(self).frames()
                    == old(self).frames(),
            },
    ;

    /// Adds a single frame supplied as an ordered list of payload
    /// fragments; their concatenation is the logical frame, and the bytes
    /// written are identical to appending that concatenation in one call.
    fn add_frame_vectored(&mut self, bufs: &[&[u8]]) -> (r: Result<(), MjpegError>)
        requires
            old(self).wf(),
        ensures
            match r {
                Ok(()) => {
                    &&& spec_concat_bufs(bufs.deep_view()).len() >= 1
                    &&& spec_can_append(
                        old(self).frames(),
                        spec_concat_bufs(bufs.deep_view()).len() as int,
                    )
                    &&& final(self).wf()
                    &&& final(self).video_params() == old(self).video_params()
                    &&& final(self).frames() == old(self).frames().push(
                        spec_concat_bufs(bufs.deep_view()),
                    )
                    &&& final(self).sink_contents() == old(self).sink_contents()
                        + spec_frame_chunk(spec_concat_bufs(bufs.deep_view()))
                },
                Err(MjpegError::InvalidFrameSize) => spec_concat_bufs(bufs.deep_view()).len() == 0
                    && *final(self) == *old(self),
                Err(MjpegError::FrameCountExceeded) => spec_concat_bufs(bufs.deep_view()).len() >= 1
                    && old(self).frames().len() >= MAX_FRAME_COUNT && *final(self) == *old(self),
                Err(MjpegError::FrameSizeExceeded) => spec_concat_bufs(bufs.deep_view()).len() >= 1
                    && old(self).frames().len() < MAX_FRAME_COUNT && spec_concat_bufs(
                    bufs.deep_view(),
                ).len() > u32::MAX && *final(self) == *old(self),
                Err(MjpegError::FileSizeExceeded) => spec_concat_bufs(bufs.deep_view()).len() >= 1
                    && old(self).frames().len() < MAX_FRAME_COUNT && spec_concat_bufs(
                    bufs.deep_view(),
                ).len() <= u32::MAX && spec_estimated_size(old(self).frames()) + 24 + spec_padded(
                    spec_concat_bufs(bufs.deep_view()).len() as int,
                ) > MAX_AVI_FILE_SIZE && *final(self) == *old(self),
                Err(MjpegError::Io(_)) => spec_concat_bufs(bufs.deep_view()).len() >= 1
                    && spec_can_append(
                    old(self).frames(),
                    spec_concat_bufs(bufs.deep_view()).len() as int,
                ) && final(self).video_params() == old(self).video_params() && final(self).frames()
                    == old(self).frames(),
            },
    ;

    /// Finalizes the container: writes the index chunk and patches the
    /// header's placeholder fields with the now-known totals.  On success
    /// the sink holds exactly the finalized container; the only possible
    /// failure is a sink failure.
    fn finish(&mut self) -> (r: Result<(), MjpegError>)
        requires
            old(self).wf(),
        ensures
            match r {
                Ok(()) => {
                    &&& final(self).video_params() == old(self).video_params()
                    &&& final(self).frames() == old(self).frames()
                    &&& final(self).sink_contents() == spec_final_file(
                        old(self).video_params().width,
                        old(self).video_params().height,
                        old(self).video_params().fps,
                        old(self).frames(),
                    )
                },
                Err(MjpegError::Io(_)) => final(self).video_params() == old(self).video_params()
                    && final(self).frames() == old(self).frames(),
                Err(_) => false,
            },
    ;
}

/// The streaming container writer over an arbitrary sink.
#[must_use]
pub struct MjpegWriter<W: Writer> {
    writer: W,
    frame_sizes: Vec<u32>,
    jpeg_total_size: u64,
    estimated_file_size: u64,
    params: Ghost<VideoParams>,
    frames: Ghost<Seq<Seq<u8>>>,
}

impl<W: Writer> MjpegWriter<W> {
    /// Creates a writer over `writer`, which must be fresh, and immediately
    /// writes the 256-byte header.  Construction is rejected with the
    /// invalid-input error exactly when `fps` is zero.
    pub fn new(writer: W, width: u32, height: u32, fps: u32) -> (r: Result<
        MjpegWriter<W>,
        MjpegError,
    >)
        requires
            writer.contents().len() == 0,
            writer.position() == 0,
        ensures
            match r {
                Ok(w) => {
                    &&& fps >= 1
                    &&& w.wf()
                    &&& w.video_params() == (VideoParams { width, height, fps })
                    &&& w.frames() == Seq::<Seq<u8>>::empty()
                    &&& w.sink_contents() == spec_header(width, height, fps, 0, 0, 0, 0, 0)
                },
                Err(MjpegError::InvalidFrameSize) => fps == 0,
                Err(MjpegError::Io(_)) => fps >= 1,
                Err(_) => false,
            },
    {
        if fps == 0 {
            return Err(MjpegError::InvalidFrameSize);
        }
        let mut writer = writer;
        match create_header_data(&mut writer, fps, width, height) {
            Ok(()) => {},
            Err(e) => {
                return Err(e);
            },
        }
        let w = MjpegWriter {
            writer,
            frame_sizes: Vec::new(),
            jpeg_total_size: 0,
            estimated_file_size: 256,
            params: Ghost(VideoParams { width, height, fps }),
            frames: Ghost(Seq::<Seq<u8>>::empty()),
        };
        proof {
            assert(spec_frame_sizes(w.frames@) =~= Seq::<u32>::empty());
            assert(w.sink_contents() =~= spec_partial_file(width, height, fps, w.frames@));
            lemma_header_len(width, height, fps, 0, 0, 0, 0, 0);
        }
        Ok(w)
    }

    /// The per-frame admission check of the size accountant, applied to
    /// this writer's current state.
    fn check_limits(&self, frame_size: usize) -> (r: Result<(), MjpegError>)
        requires
            self.wf(),
        ensures
            match r {
                Ok(()) => spec_can_append(self.frames(), frame_size as int),
                Err(MjpegError::FrameCountExceeded) => self.frames().len() >= MAX_FRAME_COUNT,
                Err(MjpegError::FrameSizeExceeded) => self.frames().len() < MAX_FRAME_COUNT
                    && frame_size > u32::MAX,
                Err(MjpegError::FileSizeExceeded) => self.frames().len() < MAX_FRAME_COUNT
                    && frame_size <= u32::MAX && spec_estimated_size(self.frames()) + 24
                    + spec_padded(frame_size as int) > MAX_AVI_FILE_SIZE,
                Err(_) => false,
            },
    {
        match check_frame_admission(self.frame_sizes.len(), self.estimated_file_size, frame_size) {
            Ok(_) => Ok(()),
            Err(e) => Err(e),
        }
    }

    /// Consumes the writer and hands back the sink.
    pub fn into_writer(self) -> (w: W)
        ensures
            w.contents() == self.sink_contents(),
    {
        self.writer
    }
}

impl<W: Writer> MjpegAviWriter for MjpegWriter<W> {
    closed spec fn wf(&self) -> bool {
        let p = self.params@;
        let frames = self.frames@;
        &&& p.fps >= 1
        &&& frames.len() <= MAX_FRAME_COUNT
        &&& (forall|i: int| 0 <= i < frames.len() ==> 1 <= #[trigger] frames[i].len())
        &&& (forall|i: int|
            0 <= i < frames.len() ==> #[trigger] spec_padded(frames[i].len() as int)
                < 0x8000_0000)
        &&& self.frame_sizes@ == spec_frame_sizes(frames)
        &&& self.jpeg_total_size == spec_sum_sizes(self.frame_sizes@)
        &&& self.estimated_file_size == spec_estimated_size(frames)
        &&& self.estimated_file_size <= MAX_AVI_FILE_SIZE
        &&& self.writer.contents() == spec_partial_file(p.width, p.height, p.fps, frames)
        &&& self.writer.position() == self.writer.contents().len()
    }

    closed spec fn video_params(&self) -> VideoParams {
        self.params@
    }

    closed spec fn frames(&self) -> Seq<Seq<u8>> {
        self.frames@
    }

    closed spec fn sink_contents(&self) -> Seq<u8> {
        self.writer.contents()
    }

    #[verifier::rlimit(50)]
    fn add_frame(&mut self, jpeg_binary: &[u8]) -> (r: Result<(), MjpegError>) {
        if jpeg_binary.len() == 0 {
            return Err(MjpegError::InvalidFrameSize);
        }
        match self.check_limits(jpeg_binary.len()) {
            Ok(()) => {},
            Err(e) => {
                return Err(e);
            },
        }
        let frame_size: usize = jpeg_binary.len();
        let odd: bool = frame_size % 2 == 1;
        proof {
            lemma_sum_sizes_nonneg(spec_frame_sizes(self.frames@));
            assert(spec_padded(frame_size as int) < 0x8000_0000);
        }
        let padded_size_u32: u32 = if odd {
            (frame_size as u32) + 1
        } else {
            frame_size as u32
        };
        let chunk_header = create_frame_chunk_header(padded_size_u32);
        let ghost contents0 = self.writer.contents();
        match self.writer.write_all(chunk_header.as_slice()) {
            Ok(()) => {},
            Err(e) => {
                return Err(e);
            },
        }
        proof {
            lemma_write_at_end(contents0, chunk_header@);
        }
        let ghost contents1 = self.writer.contents();
        match self.writer.write_all(jpeg_binary) {
            Ok(()) => {},
            Err(e) => {
                return Err(e);
            },
        }
        proof {
            lemma_write_at_end(contents1, jpeg_binary@);
        }
        if odd {
            let mut pad: Vec<u8> = Vec::new();
            pad.push(0u8);
            let ghost contents2 = self.writer.contents();
            match self.writer.write_all(pad.as_slice()) {
                Ok(()) => {},
                Err(e) => {
                    return Err(e);
                },
            }
            proof {
                lemma_write_at_end(contents2, pad@);
                assert(pad@ =~= seq![0u8]);
            }
        }
        proof {
            assert(self.writer.contents() =~= contents0 + spec_frame_chunk(jpeg_binary@));
        }
        let ghost p = self.params@;
        let ghost frames0 = self.frames@;
        let ghost sizes0 = self.frame_sizes@;
        self.frame_sizes.push(padded_size_u32);
        self.jpeg_total_size = self.jpeg_total_size + padded_size_u32 as u64;
        self.estimated_file_size = self.estimated_file_size + 8 + padded_size_u32 as u64 + 16;
        self.frames = Ghost(frames0.push(jpeg_binary@));
        proof {
            assert(padded_size_u32 == spec_padded(jpeg_binary@.len() as int) as u32);
            assert(self.frame_sizes@ =~= spec_frame_sizes(self.frames@));
            assert(sizes0.push(padded_size_u32).drop_last() =~= sizes0);
            assert(self.jpeg_total_size == spec_sum_sizes(self.frame_sizes@));
            lemma_frames_bytes_push(frames0, jpeg_binary@);
            assert(self.writer.contents() =~= spec_partial_file(
                p.width,
                p.height,
                p.fps,
                self.frames@,
            ));
        }
        Ok(())
    }

    #[verifier::rlimit(50)]
    fn add_frame_vectored(&mut self, bufs: &[&[u8]]) -> (r: Result<(), MjpegError>) {
        let ghost bv = bufs.deep_view();
        let ghost payload = spec_concat_bufs(bv);
        let mut total: usize = 0;
        let mut overflowed: bool = false;
        let mut k: usize = 0;
        proof {
            assert(bv.take(0).flatten() == Seq::<u8>::empty());
        }
        while k < bufs.len()
            invariant
                0 <= k <= bufs@.len(),
                bv == bufs.deep_view(),
                !overflowed ==> total == spec_concat_bufs(bv.take(k as int)).len(),
                overflowed ==> spec_concat_bufs(bv.take(k as int)).len() > usize::MAX,
            decreases bufs@.len() - k,
        {
            let b: &[u8] = bufs[k];
            proof {
                assert(bv.take(k + 1) =~= bv.take(k as int).push(bv[k as int]));
                bv.take(k as int).lemma_flatten_push(bv[k as int]);
                assert(bv[k as int] =~= b@);
            }
            if !overflowed {
                if total > usize::MAX - b.len() {
                    overflowed = true;
                } else {
                    total = total + b.len();
                }
            }
            k = k + 1;
        }
        proof {
            assert(bv.take(bufs@.len() as int) =~= bv);
        }
        if overflowed {
            if self.frame_sizes.len() >= MAX_FRAME_COUNT as usize {
                return Err(MjpegError::FrameCountExceeded);
            }
            return Err(MjpegError::FrameSizeExceeded);
        }
        if total == 0 {
            return Err(MjpegError::InvalidFrameSize);
        }
        match self.check_limits(total) {
            Ok(()) => {},
            Err(e) => {
                return Err(e);
            },
        }
        let odd: bool = total % 2 == 1;
        proof {
            lemma_sum_sizes_nonneg(spec_frame_sizes(self.frames@));
            assert(spec_padded(total as int) < 0x8000_0000);
        }
        let padded_size_u32: u32 = if odd {
            (total as u32) + 1
        } else {
            total as u32
        };
        let chunk_header = create_frame_chunk_header(padded_size_u32);
        let chunk_slice: &[u8] = chunk_header.as_slice();
        let mut pad: Vec<u8> = Vec::new();
        pad.push(0u8);
        let pad_slice: &[u8] = pad.as_slice();
        let mut iovecs: Vec<&[u8]> = Vec::new();
        iovecs.push(chunk_slice);
        let mut j: usize = 0;
        while j < bufs.len()
            invariant
                0 <= j <= bufs@.len(),
                iovecs@.len() == j + 1,
                iovecs@[0] == chunk_slice,
                forall|i: int| 1 <= i <= j ==> iovecs@[i] == bufs@[i - 1],
            decreases bufs@.len() - j,
        {
            iovecs.push(bufs[j]);
            j = j + 1;
        }
        if odd {
            iovecs.push(pad_slice);
        }
        let ghost contents0 = self.writer.contents();
        let ghost iov = if odd {
            (seq![chunk_header@] + bv).push(pad@)
        } else {
            seq![chunk_header@] + bv
        };
        let iovecs_slice: &[&[u8]] = iovecs.as_slice();
        proof {
            assert(iovecs_slice.deep_view() =~~= iov);
        }
        match self.writer.write_all_vectored(iovecs_slice) {
            Ok(()) => {},
            Err(e) => {
                return Err(e);
            },
        }
        proof {
            seq![chunk_header@].lemma_flatten_singleton();
            vstd::seq_lib::lemma_flatten_concat(seq![chunk_header@], bv);
            if odd {
                (seq![chunk_header@] + bv).lemma_flatten_push(pad@);
                assert(iov.flatten() == (seq![chunk_header@] + bv).flatten() + pad@);
            }
            assert(pad@ =~= seq![0u8]);
            assert(spec_concat_bufs(iov) =~= spec_frame_chunk(payload));
            lemma_write_at_end(contents0, spec_concat_bufs(iov));
            assert(self.writer.contents() == contents0 + spec_frame_chunk(payload));
        }
        let ghost p = self.params@;
        let ghost frames0 = self.frames@;
        let ghost sizes0 = self.frame_sizes@;
        self.frame_sizes.push(padded_size_u32);
        self.jpeg_total_size = self.jpeg_total_size + padded_size_u32 as u64;
        self.estimated_file_size = self.estimated_file_size + 8 + padded_size_u32 as u64 + 16;
        self.frames = Ghost(frames0.push(payload));
        proof {
            assert(padded_size_u32 == spec_padded(payload.len() as int) as u32);
            assert(self.frame_sizes@ =~= spec_frame_sizes(self.frames@));
            assert(sizes0.push(padded_size_u32).drop_last() =~= sizes0);
            assert(self.jpeg_total_size == spec_sum_sizes(self.frame_sizes@));
            lemma_frames_bytes_push(frames0, payload);
            assert(self.writer.contents() =~= spec_partial_file(
                p.width,
                p.height,
                p.fps,
                self.frames@,
            ));
        }
        Ok(())
    }

    #[verifier::rlimit(50)]
    fn finish(&mut self) -> (r: Result<(), MjpegError>) {
        let ghost p = self.params@;
        let ghost frames0 = self.frames@;
        let ghost sizes = self.frame_sizes@;
        let ghost jpeg = self.jpeg_total_size as int;
        let ghost count = sizes.len() as int;
        proof {
            lemma_sum_sizes_nonneg(sizes);
        }
        let file_sizes: FileSizes = match calculate_file_sizes(
            self.frame_sizes.as_slice(),
            self.jpeg_total_size,
        ) {
            Ok(fs) => fs,
            Err(e) => {
                proof {
                    assert(false);
                }
                return Err(e);
            },
        };
        let idx_header = create_idx_header(file_sizes.index_size);
        let ghost base = self.writer.contents();
        match self.writer.write_all(idx_header.as_slice()) {
            Ok(()) => {},
            Err(e) => {
                return Err(e);
            },
        }
        proof {
            lemma_write_at_end(base, idx_header@);
        }
        let ghost base1 = self.writer.contents();
        proof {
            assert(spec_index_entries(sizes.take(0), 4) =~= Seq::<u8>::empty());
            assert(base1 =~= base1 + spec_index_entries(sizes.take(0), 4));
        }
        let mut offset: u32 = 4;
        let mut i: usize = 0;
        while i < self.frame_sizes.len()
            invariant
                0 <= i <= sizes.len(),
                self.frame_sizes@ == sizes,
                self.params@ == p,
                self.frames@ == frames0,
                p == old(self).params@,
                frames0 == old(self).frames@,
                count == sizes.len(),
                jpeg == spec_sum_sizes(sizes),
                spec_movi_size(count, jpeg) <= u32::MAX,
                offset == 4 + 8 * i + spec_sum_sizes(sizes.take(i as int)),
                self.writer.contents() == base1 + spec_index_entries(sizes.take(i as int), 4),
                self.writer.position() == self.writer.contents().len(),
            decreases sizes.len() - i,
        {
            let size: u32 = self.frame_sizes[i];
            let entry = create_index_entry(offset, size);
            let ghost cpre = self.writer.contents();
            match self.writer.write_all(entry.as_slice()) {
                Ok(()) => {},
                Err(e) => {
                    return Err(e);
                },
            }
            proof {
                lemma_write_at_end(cpre, entry@);
                lemma_sum_sizes_take_succ(sizes, i as int);
                lemma_sum_sizes_take_le(sizes, i + 1);
                lemma_index_entries_snoc(sizes.take(i + 1), 4);
                assert(sizes.take(i + 1).drop_last() =~= sizes.take(i as int));
                assert(sizes.take(i + 1).last() == sizes[i as int]);
                assert(self.writer.contents() =~= base1 + spec_index_entries(
                    sizes.take(i + 1),
                    4,
                ));
                assert(4 + 8 * (i + 1) + spec_sum_sizes(sizes.take(i + 1)) <= spec_movi_size(
                    count,
                    jpeg,
                ));
            }
            offset = offset + 8 + size;
            i = i + 1;
        }
        proof {
            assert(sizes.take(count) =~= sizes);
            lemma_index_entries_len(sizes, 4);
            assert(idx_header@ + spec_index_entries(sizes, 4) =~= spec_index_chunk(sizes));
        }
        let ghost header0 = spec_header(p.width, p.height, p.fps, 0, 0, 0, 0, 0);
        let ghost body = spec_frames_bytes(frames0) + spec_index_chunk(sizes);
        proof {
            lemma_header_len(p.width, p.height, p.fps, 0, 0, 0, 0, 0);
            lemma_auto_spec_u32_to_from_le_bytes();
            assert(self.writer.contents() =~= header0 + body);
        }
        let frame_count_u32: u32 = self.frame_sizes.len() as u32;

        match self.writer.seek(4) {
            Ok(_) => {},
            Err(e) => {
                return Err(e);
            },
        }
        let b1 = u32_to_le_bytes(file_sizes.total_file_size);
        let ghost c1 = self.writer.contents();
        match self.writer.write_all(b1.as_slice()) {
            Ok(()) => {},
            Err(e) => {
                return Err(e);
            },
        }
        proof {
            lemma_write_at_prefix(
                spec_header(p.width, p.height, p.fps, 0, 0, 0, 0, 0),
                body,
                4,
                le32(file_sizes.total_file_size),
            );
            lemma_patch_file_size(
                p.width,
                p.height,
                p.fps,
                0,
                0,
                0,
                0,
                0,
                file_sizes.total_file_size,
            );
            assert(self.writer.contents() == spec_header(
                p.width,
                p.height,
                p.fps,
                file_sizes.total_file_size,
                0,
                0,
                0,
                0,
            ) + body);
        }

        match self.writer.seek(48) {
            Ok(_) => {},
            Err(e) => {
                return Err(e);
            },
        }
        let b2 = u32_to_le_bytes(frame_count_u32);
        match self.writer.write_all(b2.as_slice()) {
            Ok(()) => {},
            Err(e) => {
                return Err(e);
            },
        }
        proof {
            lemma_write_at_prefix(
                spec_header(p.width, p.height, p.fps, file_sizes.total_file_size, 0, 0, 0, 0),
                body,
                48,
                le32(frame_count_u32),
            );
            lemma_patch_total_frames(
                p.width,
                p.height,
                p.fps,
                file_sizes.total_file_size,
                0,
                0,
                0,
                0,
                frame_count_u32,
            );
            assert(self.writer.contents() == spec_header(
                p.width,
                p.height,
                p.fps,
                file_sizes.total_file_size,
                frame_count_u32,
                0,
                0,
                0,
            ) + body);
        }

        match self.writer.seek(140) {
            Ok(_) => {},
            Err(e) => {
                return Err(e);
            },
        }
        let b3 = u32_to_le_bytes(frame_count_u32);
        match self.writer.write_all(b3.as_slice()) {
            Ok(()) => {},
            Err(e) => {
                return Err(e);
            },
        }
        proof {
            lemma_write_at_prefix(
                spec_header(
                    p.width,
                    p.height,
                    p.fps,
                    file_sizes.total_file_size,
                    frame_count_u32,
                    0,
                    0,
                    0,
                ),
                body,
                140,
                le32(frame_count_u32),
            );
            lemma_patch_stream_length(
                p.width,
                p.height,
                p.fps,
                file_sizes.total_file_size,
                frame_count_u32,
                0,
                0,
                0,
                frame_count_u32,
            );
            assert(self.writer.contents() == spec_header(
                p.width,
                p.height,
                p.fps,
                file_sizes.total_file_size,
                frame_count_u32,
                frame_count_u32,
                0,
                0,
            ) + body);
        }

        match self.writer.seek(240) {
            Ok(_) => {},
            Err(e) => {
                return Err(e);
            },
        }
        let b4 = u32_to_le_bytes(frame_count_u32);
        match self.writer.write_all(b4.as_slice()) {
            Ok(()) => {},
            Err(e) => {
                return Err(e);
            },
        }
        proof {
            lemma_write_at_prefix(
                spec_header(
                    p.width,
                    p.height,
                    p.fps,
                    file_sizes.total_file_size,
                    frame_count_u32,
                    frame_count_u32,
                    0,
                    0,
                ),
                body,
                240,
                le32(frame_count_u32),
            );
            lemma_patch_odml_frames(
                p.width,
                p.height,
                p.fps,
                file_sizes.total_file_size,
                frame_count_u32,
                frame_count_u32,
                0,
                0,
                frame_count_u32,
            );
            assert(self.writer.contents() == spec_header(
                p.width,
                p.height,
                p.fps,
                file_sizes.total_file_size,
                frame_count_u32,
                frame_count_u32,
                frame_count_u32,
                0,
            ) + body);
        }

        match self.writer.seek(248) {
            Ok(_) => {},
            Err(e) => {
                return Err(e);
            },
        }
        let b5 = u32_to_le_bytes(file_sizes.movi_size);
        match self.writer.write_all(b5.as_slice()) {
            Ok(()) => {},
            Err(e) => {
                return Err(e);
            },
        }
        proof {
            lemma_write_at_prefix(
                spec_header(
                    p.width,
                    p.height,
                    p.fps,
                    file_sizes.total_file_size,
                    frame_count_u32,
                    frame_count_u32,
                    frame_count_u32,
                    0,
                ),
                body,
                248,
                le32(file_sizes.movi_size),
            );
            lemma_patch_movi_size(
                p.width,
                p.height,
                p.fps,
                file_sizes.total_file_size,
                frame_count_u32,
                frame_count_u32,
                frame_count_u32,
                0,
                file_sizes.movi_size,
            );
            assert(self.writer.contents() == spec_header(
                p.width,
                p.height,
                p.fps,
                file_sizes.total_file_size,
                frame_count_u32,
                frame_count_u32,
                frame_count_u32,
                file_sizes.movi_size,
            ) + body);
            assert(self.writer.contents() =~= spec_final_file(
                p.width,
                p.height,
                p.fps,
                frames0,
            ));
        }
        Ok(())
    }
}

} // verus!
