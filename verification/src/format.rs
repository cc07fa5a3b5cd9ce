//! Byte-level model of the RIFF/AVI container and the verified builders for
//! its pieces: the 256-byte header, per-frame chunks, and the index chunk.
//!
//! All multi-byte integers in the container are little-endian.  The header is
//! written once at construction with five placeholder fields zero-filled; the
//! finalizer patches them at fixed offsets (4, 48, 140, 240, 248) once the
//! totals are known.

use vstd::prelude::*;
use vstd::bytes::{spec_u32_to_le_bytes, u32_to_le_bytes, lemma_auto_spec_u32_to_from_le_bytes};
use crate::error::MjpegError;

verus! {

/// Hard ceiling on the container size: 2 GiB - 1, the classic RIFF limit.
pub const MAX_AVI_FILE_SIZE: u64 = 2_147_483_648 - 1;

/// Practical upper bound on the number of frames one container may hold.
pub const MAX_FRAME_COUNT: u32 = 1_000_000;

/// Little-endian encoding of a 32-bit value, the container's scalar format.
pub open spec fn le32(x: u32) -> Seq<u8> {
    spec_u32_to_le_bytes(x)
}

/// `n` zero bytes.
pub open spec fn zero_bytes(n: nat) -> Seq<u8> {
    Seq::new(n, |i: int| 0u8)
}

pub open spec fn tag_riff() -> Seq<u8> {
    seq![82u8, 73u8, 70u8, 70u8]
}

pub open spec fn tag_avi_form() -> Seq<u8> {
    seq![65u8, 86u8, 73u8, 32u8]
}

pub open spec fn tag_list() -> Seq<u8> {
    seq![76u8, 73u8, 83u8, 84u8]
}

pub open spec fn tag_hdrl() -> Seq<u8> {
    seq![104u8, 100u8, 114u8, 108u8]
}

pub open spec fn tag_avih() -> Seq<u8> {
    seq![97u8, 118u8, 105u8, 104u8]
}

pub open spec fn tag_strl() -> Seq<u8> {
    seq![115u8, 116u8, 114u8, 108u8]
}

pub open spec fn tag_strh() -> Seq<u8> {
    seq![115u8, 116u8, 114u8, 104u8]
}

pub open spec fn tag_vids() -> Seq<u8> {
    seq![118u8, 105u8, 100u8, 115u8]
}

pub open spec fn tag_mjpg() -> Seq<u8> {
    seq![77u8, 74u8, 80u8, 71u8]
}

pub open spec fn tag_strf() -> Seq<u8> {
    seq![115u8, 116u8, 114u8, 102u8]
}

pub open spec fn tag_odml() -> Seq<u8> {
    seq![111u8, 100u8, 109u8, 108u8]
}

pub open spec fn tag_dmlh() -> Seq<u8> {
    seq![100u8, 109u8, 108u8, 104u8]
}

pub open spec fn tag_movi() -> Seq<u8> {
    seq![109u8, 111u8, 118u8, 105u8]
}

/// Stream tag of the single video stream: stream 0, compressed-DIB data.
pub open spec fn tag_00dc() -> Seq<u8> {
    seq![48u8, 48u8, 100u8, 99u8]
}

pub open spec fn tag_idx1() -> Seq<u8> {
    seq![105u8, 100u8, 120u8, 49u8]
}

/// Microseconds per frame: `1_000_000 / fps`, truncating integer division.
pub open spec fn spec_microsec_per_frame(fps: u32) -> u32
    recommends
        fps >= 1,
{
    (1_000_000int / (fps as int)) as u32
}

/// Nominal uncompressed bitmap size: the 24-bit-per-pixel row stride rounded
/// up to a 4-byte boundary, times the height, truncated to 32 bits.
pub open spec fn spec_bi_size_image(width: u32, height: u32) -> u32 {
    (((((width as int) * 24 / 8 + 3) / 4 * 4) * (height as int)) % 0x1_0000_0000) as u32
}

/// Header bytes 8..48: form type through the avih flags field.
pub open spec fn spec_header_seg_a(fps: u32) -> Seq<u8> {
    tag_avi_form() + tag_list() + le32(224) + tag_hdrl() + tag_avih() + le32(56)
        + le32(spec_microsec_per_frame(fps)) + le32(7000) + le32(0) + le32(0x10)
}

/// Header bytes 52..140: the rest of avih, the strl list, and the leading
/// strh fields, with the frame rate at bytes 128..132.
pub open spec fn spec_header_seg_b(width: u32, height: u32, fps: u32) -> Seq<u8> {
    le32(0) + le32(1) + le32(0) + le32(width) + le32(height) + zero_bytes(16) + tag_list()
        + le32(148) + tag_strl() + tag_strh() + le32(64) + tag_vids() + tag_mjpg() + le32(0)
        + zero_bytes(4) + le32(0) + le32(fps) + le32(0) + le32(0)
}

/// Header bytes 144..240: the trailing strh fields, the strf bitmap info,
/// and the odml list up to its total-frames placeholder.
pub open spec fn spec_header_seg_c(width: u32, height: u32) -> Seq<u8> {
    le32(0) + le32(0) + le32(0) + le32(0) + le32(0) + le32(width) + le32(height) + tag_strf()
        + le32(40) + le32(40) + le32(width) + le32(height) + seq![1u8, 0u8, 24u8, 0u8]
        + tag_mjpg() + le32(spec_bi_size_image(width, height)) + zero_bytes(16) + tag_list()
        + le32(16) + tag_odml() + tag_dmlh() + le32(4)
}

/// The full 256-byte header.  The last five parameters are the fields whose
/// true values are only known at finalization; the header is first written
/// with all five zero-filled.
pub open spec fn spec_header(
    width: u32,
    height: u32,
    fps: u32,
    file_size: u32,
    total_frames: u32,
    stream_length: u32,
    odml_frames: u32,
    movi_size: u32,
) -> Seq<u8> {
    tag_riff() + le32(file_size) + spec_header_seg_a(fps) + le32(total_frames)
        + spec_header_seg_b(width, height, fps) + le32(stream_length)
        + spec_header_seg_c(width, height) + le32(odml_frames) + tag_list() + le32(movi_size)
        + tag_movi()
}

/// The even-padded size of a frame payload.
pub open spec fn spec_padded(len: int) -> int {
    if len % 2 == 1 {
        len + 1
    } else {
        len
    }
}

/// The bytes one frame contributes to the payload list: an 8-byte chunk
/// header, the payload, and a single zero byte when the payload length is
/// odd.
pub open spec fn spec_frame_chunk(frame: Seq<u8>) -> Seq<u8>
    recommends
        frame.len() <= u32::MAX,
{
    tag_00dc() + le32(spec_padded(frame.len() as int) as u32) + frame + if frame.len() % 2 == 1 {
        seq![0u8]
    } else {
        Seq::<u8>::empty()
    }
}

/// The concatenated frame chunks of all frames, in arrival order.
pub open spec fn spec_frames_bytes(frames: Seq<Seq<u8>>) -> Seq<u8>
    decreases frames.len(),
{
    if frames.len() == 0 {
        Seq::<u8>::empty()
    } else {
        spec_frames_bytes(frames.drop_last()) + spec_frame_chunk(frames.last())
    }
}

/// One 16-byte index entry: stream tag, key-frame flag, offset of the
/// frame's chunk header relative to the start of the payload list, and the
/// frame's padded size.
pub open spec fn spec_index_entry(offset: u32, size: u32) -> Seq<u8> {
    tag_00dc() + le32(0x10) + le32(offset) + le32(size)
}

/// The index entries for `sizes`, the first at offset `offset`; each later
/// entry's offset advances by the 8-byte chunk header plus the padded size.
pub open spec fn spec_index_entries(sizes: Seq<u32>, offset: int) -> Seq<u8>
    decreases sizes.len(),
{
    if sizes.len() == 0 {
        Seq::<u8>::empty()
    } else {
        spec_index_entry(offset as u32, sizes[0]) + spec_index_entries(
            sizes.skip(1),
            offset + 8 + sizes[0],
        )
    }
}

/// The whole index chunk: its 8-byte header and one entry per frame, the
/// first frame's chunk header sitting 4 bytes into the payload list.
pub open spec fn spec_index_chunk(sizes: Seq<u32>) -> Seq<u8> {
    tag_idx1() + le32((16 * sizes.len()) as u32) + spec_index_entries(sizes, 4)
}

/// Sum of the recorded (padded) frame sizes.
pub open spec fn spec_sum_sizes(sizes: Seq<u32>) -> int
    decreases sizes.len(),
{
    if sizes.len() == 0 {
        0
    } else {
        spec_sum_sizes(sizes.drop_last()) + sizes.last()
    }
}

/// The padded size recorded for each frame, in arrival order.
pub open spec fn spec_frame_sizes(frames: Seq<Seq<u8>>) -> Seq<u32> {
    Seq::new(frames.len(), |i: int| spec_padded(frames[i].len() as int) as u32)
}

/// Sink contents of a writer that is still accepting frames: the header
/// with its placeholders zero-filled, followed by the frame chunks.
pub open spec fn spec_partial_file(width: u32, height: u32, fps: u32, frames: Seq<Seq<u8>>) -> Seq<
    u8,
> {
    spec_header(width, height, fps, 0, 0, 0, 0, 0) + spec_frames_bytes(frames)
}

pub proof fn lemma_header_len(
    width: u32,
    height: u32,
    fps: u32,
    file_size: u32,
    total_frames: u32,
    stream_length: u32,
    odml_frames: u32,
    movi_size: u32,
)
    ensures
        spec_header_seg_a(fps).len() == 40,
        spec_header_seg_b(width, height, fps).len() == 88,
        spec_header_seg_c(width, height).len() == 96,
        spec_header(
            width,
            height,
            fps,
            file_size,
            total_frames,
            stream_length,
            odml_frames,
            movi_size,
        ).len() == 256,
{
    lemma_auto_spec_u32_to_from_le_bytes();
}

/// Appending a frame appends exactly that frame's chunk bytes.
pub proof fn lemma_frames_bytes_push(frames: Seq<Seq<u8>>, f: Seq<u8>)
    ensures
        spec_frames_bytes(frames.push(f)) == spec_frames_bytes(frames) + spec_frame_chunk(f),
{
    assert(frames.push(f).drop_last() =~= frames);
    assert(frames.push(f).last() == f);
}

/// A frame's chunk occupies its 8-byte header plus its padded payload.
pub proof fn lemma_frame_chunk_len(f: Seq<u8>)
    ensures
        spec_frame_chunk(f).len() == 8 + spec_padded(f.len() as int),
{
    lemma_auto_spec_u32_to_from_le_bytes();
}

/// The frame chunks of `frames` occupy the sum of the padded sizes plus 8
/// bytes of chunk header per frame.
pub proof fn lemma_frames_bytes_len(frames: Seq<Seq<u8>>)
    requires
        forall|i: int|
            0 <= i < frames.len() ==> #[trigger] spec_padded(frames[i].len() as int) <= u32::MAX,
    ensures
        spec_frames_bytes(frames).len() == 8 * frames.len() + spec_sum_sizes(
            spec_frame_sizes(frames),
        ),
    decreases frames.len(),
{
    if frames.len() == 0 {
    } else {
        assert(forall|i: int|
            0 <= i < frames.drop_last().len() ==> #[trigger] spec_padded(
                frames.drop_last()[i].len() as int,
            ) <= u32::MAX);
        lemma_frames_bytes_len(frames.drop_last());
        lemma_frame_chunk_len(frames.last());
        assert(spec_frame_sizes(frames).drop_last() =~= spec_frame_sizes(frames.drop_last()));
        assert(spec_padded(frames[frames.len() - 1].len() as int) <= u32::MAX);
        assert(spec_frame_sizes(frames).last() == spec_padded(
            frames.last().len() as int,
        ) as u32);
    }
}

/// Every sum of recorded sizes is nonnegative.
pub proof fn lemma_sum_sizes_nonneg(sizes: Seq<u32>)
    ensures
        0 <= spec_sum_sizes(sizes),
    decreases sizes.len(),
{
    if sizes.len() > 0 {
        lemma_sum_sizes_nonneg(sizes.drop_last());
    }
}

/// Extending a prefix by one element adds that element to its sum.
pub proof fn lemma_sum_sizes_take_succ(sizes: Seq<u32>, i: int)
    requires
        0 <= i < sizes.len(),
    ensures
        spec_sum_sizes(sizes.take(i + 1)) == spec_sum_sizes(sizes.take(i)) + sizes[i],
{
    assert(sizes.take(i + 1).drop_last() =~= sizes.take(i));
    assert(sizes.take(i + 1).last() == sizes[i]);
}

/// A prefix sum never exceeds the whole sum.
pub proof fn lemma_sum_sizes_take_le(sizes: Seq<u32>, i: int)
    requires
        0 <= i <= sizes.len(),
    ensures
        spec_sum_sizes(sizes.take(i)) <= spec_sum_sizes(sizes),
    decreases sizes.len() - i,
{
    if i == sizes.len() {
        assert(sizes.take(i) =~= sizes);
    } else {
        lemma_sum_sizes_take_succ(sizes, i);
        lemma_sum_sizes_take_le(sizes, i + 1);
    }
}

/// A sum can also be peeled from the front.
pub proof fn lemma_sum_sizes_front(sizes: Seq<u32>)
    requires
        sizes.len() >= 1,
    ensures
        spec_sum_sizes(sizes) == sizes[0] + spec_sum_sizes(sizes.skip(1)),
    decreases sizes.len(),
{
    if sizes.len() == 1 {
        assert(sizes.skip(1) =~= Seq::<u32>::empty());
        assert(sizes.drop_last() =~= Seq::<u32>::empty());
    } else {
        lemma_sum_sizes_front(sizes.drop_last());
        assert(sizes.skip(1).drop_last() =~= sizes.drop_last().skip(1));
        assert(sizes.skip(1).last() == sizes.last());
        assert(sizes.drop_last()[0] == sizes[0]);
    }
}

/// The index entries occupy 16 bytes per frame.
pub proof fn lemma_index_entries_len(sizes: Seq<u32>, offset: int)
    ensures
        spec_index_entries(sizes, offset).len() == 16 * sizes.len(),
    decreases sizes.len(),
{
    lemma_auto_spec_u32_to_from_le_bytes();
    if sizes.len() > 0 {
        lemma_index_entries_len(sizes.skip(1), offset + 8 + sizes[0]);
    }
}

/// The index entries for `sizes` end with the entry for the last frame,
/// whose offset is the starting offset advanced by every earlier frame's
/// chunk header and padded size.
pub proof fn lemma_index_entries_snoc(sizes: Seq<u32>, offset: int)
    requires
        sizes.len() >= 1,
    ensures
        spec_index_entries(sizes, offset) == spec_index_entries(sizes.drop_last(), offset)
            + spec_index_entry(
            (offset + 8 * (sizes.len() - 1) + spec_sum_sizes(sizes.drop_last())) as u32,
            sizes.last(),
        ),
    decreases sizes.len(),
{
    if sizes.len() == 1 {
        assert(sizes.drop_last() =~= Seq::<u32>::empty());
        assert(spec_index_entries(sizes, offset) =~= spec_index_entry(
            offset as u32,
            sizes[0],
        ) + spec_index_entries(sizes.skip(1), offset + 8 + sizes[0]));
        assert(sizes.skip(1) =~= Seq::<u32>::empty());
        assert(spec_index_entries(sizes, offset) =~= spec_index_entries(sizes.drop_last(), offset)
            + spec_index_entry((offset + 0 + 0) as u32, sizes.last()));
    } else {
        let tail = sizes.skip(1);
        lemma_index_entries_snoc(tail, offset + 8 + sizes[0]);
        lemma_sum_sizes_front(sizes.drop_last());
        assert(tail.drop_last() =~= sizes.drop_last().skip(1));
        assert(tail.last() == sizes.last());
        assert(sizes.drop_last()[0] == sizes[0]);
        assert(spec_sum_sizes(sizes.drop_last()) == sizes[0] + spec_sum_sizes(tail.drop_last()));
        assert(spec_index_entries(sizes.drop_last(), offset) == spec_index_entry(
            offset as u32,
            sizes[0],
        ) + spec_index_entries(sizes.drop_last().skip(1), offset + 8 + sizes[0]));
        assert(spec_index_entries(sizes, offset) =~= spec_index_entries(sizes.drop_last(), offset)
            + spec_index_entry(
            (offset + 8 * (sizes.len() - 1) + spec_sum_sizes(sizes.drop_last())) as u32,
            sizes.last(),
        ));
    }
}

/// Appends the little-endian encoding of `x`.
pub fn push_le32(v: &mut Vec<u8>, x: u32)
    ensures
        final(v)@ == old(v)@ + le32(x),
{
    let mut b = u32_to_le_bytes(x);
    v.append(&mut b);
}

/// Appends four literal bytes.
fn push_bytes4(v: &mut Vec<u8>, a: u8, b: u8, c: u8, d: u8)
    ensures
        final(v)@ == old(v)@ + seq![a, b, c, d],
{
    v.push(a);
    v.push(b);
    v.push(c);
    v.push(d);
    assert(v@ =~= old(v)@ + seq![a, b, c, d]);
}

/// Appends `n` zero bytes.
fn push_zeros(v: &mut Vec<u8>, n: usize)
    ensures
        final(v)@ == old(v)@ + zero_bytes(n as nat),
{
    let mut i: usize = 0;
    while i < n
        invariant
            i <= n,
            v@ == old(v)@ + zero_bytes(i as nat),
        decreases n - i,
    {
        v.push(0u8);
        assert(v@ =~= old(v)@ + zero_bytes((i + 1) as nat));
        i = i + 1;
    }
}

/// Builds the 256-byte header with the caller's parameters filled in and the
/// five finalization fields zero-filled.
pub fn create_header_template(fps: u32, width: u32, height: u32) -> (r: Vec<u8>)
    requires
        fps >= 1,
    ensures
        r@ == spec_header(width, height, fps, 0, 0, 0, 0, 0),
        r@.len() == 256,
{
    proof {
        lemma_auto_spec_u32_to_from_le_bytes();
    }
    let microsec: u32 = 1_000_000 / fps;
    let stride: u128 = ((width as u128) * 24 / 8 + 3) / 4 * 4;
    proof {
        assert(stride * (height as u128) < 0x1_0000_0000_0000_0000_0000u128) by (nonlinear_arith)
            requires
                stride < 0x4_0000_0000u128,
                height <= 0xFFFF_FFFFu32,
        ;
    }
    let image_size: u32 = ((stride * (height as u128)) % 0x1_0000_0000) as u32;
    proof {
        assert(microsec == spec_microsec_per_frame(fps));
        assert(image_size == spec_bi_size_image(width, height));
    }
    let mut v: Vec<u8> = Vec::new();
    push_bytes4(&mut v, 82, 73, 70, 70);
    push_le32(&mut v, 0);
    let ghost m0 = v@;
    assert(m0 =~= tag_riff() + le32(0));
    push_bytes4(&mut v, 65, 86, 73, 32);
    push_bytes4(&mut v, 76, 73, 83, 84);
    push_le32(&mut v, 224);
    push_bytes4(&mut v, 104, 100, 114, 108);
    push_bytes4(&mut v, 97, 118, 105, 104);
    push_le32(&mut v, 56);
    push_le32(&mut v, microsec);
    push_le32(&mut v, 7000);
    push_le32(&mut v, 0);
    push_le32(&mut v, 0x10);
    let ghost m1 = v@;
    assert(m1 =~= m0 + spec_header_seg_a(fps));
    push_le32(&mut v, 0);
    let ghost m2 = v@;
    push_le32(&mut v, 0);
    push_le32(&mut v, 1);
    push_le32(&mut v, 0);
    push_le32(&mut v, width);
    push_le32(&mut v, height);
    push_zeros(&mut v, 16);
    push_bytes4(&mut v, 76, 73, 83, 84);
    push_le32(&mut v, 148);
    push_bytes4(&mut v, 115, 116, 114, 108);
    push_bytes4(&mut v, 115, 116, 114, 104);
    push_le32(&mut v, 64);
    push_bytes4(&mut v, 118, 105, 100, 115);
    push_bytes4(&mut v, 77, 74, 80, 71);
    push_le32(&mut v, 0);
    push_zeros(&mut v, 4);
    push_le32(&mut v, 0);
    push_le32(&mut v, fps);
    push_le32(&mut v, 0);
    push_le32(&mut v, 0);
    let ghost m3 = v@;
    assert(m3 =~= m2 + spec_header_seg_b(width, height, fps));
    push_le32(&mut v, 0);
    let ghost m4 = v@;
    push_le32(&mut v, 0);
    push_le32(&mut v, 0);
    push_le32(&mut v, 0);
    push_le32(&mut v, 0);
    push_le32(&mut v, 0);
    push_le32(&mut v, width);
    push_le32(&mut v, height);
    push_bytes4(&mut v, 115, 116, 114, 102);
    push_le32(&mut v, 40);
    push_le32(&mut v, 40);
    push_le32(&mut v, width);
    push_le32(&mut v, height);
    push_bytes4(&mut v, 1, 0, 24, 0);
    push_bytes4(&mut v, 77, 74, 80, 71);
    push_le32(&mut v, image_size);
    push_zeros(&mut v, 16);
    push_bytes4(&mut v, 76, 73, 83, 84);
    push_le32(&mut v, 16);
    push_bytes4(&mut v, 111, 100, 109, 108);
    push_bytes4(&mut v, 100, 109, 108, 104);
    push_le32(&mut v, 4);
    let ghost m5 = v@;
    assert(m5 =~= m4 + spec_header_seg_c(width, height));
    push_le32(&mut v, 0);
    push_bytes4(&mut v, 76, 73, 83, 84);
    push_le32(&mut v, 0);
    push_bytes4(&mut v, 109, 111, 118, 105);
    assert(v@ == spec_header(width, height, fps, 0, 0, 0, 0, 0));
    assert(v@.len() == 256);
    v
}

/// Builds the frame chunk header: the stream tag followed by the padded
/// payload size.
pub fn create_frame_chunk_header(size: u32) -> (r: Vec<u8>)
    ensures
        r@ == tag_00dc() + le32(size),
        r@.len() == 8,
{
    let mut v: Vec<u8> = Vec::new();
    push_bytes4(&mut v, 48u8, 48u8, 100u8, 99u8);
    push_le32(&mut v, size);
    proof {
        lemma_auto_spec_u32_to_from_le_bytes();
        assert(v@ =~= tag_00dc() + le32(size));
    }
    v
}

/// Builds one index entry from a frame's offset and padded size.
pub fn create_index_entry(offset: u32, size: u32) -> (r: Vec<u8>)
    ensures
        r@ == spec_index_entry(offset, size),
        r@.len() == 16,
{
    let mut v: Vec<u8> = Vec::new();
    push_bytes4(&mut v, 48u8, 48u8, 100u8, 99u8);
    push_le32(&mut v, 0x10);
    push_le32(&mut v, offset);
    push_le32(&mut v, size);
    proof {
        lemma_auto_spec_u32_to_from_le_bytes();
        assert(v@ =~= spec_index_entry(offset, size));
    }
    v
}

/// Builds the index chunk header: the index tag followed by the index size.
pub fn create_idx_header(index_size: u32) -> (r: Vec<u8>)
    ensures
        r@ == tag_idx1() + le32(index_size),
        r@.len() == 8,
{
    let mut v: Vec<u8> = Vec::new();
    push_bytes4(&mut v, 105u8, 100u8, 120u8, 49u8);
    push_le32(&mut v, index_size);
    proof {
        lemma_auto_spec_u32_to_from_le_bytes();
        assert(v@ =~= tag_idx1() + le32(index_size));
    }
    v
}


/// Builds the complete index chunk for the recorded frame sizes: the
/// 8-byte index header followed by one 16-byte entry per frame, offsets
/// accumulated exactly as the finalizer writes them.  Fails with the
/// file-size error exactly when the index size or the final offset would
/// not fit its 32-bit field.
pub fn build_index_chunk(frame_sizes: &[u32]) -> (r: Result<Vec<u8>, MjpegError>)
    ensures
        match r {
            Ok(v) => {
                &&& 16 * frame_sizes@.len() <= u32::MAX
                &&& 4 + 8 * frame_sizes@.len() + spec_sum_sizes(frame_sizes@) <= u32::MAX
                &&& v@ == spec_index_chunk(frame_sizes@)
            },
            Err(MjpegError::FileSizeExceeded) => {
                ||| 16 * frame_sizes@.len() > u32::MAX
                ||| 4 + 8 * frame_sizes@.len() + spec_sum_sizes(frame_sizes@) > u32::MAX
            },
            Err(_) => false,
        },
{
    let ghost sizes = frame_sizes@;
    let n: usize = frame_sizes.len();
    if n > (u32::MAX / 16) as usize {
        proof {
            lemma_sum_sizes_nonneg(sizes);
        }
        return Err(MjpegError::FileSizeExceeded);
    }
    let index_size: u32 = (n as u32) * 16;
    let mut v: Vec<u8> = create_idx_header(index_size);
    let mut offset: u32 = 4;
    let mut i: usize = 0;
    proof {
        assert(spec_index_entries(sizes.take(0), 4) =~= Seq::<u8>::empty());
        assert(v@ =~= v@ + spec_index_entries(sizes.take(0), 4));
    }
    let ghost header = v@;
    while i < n
        invariant
            0 <= i <= n,
            n == sizes.len(),
            frame_sizes@ == sizes,
            n <= (u32::MAX / 16) as usize,
            offset == 4 + 8 * i + spec_sum_sizes(sizes.take(i as int)),
            offset <= u32::MAX,
            header == tag_idx1() + le32((16 * sizes.len()) as u32),
            v@ == header + spec_index_entries(sizes.take(i as int), 4),
        decreases n - i,
    {
        let size: u32 = frame_sizes[i];
        let mut entry = create_index_entry(offset, size);
        v.append(&mut entry);
        proof {
            lemma_sum_sizes_take_succ(sizes, i as int);
            lemma_index_entries_snoc(sizes.take(i + 1), 4);
            assert(sizes.take(i + 1).drop_last() =~= sizes.take(i as int));
            assert(sizes.take(i + 1).last() == sizes[i as int]);
            assert(v@ =~= header + spec_index_entries(sizes.take(i + 1), 4));
        }
        if offset > u32::MAX - 8 || offset + 8 > u32::MAX - size {
            proof {
                lemma_sum_sizes_nonneg(sizes.skip(i + 1));
                lemma_sum_take_skip(sizes, i + 1);
            }
            return Err(MjpegError::FileSizeExceeded);
        }
        offset = offset + 8 + size;
        i = i + 1;
    }
    proof {
        assert(sizes.take(n as int) =~= sizes);
        lemma_sum_sizes_nonneg(sizes);
    }
    Ok(v)
}

/// Splitting a sum at any point yields the sums of the two parts.
pub proof fn lemma_sum_take_skip(sizes: Seq<u32>, i: int)
    requires
        0 <= i <= sizes.len(),
    ensures
        spec_sum_sizes(sizes) == spec_sum_sizes(sizes.take(i)) + spec_sum_sizes(sizes.skip(i)),
    decreases sizes.len() - i,
{
    if i == sizes.len() {
        assert(sizes.take(i) =~= sizes);
        assert(sizes.skip(i) =~= Seq::<u32>::empty());
    } else {
        lemma_sum_take_skip(sizes, i + 1);
        lemma_sum_sizes_take_succ(sizes, i);
        lemma_sum_sizes_front(sizes.skip(i));
        assert(sizes.skip(i)[0] == sizes[i]);
        assert(sizes.skip(i).skip(1) =~= sizes.skip(i + 1));
    }
}

/// The five header patches of finalization, in the order they are applied:
/// each pair holds the absolute byte offset and the 4-byte little-endian
/// value written there — the RIFF file size at 4, the frame count at 48,
/// 140 and 240, and the payload-list size at 248.
pub fn finalize_patches(frame_count: u32, total_file_size: u32, movi_size: u32) -> (r: Vec<
    (u64, Vec<u8>),
>)
    ensures
        r@.len() == 5,
        r@[0].0 == 4 && r@[0].1@ == le32(total_file_size),
        r@[1].0 == 48 && r@[1].1@ == le32(frame_count),
        r@[2].0 == 140 && r@[2].1@ == le32(frame_count),
        r@[3].0 == 240 && r@[3].1@ == le32(frame_count),
        r@[4].0 == 248 && r@[4].1@ == le32(movi_size),
{
    let mut v: Vec<(u64, Vec<u8>)> = Vec::new();
    v.push((4u64, u32_to_le_bytes(total_file_size)));
    v.push((48u64, u32_to_le_bytes(frame_count)));
    v.push((140u64, u32_to_le_bytes(frame_count)));
    v.push((240u64, u32_to_le_bytes(frame_count)));
    v.push((248u64, u32_to_le_bytes(movi_size)));
    v
}

} // verus!
