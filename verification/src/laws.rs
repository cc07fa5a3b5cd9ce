//! The container-level guarantees stated as theorems: what the header
//! holds for every valid parameter set, how payloads are padded, that
//! fragmented and single-buffer appends write identical bytes, and where
//! each index entry points.

use vstd::prelude::*;
use vstd::bytes::lemma_auto_spec_u32_to_from_le_bytes;
use crate::format::{
    le32, spec_header, spec_padded, spec_frame_chunk, spec_frame_sizes, spec_index_entry,
    spec_index_entries, spec_sum_sizes, tag_riff, tag_avi_form, lemma_header_len,
    lemma_frame_chunk_len, lemma_frames_bytes_len, lemma_index_entries_len,
    lemma_sum_sizes_front,
};
use crate::sizes::spec_total_file_size;
use crate::mjpeg_sync::spec_final_file;
use crate::writer::spec_concat_bufs;

verus! {

/// Header round-trip: in every header the writer emits, bytes 0..4 read
/// "RIFF" and bytes 8..12 read "AVI "; bytes 128..132 hold the frame rate,
/// and the width and height appear at bytes 64..68/68..72, 164..168/168..172
/// and 184..188/188..192.
pub proof fn lemma_header_round_trip(
    width: u32,
    height: u32,
    fps: u32,
    file_size: u32,
    total_frames: u32,
    stream_length: u32,
    odml_frames: u32,
    movi_size: u32,
)
    ensures
        ({
            let h = spec_header(
                width,
                height,
                fps,
                file_size,
                total_frames,
                stream_length,
                odml_frames,
                movi_size,
            );
            &&& h.len() == 256
            &&& h.subrange(0, 4) == tag_riff()
            &&& h.subrange(8, 12) == tag_avi_form()
            &&& h.subrange(4, 8) == le32(file_size)
            &&& h.subrange(48, 52) == le32(total_frames)
            &&& h.subrange(64, 68) == le32(width)
            &&& h.subrange(68, 72) == le32(height)
            &&& h.subrange(128, 132) == le32(fps)
            &&& h.subrange(140, 144) == le32(stream_length)
            &&& h.subrange(164, 168) == le32(width)
            &&& h.subrange(168, 172) == le32(height)
            &&& h.subrange(184, 188) == le32(width)
            &&& h.subrange(188, 192) == le32(height)
            &&& h.subrange(240, 244) == le32(odml_frames)
            &&& h.subrange(248, 252) == le32(movi_size)
        }),
{
    lemma_auto_spec_u32_to_from_le_bytes();
    lemma_header_len(
        width,
        height,
        fps,
        file_size,
        total_frames,
        stream_length,
        odml_frames,
        movi_size,
    );
    let h = spec_header(
        width,
        height,
        fps,
        file_size,
        total_frames,
        stream_length,
        odml_frames,
        movi_size,
    );
    assert(h.subrange(0, 4) =~= tag_riff());
    assert(h.subrange(8, 12) =~= tag_avi_form());
    assert(h.subrange(4, 8) =~= le32(file_size));
    assert(h.subrange(48, 52) =~= le32(total_frames));
    assert(h.subrange(64, 68) =~= le32(width));
    assert(h.subrange(68, 72) =~= le32(height));
    assert(h.subrange(128, 132) =~= le32(fps));
    assert(h.subrange(140, 144) =~= le32(stream_length));
    assert(h.subrange(164, 168) =~= le32(width));
    assert(h.subrange(168, 172) =~= le32(height));
    assert(h.subrange(184, 188) =~= le32(width));
    assert(h.subrange(188, 192) =~= le32(height));
    assert(h.subrange(240, 244) =~= le32(odml_frames));
    assert(h.subrange(248, 252) =~= le32(movi_size));
}

/// Padding invariant: the bytes a frame chunk holds after its 8-byte header
/// are always of even count — the payload length when it is even, one more
/// when it is odd — the payload itself is written unchanged, and the extra
/// byte, when present, is zero.
pub proof fn lemma_frame_padding(frame: Seq<u8>)
    ensures
        spec_frame_chunk(frame).len() == 8 + spec_padded(frame.len() as int),
        spec_padded(frame.len() as int) % 2 == 0,
        spec_frame_chunk(frame).subrange(8, 8 + frame.len() as int) == frame,
        frame.len() % 2 == 1 ==> spec_frame_chunk(frame).last() == 0,
{
    lemma_auto_spec_u32_to_from_le_bytes();
    lemma_frame_chunk_len(frame);
    assert(spec_frame_chunk(frame).subrange(8, 8 + frame.len() as int) =~= frame);
}

/// Vectored/single equivalence: appending the fragments `[a, b]` hands the
/// sink exactly the bytes that appending the single concatenation `a ++ b`
/// hands it.
pub proof fn lemma_vectored_single_equivalence(a: Seq<u8>, b: Seq<u8>)
    ensures
        spec_frame_chunk(spec_concat_bufs(seq![a, b])) == spec_frame_chunk(a + b),
{
    let e = Seq::<Seq<u8>>::empty();
    e.lemma_flatten_push(a);
    e.push(a).lemma_flatten_push(b);
    assert(e.push(a).push(b) =~= seq![a, b]);
    assert(e.flatten() == Seq::<u8>::empty());
    assert(Seq::<u8>::empty() + a =~= a);
    assert(spec_concat_bufs(seq![a, b]) == a + b);
}

/// Index correctness: the `n`th index entry names the offset
/// `4 + sum of (8 + size_i) over i < n` and the `n`th recorded size.  The
/// bound keeps every offset inside its 32-bit field, as the finalizer
/// guarantees.
pub proof fn lemma_index_entry_at(sizes: Seq<u32>, offset: int, n: int)
    requires
        0 <= n < sizes.len(),
        0 <= offset,
        offset + 8 * sizes.len() + spec_sum_sizes(sizes) <= u32::MAX,
    ensures
        spec_index_entries(sizes, offset).subrange(16 * n, 16 * n + 16) == spec_index_entry(
            (offset + 8 * n + spec_sum_sizes(sizes.take(n))) as u32,
            sizes[n],
        ),
    decreases n,
{
    lemma_auto_spec_u32_to_from_le_bytes();
    crate::format::lemma_sum_sizes_nonneg(sizes.take(n));
    crate::format::lemma_index_entries_len(sizes.skip(1), offset + 8 + sizes[0]);
    if n == 0 {
        assert(sizes.take(0) =~= Seq::<u32>::empty());
        assert(spec_index_entries(sizes, offset).subrange(0, 16) =~= spec_index_entry(
            offset as u32,
            sizes[0],
        ));
    } else {
        let tail = sizes.skip(1);
        let offset2 = offset + 8 + sizes[0];
        assert(tail.len() == sizes.len() - 1);
        crate::format::lemma_sum_sizes_nonneg(tail);
        lemma_sum_sizes_front(sizes);
        lemma_sum_sizes_front(sizes.take(n));
        assert(sizes.take(n)[0] == sizes[0]);
        assert(sizes.take(n).skip(1) =~= tail.take(n - 1));
        lemma_index_entry_at(tail, offset2, n - 1);
        assert(spec_index_entries(sizes, offset) == spec_index_entry(offset as u32, sizes[0])
            + spec_index_entries(tail, offset2));
        assert(spec_index_entries(sizes, offset).subrange(16 * n, 16 * n + 16)
            =~= spec_index_entries(tail, offset2).subrange(16 * (n - 1), 16 * (n - 1) + 16));
        assert(offset2 + 8 * (n - 1) + spec_sum_sizes(tail.take(n - 1)) == offset + 8 * n
            + spec_sum_sizes(sizes.take(n)));
        assert(tail[n - 1] == sizes[n]);
    }
}

/// The RIFF size field undercounts the finalized container by exactly the
/// 8 bytes of the RIFF tag and the size field itself: the file's true
/// length is always that field's value plus eight.
pub proof fn lemma_riff_size_field(width: u32, height: u32, fps: u32, frames: Seq<Seq<u8>>)
    requires
        forall|i: int|
            0 <= i < frames.len() ==> #[trigger] spec_padded(frames[i].len() as int) <= u32::MAX,
    ensures
        spec_final_file(width, height, fps, frames).len() == 8 + spec_total_file_size(
            frames.len() as int,
            spec_sum_sizes(spec_frame_sizes(frames)),
        ),
{
    let sizes = spec_frame_sizes(frames);
    let count = frames.len() as int;
    let jpeg = spec_sum_sizes(sizes);
    lemma_auto_spec_u32_to_from_le_bytes();
    lemma_header_len(
        width,
        height,
        fps,
        spec_total_file_size(count, jpeg) as u32,
        count as u32,
        count as u32,
        count as u32,
        crate::sizes::spec_movi_size(count, jpeg) as u32,
    );
    lemma_frames_bytes_len(frames);
    lemma_index_entries_len(sizes, 4);
}

} // verus!
