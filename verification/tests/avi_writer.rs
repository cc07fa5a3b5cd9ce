use mjpeg_avi::error::MjpegError;
use mjpeg_avi::format::create_header_template;
use mjpeg_avi::mjpeg_sync::{MjpegAviWriter, MjpegWriter};
use mjpeg_avi::sizes::{calculate_file_sizes, check_frame_admission};
use mjpeg_avi::writer::MemorySink;

fn le(bytes: &[u8]) -> u32 {
    u32::from_le_bytes([bytes[0], bytes[1], bytes[2], bytes[3]])
}

#[test]
fn test_empty_frame_error() {
    let sink = MemorySink::new();
    let mut writer = MjpegWriter::new(sink, 320, 240, 30).unwrap();

    let result = writer.add_frame(&[]);
    assert!(matches!(result, Err(MjpegError::InvalidFrameSize)));
}

#[test]
fn test_zero_fps_error() {
    let sink = MemorySink::new();
    let result = MjpegWriter::new(sink, 320, 240, 0);
    assert!(matches!(result, Err(MjpegError::InvalidFrameSize)));
}

#[test]
fn test_header_round_trip() {
    let sink = MemorySink::new();
    let writer = MjpegWriter::new(sink, 320, 240, 30).unwrap();
    let out = writer.into_writer().into_bytes();

    assert_eq!(out.len(), 256);
    assert_eq!(&out[0..4], b"RIFF");
    assert_eq!(&out[8..12], b"AVI ");
    assert_eq!(le(&out[128..132]), 30);
    assert_eq!(le(&out[64..68]), 320);
    assert_eq!(le(&out[68..72]), 240);
    assert_eq!(le(&out[164..168]), 320);
    assert_eq!(le(&out[168..172]), 240);
    assert_eq!(le(&out[184..188]), 320);
    assert_eq!(le(&out[188..192]), 240);
}

#[test]
fn test_header_template_static_fields() {
    let header = create_header_template(30, 320, 240);

    assert_eq!(header.len(), 256);
    assert_eq!(&header[12..16], b"LIST");
    assert_eq!(le(&header[16..20]), 224);
    assert_eq!(&header[20..24], b"hdrl");
    assert_eq!(&header[24..28], b"avih");
    assert_eq!(le(&header[28..32]), 56);
    assert_eq!(le(&header[32..36]), 33333); // 1_000_000 / 30, truncating
    assert_eq!(le(&header[36..40]), 7000);
    assert_eq!(le(&header[44..48]), 0x10);
    assert_eq!(le(&header[56..60]), 1); // one stream
    assert_eq!(&header[88..92], b"LIST");
    assert_eq!(le(&header[92..96]), 148);
    assert_eq!(&header[96..100], b"strl");
    assert_eq!(&header[100..104], b"strh");
    assert_eq!(&header[108..112], b"vids");
    assert_eq!(&header[112..116], b"MJPG");
    assert_eq!(&header[172..176], b"strf");
    assert_eq!(le(&header[176..180]), 40);
    assert_eq!(le(&header[180..184]), 40);
    assert_eq!(&header[192..194], [1, 0]); // planes
    assert_eq!(&header[194..196], [24, 0]); // bits per pixel
    assert_eq!(&header[196..200], b"MJPG");
    assert_eq!(le(&header[200..204]), 230400); // ((320*24/8 + 3) & !3) * 240
    assert_eq!(&header[220..224], b"LIST");
    assert_eq!(le(&header[224..228]), 16);
    assert_eq!(&header[228..232], b"odml");
    assert_eq!(&header[232..236], b"dmlh");
    assert_eq!(le(&header[236..240]), 4);
    assert_eq!(&header[244..248], b"LIST");
    assert_eq!(&header[252..256], b"movi");
    // the five placeholders start zero-filled
    assert_eq!(le(&header[4..8]), 0);
    assert_eq!(le(&header[48..52]), 0);
    assert_eq!(le(&header[140..144]), 0);
    assert_eq!(le(&header[240..244]), 0);
    assert_eq!(le(&header[248..252]), 0);
}

#[test]
fn test_single_even_frame() {
    // 320x240 @ 30 fps, one frame of 100 bytes:
    // 256 (header) + 8 + 100 (chunk) + 8 + 16 (index) = 388 bytes.
    let sink = MemorySink::new();
    let mut writer = MjpegWriter::new(sink, 320, 240, 30).unwrap();
    let frame = vec![7u8; 100];
    writer.add_frame(&frame).unwrap();
    writer.finish().unwrap();
    let out = writer.into_writer().into_bytes();

    assert_eq!(out.len(), 388);
    assert_eq!(le(&out[4..8]), 380); // 256 + 100 + 1 * 24
    assert_eq!(le(&out[48..52]), 1);
    assert_eq!(le(&out[140..144]), 1);
    assert_eq!(le(&out[240..244]), 1);
    assert_eq!(le(&out[248..252]), 112); // 4 + 100 + 1 * 8
    assert_eq!(&out[256..260], b"00dc");
    assert_eq!(le(&out[260..264]), 100);
    assert_eq!(&out[264..364], frame.as_slice());
    assert_eq!(&out[364..368], b"idx1");
    assert_eq!(le(&out[368..372]), 16);
    assert_eq!(&out[372..376], b"00dc");
    assert_eq!(le(&out[376..380]), 0x10);
    assert_eq!(le(&out[380..384]), 4);
    assert_eq!(le(&out[384..388]), 100);
}

#[test]
fn test_single_odd_frame() {
    // One frame of 101 bytes is padded to 102; the chunk written is
    // 8 + 102 = 110 bytes and ends with one zero padding byte.
    let sink = MemorySink::new();
    let mut writer = MjpegWriter::new(sink, 320, 240, 30).unwrap();
    let frame = vec![9u8; 101];
    writer.add_frame(&frame).unwrap();
    writer.finish().unwrap();
    let out = writer.into_writer().into_bytes();

    assert_eq!(out.len(), 256 + 110 + 8 + 16);
    assert_eq!(&out[256..260], b"00dc");
    assert_eq!(le(&out[260..264]), 102);
    assert_eq!(&out[264..365], frame.as_slice());
    assert_eq!(out[365], 0); // the padding byte
    assert_eq!(le(&out[4..8]), 256 + 102 + 24);
    assert_eq!(le(&out[382..386]), 4); // index entry offset field
    assert_eq!(le(&out[386..390]), 102); // index entry size field
}

#[test]
fn test_vectored_single_equivalence() {
    let a = [1u8, 2, 3];
    let b = [4u8, 5, 6, 7];
    let mut joined = Vec::new();
    joined.extend_from_slice(&a);
    joined.extend_from_slice(&b);

    let mut w1 = MjpegWriter::new(MemorySink::new(), 320, 240, 30).unwrap();
    w1.add_frame(&joined).unwrap();
    w1.finish().unwrap();
    let out1 = w1.into_writer().into_bytes();

    let mut w2 = MjpegWriter::new(MemorySink::new(), 320, 240, 30).unwrap();
    w2.add_frame_vectored(&[&a, &b]).unwrap();
    w2.finish().unwrap();
    let out2 = w2.into_writer().into_bytes();

    assert_eq!(out1, out2);
}

#[test]
fn test_vectored_empty_frame_error() {
    let mut writer = MjpegWriter::new(MemorySink::new(), 320, 240, 30).unwrap();
    let empty: [&[u8]; 2] = [&[], &[]];
    let result = writer.add_frame_vectored(&empty);
    assert!(matches!(result, Err(MjpegError::InvalidFrameSize)));
}

#[test]
fn test_index_entries_multiple_frames() {
    // Frames of 10, 7 (padded to 8) and 20 bytes: the index entries must
    // point at offsets 4, 4+8+10 = 22 and 22+8+8 = 38.
    let mut writer = MjpegWriter::new(MemorySink::new(), 160, 120, 15).unwrap();
    writer.add_frame(&vec![1u8; 10]).unwrap();
    writer.add_frame(&vec![2u8; 7]).unwrap();
    writer.add_frame(&vec![3u8; 20]).unwrap();
    writer.finish().unwrap();
    let out = writer.into_writer().into_bytes();

    let chunks_len = (8 + 10) + (8 + 8) + (8 + 20);
    let idx = 256 + chunks_len;
    assert_eq!(out.len(), idx + 8 + 3 * 16);
    assert_eq!(&out[idx..idx + 4], b"idx1");
    assert_eq!(le(&out[idx + 4..idx + 8]), 48);
    let e0 = idx + 8;
    assert_eq!(&out[e0..e0 + 4], b"00dc");
    assert_eq!(le(&out[e0 + 4..e0 + 8]), 0x10);
    assert_eq!(le(&out[e0 + 8..e0 + 12]), 4);
    assert_eq!(le(&out[e0 + 12..e0 + 16]), 10);
    let e1 = e0 + 16;
    assert_eq!(le(&out[e1 + 8..e1 + 12]), 22);
    assert_eq!(le(&out[e1 + 12..e1 + 16]), 8);
    let e2 = e1 + 16;
    assert_eq!(le(&out[e2 + 8..e2 + 12]), 38);
    assert_eq!(le(&out[e2 + 12..e2 + 16]), 20);
    // totals patched from the same bookkeeping
    assert_eq!(le(&out[4..8]), (256 + 38 + 3 * 24) as u32);
    assert_eq!(le(&out[48..52]), 3);
    assert_eq!(le(&out[248..252]), (4 + 38 + 3 * 8) as u32);
}

#[test]
fn test_frame_count_limit() {
    let mut writer = MjpegWriter::new(MemorySink::new(), 16, 16, 1).unwrap();
    let frame = [0u8, 1];
    for _ in 0..1_000_000 {
        writer.add_frame(&frame).unwrap();
    }
    let result = writer.add_frame(&frame);
    assert!(matches!(result, Err(MjpegError::FrameCountExceeded)));
}

#[test]
fn test_frame_size_limit() {
    // A raw frame length that does not fit in 32 bits is rejected before
    // any byte is written.
    let result = check_frame_admission(0, 256, 4_294_967_296usize);
    assert!(matches!(result, Err(MjpegError::FrameSizeExceeded)));
}

#[test]
fn test_file_size_limit() {
    // An admission whose projected total would pass the 2 GiB - 1 ceiling
    // fails with the file-size error.
    let result = check_frame_admission(0, 2_147_483_000, 1000);
    assert!(matches!(result, Err(MjpegError::FileSizeExceeded)));

    // The same frame is admitted while the estimate leaves room.
    let result = check_frame_admission(0, 256, 1001);
    assert_eq!(result.unwrap(), 1002);
}

#[test]
fn test_calculate_file_sizes_values() {
    let sizes = [100u32, 102];
    let fs = calculate_file_sizes(&sizes, 202).unwrap();
    assert_eq!(fs.index_size, 32);
    assert_eq!(fs.total_file_size, 256 + 202 + 2 * 24);
    assert_eq!(fs.movi_size, 4 + 202 + 2 * 8);

    let fs = calculate_file_sizes(&[], 0).unwrap();
    assert_eq!(fs.index_size, 0);
    assert_eq!(fs.total_file_size, 256);
    assert_eq!(fs.movi_size, 4);
}

#[test]
fn test_calculate_file_sizes_overflow() {
    // A payload total that pushes the file size past the 32-bit field
    // width is rejected.
    let result = calculate_file_sizes(&[], 5_000_000_000);
    assert!(matches!(result, Err(MjpegError::FileSizeExceeded)));

    let result = calculate_file_sizes(&[], u64::MAX);
    assert!(matches!(result, Err(MjpegError::FileSizeExceeded)));
}

#[test]
fn test_state_unchanged_after_rejection() {
    // A rejected append leaves the writer usable and the output unchanged.
    let mut writer = MjpegWriter::new(MemorySink::new(), 320, 240, 30).unwrap();
    writer.add_frame(&[1, 2, 3, 4]).unwrap();
    let result = writer.add_frame(&[]);
    assert!(matches!(result, Err(MjpegError::InvalidFrameSize)));
    writer.add_frame(&[5, 6]).unwrap();
    writer.finish().unwrap();
    let out = writer.into_writer().into_bytes();

    // exactly two frames were recorded
    assert_eq!(le(&out[48..52]), 2);
    assert_eq!(out.len(), 256 + (8 + 4) + (8 + 2) + 8 + 2 * 16);
}

#[test]
fn test_frame_chunk_header_bytes() {
    let header = mjpeg_avi::format::create_frame_chunk_header(100);
    assert_eq!(&header[0..4], b"00dc");
    assert_eq!(le(&header[4..8]), 100);
}

#[test]
fn test_build_index_chunk_values() {
    let chunk = mjpeg_avi::format::build_index_chunk(&[10, 8, 20]).unwrap();
    assert_eq!(chunk.len(), 8 + 3 * 16);
    assert_eq!(&chunk[0..4], b"idx1");
    assert_eq!(le(&chunk[4..8]), 48);
    assert_eq!(&chunk[8..12], b"00dc");
    assert_eq!(le(&chunk[12..16]), 0x10);
    assert_eq!(le(&chunk[16..20]), 4);
    assert_eq!(le(&chunk[20..24]), 10);
    assert_eq!(le(&chunk[32..36]), 22);
    assert_eq!(le(&chunk[36..40]), 8);
    assert_eq!(le(&chunk[48..52]), 38);
    assert_eq!(le(&chunk[52..56]), 20);
}

#[test]
fn test_build_index_chunk_offset_overflow() {
    // Two frames whose accumulated offset passes the 32-bit field width.
    let result = mjpeg_avi::format::build_index_chunk(&[u32::MAX - 100, u32::MAX - 100]);
    assert!(matches!(result, Err(MjpegError::FileSizeExceeded)));
}

#[test]
fn test_finalize_patch_list() {
    let patches = mjpeg_avi::format::finalize_patches(3, 380, 112);
    assert_eq!(patches.len(), 5);
    assert_eq!(patches[0], (4, 380u32.to_le_bytes().to_vec()));
    assert_eq!(patches[1], (48, 3u32.to_le_bytes().to_vec()));
    assert_eq!(patches[2], (140, 3u32.to_le_bytes().to_vec()));
    assert_eq!(patches[3], (240, 3u32.to_le_bytes().to_vec()));
    assert_eq!(patches[4], (248, 112u32.to_le_bytes().to_vec()));
}
