use gif_stream::{DisposalMethod, Frame, GifEncoder, GlobalPalette};

#[test]
fn normalize_alpha_snaps_whole_pixels_only() {
    let mut data = vec![10, 20, 30, 5, 1, 2, 3, 0, 9, 9];
    gif_stream::normalize_alpha(&mut data);
    // Partial alpha becomes opaque, exact zero stays, color bytes
    // and the trailing incomplete pixel are untouched.
    assert_eq!(data, vec![10, 20, 30, 0xFF, 1, 2, 3, 0, 9, 9]);
}

#[test]
fn indexed_frame_carries_no_palette_and_no_transparency() {
    let frame = Frame::from_indexed_rgba(2, 2, &[0, 1, 0, 1]);
    assert_eq!(frame.width, 2);
    assert_eq!(frame.height, 2);
    assert!(frame.palette.is_none());
    assert!(frame.transparent.is_none());
    assert_eq!(frame.buffer, vec![0, 1, 0, 1]);
}

#[test]
fn palette_frame_takes_table_verbatim() {
    let palette = [255, 0, 0, 0, 255, 0];
    let frame = Frame::from_palatte_rgba(2, 1, &[1, 0], &palette);
    assert_eq!(frame.palette.as_deref(), Some(&palette[..]));
    assert!(frame.transparent.is_none());
    assert_eq!(frame.buffer, vec![1, 0]);
}

#[test]
fn quantized_frame_has_full_local_palette() {
    let data: Vec<u8> = (0..16u8)
        .flat_map(|i| [i * 16, 255 - i * 16, 7, 255])
        .collect();
    let frame = Frame::from_rgba(4, 4, &data, 10);
    assert_eq!(frame.width, 4);
    assert_eq!(frame.height, 4);
    assert_eq!(frame.buffer.len(), 16);
    assert_eq!(frame.palette.as_ref().map(|p| p.len()), Some(768));
    assert!(frame.transparent.is_none());
}

#[test]
fn last_transparent_pixel_wins() {
    // Two distinct zero-alpha colors: the recorded index belongs to
    // the second (last) one in scan order.
    let data = [10, 20, 30, 0, 200, 100, 50, 0];
    let frame = Frame::from_rgba(2, 1, &data, 10);
    assert_eq!(frame.transparent, Some(frame.buffer[1]));

    // Zero-alpha first, opaque second: the first pixel decides.
    let data = [10, 20, 30, 0, 200, 100, 50, 255];
    let frame = Frame::from_rgba(2, 1, &data, 10);
    assert_eq!(frame.transparent, Some(frame.buffer[0]));

    // No zero alpha at all: no transparency.
    let data = [10, 20, 30, 1, 200, 100, 50, 255];
    let frame = Frame::from_rgba(2, 1, &data, 10);
    assert_eq!(frame.transparent, None);
}

#[test]
fn global_palette_exposes_its_table() {
    let sample: Vec<u8> = (0..32u8).flat_map(|i| [i * 8, 0, 0, 255]).collect();
    let gp = GlobalPalette::new(10, 4, &sample);
    assert_eq!(gp.palette().len(), 12);
    let gp = GlobalPalette::new(10, 256, &sample);
    assert_eq!(gp.palette().len(), 768);
}

#[test]
fn global_palette_lookups_stay_in_range() {
    let sample: Vec<u8> = (0..64u8).flat_map(|i| [i * 4, 255 - i * 4, i, 255]).collect();
    let gp = GlobalPalette::new(10, 8, &sample);
    for pix in sample.chunks_exact(4) {
        assert!((gp.index_of(pix) as usize) < 8);
    }
    let indexed = gp.get_indexed_rgba(&sample);
    assert_eq!(indexed.len(), 64);
    assert!(indexed.iter().all(|&i| (i as usize) < 8));
}

#[test]
fn bulk_lookup_matches_single_lookups() {
    let sample: Vec<u8> = (0..16u8).flat_map(|i| [i * 16, i, 0, 255]).collect();
    let gp = GlobalPalette::new(10, 4, &sample);
    let indexed = gp.get_indexed_rgba(&sample);
    let one_by_one: Vec<u8> = sample.chunks_exact(4).map(|pix| gp.index_of(pix)).collect();
    assert_eq!(indexed, one_by_one);
}

#[test]
fn global_palette_frame_reuses_the_stream_table() {
    let sample: Vec<u8> = (0..4u8).flat_map(|i| [i * 60, 0, 0, 255]).collect();
    let gp = GlobalPalette::new(10, 4, &sample);
    let frame = Frame::with_global_palette_rgba(2, 2, &sample, &gp);
    assert!(frame.palette.is_none());
    assert_eq!(frame.buffer, gp.get_indexed_rgba(&sample));
    assert!(frame.transparent.is_none());
}

#[test]
fn global_palette_frame_records_last_transparent_pixel() {
    let data = [10, 20, 30, 0, 200, 100, 50, 0, 5, 5, 5, 255, 0, 0, 0, 255];
    let gp = GlobalPalette::new(10, 4, &data);
    let frame = Frame::with_global_palette_rgba(2, 2, &data, &gp);
    assert_eq!(frame.transparent, Some(frame.buffer[1]));
}

#[test]
fn frame_header_without_local_palette() {
    let frame = Frame::from_indexed_rgba(2, 2, &[0, 0, 0, 0]);
    let mut buf = Vec::new();
    GifEncoder::write_frame_header(&mut buf, &frame, 10, false, DisposalMethod::Keep);
    assert_eq!(
        buf,
        vec![
            0x21, 0xF9, 4, 1 | 8, 10, 0, 0, 0, // control extension
            0x2C, 0, 0, 0, 0, 2, 0, 2, 0, 0, // image descriptor, no table
        ]
    );
}

#[test]
fn frame_header_with_local_palette_and_interlace() {
    let palette = [1, 2, 3, 4, 5, 6];
    let frame = Frame::from_palatte_rgba(1, 1, &[1], &palette);
    let mut buf = Vec::new();
    GifEncoder::write_frame_header(&mut buf, &frame, 0, true, DisposalMethod::Background);
    let descriptor_flags = 0x40 | 0x80; // interlaced, local table of class 0
    assert_eq!(
        buf,
        vec![
            0x21, 0xF9, 4, 2 | 8, 0, 0, 0, 0, // control extension
            0x2C, 0, 0, 0, 0, 1, 0, 1, 0, descriptor_flags, // descriptor
            1, 2, 3, 4, 5, 6, // local color table
        ]
    );
}

#[test]
fn transparent_index_is_serialized_in_the_control_block() {
    let data = [9, 9, 9, 0, 1, 1, 1, 255];
    let frame = Frame::from_rgba(2, 1, &data, 10);
    let t = frame.transparent.expect("zero alpha was present");
    let mut buf = Vec::new();
    GifEncoder::write_frame_header(&mut buf, &frame, 3, false, DisposalMethod::Any);
    assert_eq!(&buf[..8], &[0x21, 0xF9, 4, 8, 3, 0, t, 0]);
}

#[test]
fn written_frame_decodes_back_to_its_raster() {
    let raster = [0u8, 1, 1, 0];
    let frame = Frame::from_indexed_rgba(2, 2, &raster);
    let mut buf = Vec::new();
    GifEncoder::write_frame(&mut buf, &frame, 10, false, DisposalMethod::Keep);

    // Header: control extension (8 bytes) + descriptor (10 bytes).
    let image_data = &buf[18..];
    let min_code_size = image_data[0];
    assert_eq!(min_code_size, 2);
    let mut payload = Vec::new();
    let mut at = 1usize;
    loop {
        let len = image_data[at] as usize;
        at += 1;
        if len == 0 {
            break;
        }
        payload.extend_from_slice(&image_data[at..at + len]);
        at += len;
    }
    assert_eq!(at, image_data.len());
    let decoded = weezl::decode::Decoder::new(weezl::BitOrder::Lsb, min_code_size)
        .decode(&payload)
        .expect("the image block decodes");
    assert_eq!(decoded, raster);
}
