use gif_stream::{DisposalMethod, Frame, GifStream};

#[test]
fn frame_delay_clamps_to_the_10ms_floor() {
    // 5 ms is below the 10 ms floor: one hundredth of a second.
    let gs = GifStream::new(5, 2, 2, (), ());
    assert_eq!(gs.frame_delay, 1);
    let gs = GifStream::new(0, 2, 2, (), ());
    assert_eq!(gs.frame_delay, 1);
}

#[test]
fn frame_delay_clamps_to_the_u16_ceiling() {
    let gs = GifStream::new(10_000_000, 2, 2, (), ());
    assert_eq!(gs.frame_delay, 65535);
}

#[test]
fn frame_delay_converts_to_hundredths() {
    assert_eq!(GifStream::new(100, 2, 2, (), ()).frame_delay, 10);
    assert_eq!(GifStream::new(250, 2, 2, (), ()).frame_delay, 25);
    assert_eq!(GifStream::new(10, 2, 2, (), ()).frame_delay, 1);
}

#[test]
fn builders_replace_single_fields() {
    let gs = GifStream::new(100, 4, 3, 7u32, ());
    assert_eq!(gs.speed, 10);
    assert!(!gs.interlaced);
    assert!(matches!(gs.dispose, DisposalMethod::Keep));

    let gs = gs.state(9u32).interlaced(true).dispose(DisposalMethod::Previous).speed(1);
    assert_eq!(gs.state, 9);
    assert!(gs.interlaced);
    assert!(matches!(gs.dispose, DisposalMethod::Previous));
    assert_eq!(gs.speed, 1);
    assert_eq!(gs.width, 4);
    assert_eq!(gs.height, 3);
    assert_eq!(gs.frame_delay, 10);
}

#[test]
fn disposal_methods_serialize_to_their_codes() {
    assert_eq!(DisposalMethod::Any.code(), 0);
    assert_eq!(DisposalMethod::Keep.code(), 1);
    assert_eq!(DisposalMethod::Background.code(), 2);
    assert_eq!(DisposalMethod::Previous.code(), 3);
}

#[test]
fn header_chunk_announces_the_global_table() {
    let gs = GifStream::new(100, 2, 2, (), ());
    let palette = [255, 0, 0, 0, 0, 0];
    let chunk = gs.header_chunk(&palette);
    let mut expected: Vec<u8> = b"GIF89a".to_vec();
    expected.extend_from_slice(&[2, 0, 2, 0, 0x80, 0, 0]);
    expected.extend_from_slice(&palette);
    assert_eq!(chunk, expected);
}

/// Splits one frame chunk into its control extension, image
/// descriptor, and decompressed raster.
fn split_frame_chunk(chunk: &[u8]) -> (Vec<u8>, Vec<u8>, Vec<u8>) {
    let control = chunk[..8].to_vec();
    let descriptor = chunk[8..18].to_vec();
    let image_data = &chunk[18..];
    let min_code_size = image_data[0];
    let mut payload = Vec::new();
    let mut at = 1usize;
    loop {
        let len = image_data[at] as usize;
        at += 1;
        if len == 0 {
            break;
        }
        payload.extend_from_slice(&image_data[at..at + len]);
        at += len;
    }
    assert_eq!(at, image_data.len(), "terminator ends the chunk");
    let raster = weezl::decode::Decoder::new(weezl::BitOrder::Lsb, min_code_size)
        .decode(&payload)
        .expect("image data decodes");
    (control, descriptor, raster)
}

#[test]
fn three_solid_frames_on_a_two_color_global_palette() {
    // A 2x2 canvas, a global palette of red and black, and three
    // ticks each producing a solid-red frame (index 0 everywhere).
    let gs = GifStream::new(100, 2, 2, (), ());
    let palette = [255, 0, 0, 0, 0, 0];

    let header = gs.header_chunk(&palette);
    let mut expected: Vec<u8> = b"GIF89a".to_vec();
    expected.extend_from_slice(&[2, 0, 2, 0, 0x80, 0, 0]);
    expected.extend_from_slice(&palette);
    assert_eq!(header, expected);

    let chunks: Vec<Vec<u8>> = (0..3)
        .map(|_| {
            let frame = Frame::from_indexed_rgba(2, 2, &[0, 0, 0, 0]);
            gs.frame_chunk(&frame)
        })
        .collect();

    assert_eq!(chunks[0], chunks[1]);
    assert_eq!(chunks[1], chunks[2]);

    let (control, descriptor, raster) = split_frame_chunk(&chunks[0]);
    // Keep disposal (1) with the reserved bit, the fixed 10-hundredth
    // delay, and no transparency.
    assert_eq!(control, vec![0x21, 0xF9, 4, 1 | 8, 10, 0, 0, 0]);
    // Full-canvas descriptor at the origin, no local table.
    assert_eq!(descriptor, vec![0x2C, 0, 0, 0, 0, 2, 0, 2, 0, 0]);
    // Four pixels of index 0.
    assert_eq!(raster, vec![0, 0, 0, 0]);
}
