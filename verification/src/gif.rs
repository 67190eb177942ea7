//! Byte-exact GIF89a block serialization.
//!
//! All writers append to a caller-owned buffer and never retain
//! references into it; every multi-byte integer is little-endian.

use vstd::prelude::*;
use vstd::slice::slice_subrange;

verus! {

/// `2^e`.
pub open spec fn pow2(e: nat) -> nat
    decreases e,
{
    if e == 0 {
        1
    } else {
        2 * pow2((e - 1) as nat)
    }
}

/// Size class of a color table with `num_colors` entries: the smallest
/// `c` such that `num_colors <= 2^(c+1)`, capped at 7 (256 colors).
pub open spec fn size_class(num_colors: int) -> u8 {
    if num_colors <= 2 {
        0
    } else if num_colors <= 4 {
        1
    } else if num_colors <= 8 {
        2
    } else if num_colors <= 16 {
        3
    } else if num_colors <= 32 {
        4
    } else if num_colors <= 64 {
        5
    } else if num_colors <= 128 {
        6
    } else {
        7
    }
}

/// Number of color slots in the bucket of size class `c`: `2^(c+1)`.
pub open spec fn class_slots(c: u8) -> int {
    if c == 0 {
        2
    } else if c == 1 {
        4
    } else if c == 2 {
        8
    } else if c == 3 {
        16
    } else if c == 4 {
        32
    } else if c == 5 {
        64
    } else if c == 6 {
        128
    } else {
        256
    }
}

/// A `u16` as its two little-endian bytes.
pub open spec fn u16_le(x: u16) -> Seq<u8> {
    seq![(x & 0xFF) as u8, ((x >> 8) & 0xFF) as u8]
}

/// The 13-byte GIF89a header: magic, canvas size, screen flags, and
/// the two reserved bytes (background color index, pixel aspect ratio).
pub open spec fn screen_desc_bytes(width: u16, height: u16, flags: u8) -> Seq<u8> {
    seq![0x47u8, 0x49u8, 0x46u8, 0x38u8, 0x39u8, 0x61u8] + u16_le(width) + u16_le(height)
        + seq![flags, 0u8, 0u8]
}

/// Screen flags announcing a global color table of `num_colors`
/// entries: bit 7 set, and the size class in bits 0-2 and 4-6.
pub open spec fn global_palette_flags_of(num_colors: int) -> u8 {
    0x80u8 | size_class(num_colors) | (size_class(num_colors) << 4)
}

/// A color table serialized into its size-class bucket: the table
/// truncated to whole RGB triples, then padded with black entries up
/// to `3 * 2^(class+1)` bytes (no padding past 256 colors).
pub open spec fn color_table_bytes(table: Seq<u8>) -> Seq<u8> {
    let n = table.len() as int / 3;
    let slots = class_slots(size_class(n));
    let pad = if slots >= n {
        slots - n
    } else {
        0
    };
    table.take(3 * n) + Seq::new((3 * pad) as nat, |i: int| 0u8)
}

/// The graphic control extension block.
pub open spec fn control_bytes(flags: u8, delay: u16, transparency_idx: u8) -> Seq<u8> {
    seq![0x21u8, 0xF9u8, 4u8, flags] + u16_le(delay) + seq![transparency_idx, 0u8]
}

/// The 19-byte NETSCAPE2.0 application extension block carrying the
/// loop repeat count (`0` means "loop forever").
pub open spec fn netscape_bytes(repeat: u16) -> Seq<u8> {
    seq![
        0x21u8,
        0xFFu8,
        11u8,
        0x4Eu8,
        0x45u8,
        0x54u8,
        0x53u8,
        0x43u8,
        0x41u8,
        0x50u8,
        0x45u8,
        0x32u8,
        0x2Eu8,
        0x30u8,
        3u8,
        1u8,
    ] + u16_le(repeat) + seq![0u8]
}

/// What `write_extension` appends: a control block, a NETSCAPE loop
/// block, or nothing at all for an explicit repeat count of zero.
pub open spec fn extension_bytes(extension: ExtensionData) -> Seq<u8> {
    match extension {
        ExtensionData::Control { flags, delay, transparency_idx } => control_bytes(
            flags,
            delay,
            transparency_idx,
        ),
        ExtensionData::InfiniteRepetitions => netscape_bytes(0),
        ExtensionData::Repetitions(repeat) => if repeat == 0 {
            Seq::empty()
        } else {
            netscape_bytes(repeat)
        },
    }
}

/// A payload re-chunked into length-prefixed sub-blocks of at most
/// 255 bytes each; the terminating zero-length block is not included.
pub open spec fn chunked(data: Seq<u8>) -> Seq<u8>
    decreases data.len(),
{
    if data.len() == 0 {
        Seq::empty()
    } else if data.len() >= 255 {
        seq![255u8] + data.take(255) + chunked(data.skip(255))
    } else {
        seq![data.len() as u8] + data
    }
}

/// Sub-blocks parsed back into one payload: each block is a length
/// prefix in `1..=255` followed by that many bytes; a zero prefix or
/// a truncated block ends the parse.
pub open spec fn dechunk(blocks: Seq<u8>) -> Seq<u8>
    decreases blocks.len(),
{
    if blocks.len() == 0 {
        Seq::empty()
    } else {
        let n = blocks[0] as int;
        if n == 0 || blocks.len() < 1 + n {
            Seq::empty()
        } else {
            blocks.subrange(1, 1 + n) + dechunk(blocks.skip(1 + n))
        }
    }
}

/// A self-delimiting encoded image data block: the minimum code size
/// byte, the compressed payload in sub-blocks, and the terminator.
/// An empty input stands for a bare minimum code size of 2.
pub open spec fn encoded_image_block_bytes(data: Seq<u8>) -> Seq<u8> {
    if data.len() == 0 {
        seq![2u8, 0u8]
    } else {
        seq![data[0]] + chunked(data.skip(1)) + seq![0u8]
    }
}

/// The largest byte of `s`, or `0` when `s` is empty.
pub open spec fn max_byte(s: Seq<u8>) -> u8
    decreases s.len(),
{
    if s.len() == 0 {
        0
    } else if s.last() >= max_byte(s.drop_last()) {
        s.last()
    } else {
        max_byte(s.drop_last())
    }
}

/// The minimum LZW code size for a raster: one more than the size
/// class of `max index + 1`, but never below the spec floor of 2.
pub open spec fn min_code_size_of(data: Seq<u8>) -> u8 {
    let c = (size_class(max_byte(data) as int + 1) + 1) as u8;
    if c < 2 {
        2
    } else {
        c
    }
}

/// The complete image data block written for a raster: its LZW
/// compression (prefixed by the minimum code size) in sub-blocks.
pub open spec fn image_block_bytes(raster: Seq<u8>) -> Seq<u8> {
    let mcs = min_code_size_of(raster);
    encoded_image_block_bytes(seq![mcs] + lzw_of(mcs, raster))
}

/// How a decoder treats the previous frame's canvas region before
/// drawing the next frame; serialized as a byte, never interpreted.
#[derive(Copy, Clone, PartialEq, Eq, Structural, Debug)]
pub enum DisposalMethod {
    Any,
    Keep,
    Background,
    Previous,
}

/// The byte value a disposal method serializes to.
pub open spec fn dispose_code(dispose: DisposalMethod) -> u8 {
    match dispose {
        DisposalMethod::Any => 0,
        DisposalMethod::Keep => 1,
        DisposalMethod::Background => 2,
        DisposalMethod::Previous => 3,
    }
}

impl DisposalMethod {
    /// The byte value this disposal method serializes to.
    pub fn code(self) -> (r: u8)
        ensures
            r == dispose_code(self),
    {
        match self {
            DisposalMethod::Any => 0,
            DisposalMethod::Keep => 1,
            DisposalMethod::Background => 2,
            DisposalMethod::Previous => 3,
        }
    }
}

/// Payload of an extension block: per-frame graphic control, or the
/// stream's loop metadata.
pub enum ExtensionData {
    Control { flags: u8, delay: u16, transparency_idx: u8 },
    Repetitions(u16),
    InfiniteRepetitions,
}

/// Stateless writers for each block of the GIF container format.
pub struct GifEncoder;

impl GifEncoder {
    /// Appends the GIF89a magic and the logical screen descriptor.
    pub fn write_screen_desc(buf: &mut Vec<u8>, width: u16, height: u16, flags: Option<u8>)
        ensures
            final(buf)@ == old(buf)@ + screen_desc_bytes(
                width,
                height,
                match flags {
                    Some(f) => f,
                    None => 0u8,
                },
            ),
    {
        buf.push(0x47);  // G
        buf.push(0x49);  // I
        buf.push(0x46);  // F
        buf.push(0x38);  // 8
        buf.push(0x39);  // 9
        buf.push(0x61);  // a
        push_u16_le(buf, width);
        push_u16_le(buf, height);
        buf.push(match flags {
            Some(f) => f,
            None => 0,
        });
        buf.push(0);  // background color index
        buf.push(0);  // pixel aspect ratio
    }

    /// Screen flags for a global color table with as many entries as
    /// `palette` holds whole RGB triples.
    pub fn global_palette_flags(palette: &[u8]) -> (r: u8)
        ensures
            r == global_palette_flags_of(palette@.len() as int / 3),
    {
        let num_colors = palette.len() / 3;
        let class = flag_size(num_colors);
        0x80u8 | class | (class << 4)
    }

    /// Appends `table`, truncated to whole RGB triples and padded
    /// with black entries to fill its size-class bucket.
    pub fn write_color_table(buf: &mut Vec<u8>, table: &[u8])
        ensures
            final(buf)@ == old(buf)@ + color_table_bytes(table@),
    {
        let num_colors = table.len() / 3;
        buf.extend_from_slice(slice_subrange(table, 0, num_colors * 3));

        let size = flag_size(num_colors);
        let slots = bucket_slots(size);

        // Pad with black
        let ghost pad = if class_slots(size_class(num_colors as int)) >= num_colors as int {
            class_slots(size_class(num_colors as int)) - num_colors as int
        } else {
            0
        };
        let mut k: usize = if slots > num_colors {
            slots - num_colors
        } else {
            0
        };
        proof {
            assert(table@.take(3 * (num_colors as int)) == table@.subrange(
                0,
                (num_colors * 3) as int,
            ));
            assert(buf@ + Seq::new(0nat, |i: int| 0u8) == buf@);
        }
        while k > 0
            invariant
                k <= pad,
                buf@ == old(buf)@ + table@.take(3 * (table@.len() as int / 3)) + Seq::new(
                    (3 * (pad - k)) as nat,
                    |i: int| 0u8,
                ),
            decreases k,
        {
            buf.push(0);
            buf.push(0);
            buf.push(0);
            k = k - 1;
            proof {
                let done = (pad - k) as nat;
                assert(Seq::new((3 * (done - 1)) as nat, |i: int| 0u8) + seq![0u8, 0u8, 0u8]
                    =~= Seq::new((3 * done) as nat, |i: int| 0u8));
                assert(buf@ == old(buf)@ + table@.take(3 * (table@.len() as int / 3)) + Seq::new(
                    (3 * done) as nat,
                    |i: int| 0u8,
                ));
            }
        }
    }

    /// Appends the NETSCAPE loop extension for an explicit repeat
    /// count; a count of zero writes nothing.
    pub fn write_repeat(buf: &mut Vec<u8>, repeat: u16)
        ensures
            final(buf)@ == old(buf)@ + extension_bytes(ExtensionData::Repetitions(repeat)),
    {
        Self::write_extension(buf, ExtensionData::Repetitions(repeat))
    }

    /// Appends the NETSCAPE loop extension for an infinite loop.
    pub fn write_loop(buf: &mut Vec<u8>)
        ensures
            final(buf)@ == old(buf)@ + extension_bytes(ExtensionData::InfiniteRepetitions),
    {
        Self::write_extension(buf, ExtensionData::InfiniteRepetitions)
    }

    /// Appends an extension block. An explicit repeat count of zero
    /// means "no loop extension" and writes nothing, unlike the
    /// infinite variant, which encodes a literal zero repeat field.
    pub fn write_extension(buf: &mut Vec<u8>, extension: ExtensionData)
        ensures
            final(buf)@ == old(buf)@ + extension_bytes(extension),
    {
        // Don't write empty extensions
        if let ExtensionData::Repetitions(0u16) = extension {
            return ;
        }
        buf.push(0x21);
        match extension {
            ExtensionData::Control { flags, delay, transparency_idx } => {
                buf.push(0xF9);
                buf.push(4);
                buf.push(flags);
                push_u16_le(buf, delay);
                buf.push(transparency_idx);
            },
            ExtensionData::InfiniteRepetitions => {
                Self::push_netscape_intro(buf);
                push_u16_le(buf, 0);
            },
            ExtensionData::Repetitions(repeat) => {
                Self::push_netscape_intro(buf);
                push_u16_le(buf, repeat);
            },
        }
        buf.push(0);
    }

    /// Appends the label, block size, application identifier, and
    /// sub-block header shared by both loop extension variants.
    fn push_netscape_intro(buf: &mut Vec<u8>)
        ensures
            final(buf)@ == old(buf)@ + seq![
                0xFFu8,
                11u8,
                0x4Eu8,
                0x45u8,
                0x54u8,
                0x53u8,
                0x43u8,
                0x41u8,
                0x50u8,
                0x45u8,
                0x32u8,
                0x2Eu8,
                0x30u8,
                3u8,
                1u8,
            ],
    {
        buf.push(0xFF);
        buf.push(11);
        buf.push(0x4E);  // N
        buf.push(0x45);  // E
        buf.push(0x54);  // T
        buf.push(0x53);  // S
        buf.push(0x43);  // C
        buf.push(0x41);  // A
        buf.push(0x50);  // P
        buf.push(0x45);  // E
        buf.push(0x32);  // 2
        buf.push(0x2E);  // .
        buf.push(0x30);  // 0
        buf.push(3);
        buf.push(1);
    }

    /// Appends the leading minimum code size byte of an encoded
    /// payload, the remaining bytes re-chunked into sub-blocks of at
    /// most 255 bytes, and the terminating zero-length sub-block.
    pub fn write_encoded_image_block(buf: &mut Vec<u8>, data: &[u8])
        ensures
            final(buf)@ == old(buf)@ + encoded_image_block_bytes(data@),
    {
        if data.len() == 0 {
            buf.push(2);
            buf.push(0);
            return ;
        }
        buf.push(data[0]);

        let mut i: usize = 1;
        while data.len() - i >= 255
            invariant
                1 <= i <= data@.len(),
                buf@ + chunked(data@.skip(i as int)) == old(buf)@ + seq![data@[0]] + chunked(
                    data@.skip(1),
                ),
            decreases data@.len() - i,
        {
            let ghost before = data@.skip(i as int);
            buf.push(255);
            buf.extend_from_slice(slice_subrange(data, i, i + 255));
            proof {
                assert(before.take(255) == data@.subrange(i as int, i as int + 255));
                assert(before.skip(255) == data@.skip(i as int + 255));
                assert(chunked(before) == seq![255u8] + before.take(255) + chunked(
                    before.skip(255),
                ));
            }
            i = i + 255;
        }
        if i < data.len() {
            let rem = data.len() - i;
            buf.push(rem as u8);
            buf.extend_from_slice(slice_subrange(data, i, data.len()));
            proof {
                assert(data@.skip(i as int) == data@.subrange(i as int, data@.len() as int));
                assert(chunked(data@.skip(i as int)) == seq![rem as u8] + data@.skip(i as int));
            }
        } else {
            proof {
                assert(data@.skip(i as int) =~= Seq::<u8>::empty());
            }
        }
        buf.push(0);
        proof {
            assert(final(buf)@ == old(buf)@ + seq![data@[0]] + chunked(data@.skip(1)) + seq![0u8]);
            assert(final(buf)@ =~= old(buf)@ + encoded_image_block_bytes(data@));
        }
    }

    /// Appends the final GIF trailer byte.
    pub fn write_trailer(buf: &mut Vec<u8>)
        ensures
            final(buf)@ == old(buf)@ + seq![0x3Bu8],
    {
        buf.push(0x3B);
    }
}

/// Appends `x` as two little-endian bytes.
fn push_u16_le(buf: &mut Vec<u8>, x: u16)
    ensures
        final(buf)@ == old(buf)@ + u16_le(x),
{
    proof {
        assert(x & 0xFF < 256) by (bit_vector);
        assert((x >> 8) & 0xFF < 256) by (bit_vector);
    }
    buf.push((x & 0xFF) as u8);
    buf.push(((x >> 8) & 0xFF) as u8);
}

/// Color table size converted to flag bits.
pub fn flag_size(size: usize) -> (r: u8)
    ensures
        r == size_class(size as int),
{
    if size <= 2 {
        0
    } else if size <= 4 {
        1
    } else if size <= 8 {
        2
    } else if size <= 16 {
        3
    } else if size <= 32 {
        4
    } else if size <= 64 {
        5
    } else if size <= 128 {
        6
    } else {
        7
    }
}

/// Number of color slots in the bucket of size class `c`.
fn bucket_slots(c: u8) -> (r: usize)
    requires
        c <= 7,
    ensures
        r as int == class_slots(c),
{
    if c == 0 {
        2
    } else if c == 1 {
        4
    } else if c == 2 {
        8
    } else if c == 3 {
        16
    } else if c == 4 {
        32
    } else if c == 5 {
        64
    } else if c == 6 {
        128
    } else {
        256
    }
}

/// The RGBA pixel at chunk position `i`: four consecutive bytes.
pub open spec fn pixel_at(data: Seq<u8>, i: int) -> Seq<u8> {
    data.subrange(4 * i, 4 * i + 4)
}

/// The position of the last pixel among the first `n` whose alpha
/// byte is exactly zero, in scan order; zero alpha is the only value
/// treated as transparent.
pub open spec fn last_transparent(data: Seq<u8>, n: int) -> Option<int>
    decreases n,
{
    if n <= 0 {
        None
    } else if data[4 * (n - 1) + 3] == 0 {
        Some(n - 1)
    } else {
        last_transparent(data, n - 1)
    }
}

/// An RGBA byte sequence with every alpha byte of a whole pixel
/// snapped to fully opaque unless it is exactly zero.
pub open spec fn normalized_alpha(s: Seq<u8>) -> Seq<u8> {
    Seq::new(
        s.len(),
        |i: int|
            if i % 4 == 3 {
                if s[i] == 0 {
                    0u8
                } else {
                    0xFFu8
                }
            } else {
                s[i]
            },
    )
}

/// One frame of the animation: an indexed raster, an optional local
/// color table, and an optional transparent index into whichever
/// table (local or global) applies.
pub struct Frame {
    pub width: u16,
    pub height: u16,
    pub transparent: Option<u8>,
    pub palette: Option<Vec<u8>>,
    pub buffer: Vec<u8>,
}

impl Frame {
    /// The raster covers the canvas, every raster byte indexes a
    /// color of the local table when one is carried, and so does the
    /// transparent index.
    pub open spec fn wf(self) -> bool {
        &&& self.buffer@.len() == self.width as int * self.height as int
        &&& match self.palette {
            Some(p) => forall|k: int|
                0 <= k < self.buffer@.len() ==> (self.buffer@[k] as int) < p@.len() as int / 3,
            None => true,
        }
        &&& match (self.transparent, self.palette) {
            (Some(t), Some(p)) => (t as int) < p@.len() as int / 3,
            _ => true,
        }
    }

    /// A pre-quantized frame with an explicit local palette, taken
    /// verbatim; no transparency inference is performed.
    pub fn from_palatte_rgba(w: u16, h: u16, data: &[u8], palette: &[u8]) -> (r: Self)
        requires
            data@.len() == w as int * h as int,
            forall|k: int|
                0 <= k < data@.len() ==> (data@[k] as int) < palette@.len() as int / 3,
        ensures
            r.width == w,
            r.height == h,
            r.transparent is None,
            match r.palette {
                Some(p) => p@ == palette@,
                None => false,
            },
            r.buffer@ == data@,
            r.wf(),
    {
        Self {
            width: w,
            height: h,
            transparent: None,
            palette: Some(vstd::slice::slice_to_vec(palette)),
            buffer: vstd::slice::slice_to_vec(data),
        }
    }

    /// A pre-quantized frame that relies on the stream's global
    /// table: no local palette and no transparency.
    pub fn from_indexed_rgba(w: u16, h: u16, data: &[u8]) -> (r: Self)
        requires
            data@.len() == w as int * h as int,
        ensures
            r.width == w,
            r.height == h,
            r.transparent is None,
            r.palette is None,
            r.buffer@ == data@,
            r.wf(),
    {
        Self {
            width: w,
            height: h,
            transparent: None,
            palette: None,
            buffer: vstd::slice::slice_to_vec(data),
        }
    }
}

/// The per-frame block sequence before the image data: the graphic
/// control extension, then the image descriptor at origin offset,
/// then the local color table when the frame carries one.
pub open spec fn frame_header_bytes(
    frame: Frame,
    delay: u16,
    interlaced: bool,
    dispose: DisposalMethod,
) -> Seq<u8> {
    let t = match frame.transparent {
        Some(t) => t,
        None => 0u8,
    };
    let base = if interlaced {
        0x40u8
    } else {
        0u8
    };
    control_bytes(dispose_code(dispose) | (1u8 << 3), delay, t) + seq![0x2Cu8] + u16_le(0) + u16_le(
        0,
    ) + u16_le(frame.width) + u16_le(frame.height) + match frame.palette {
        Some(p) => seq![base | 0x80u8 | size_class(p@.len() as int / 3)] + color_table_bytes(p@),
        None => seq![base],
    }
}

/// All bytes written for one frame: its header blocks followed by
/// its encoded image data block.
pub open spec fn frame_bytes(
    frame: Frame,
    delay: u16,
    interlaced: bool,
    dispose: DisposalMethod,
) -> Seq<u8> {
    frame_header_bytes(frame, delay, interlaced, dispose) + image_block_bytes(frame.buffer@)
}

impl GifEncoder {
    /// Appends a frame's graphic control extension, image descriptor
    /// (always at the canvas origin), and local color table if any.
    pub fn write_frame_header(
        buf: &mut Vec<u8>,
        frame: &Frame,
        delay: u16,
        interlaced: bool,
        dispose: DisposalMethod,
    )
        ensures
            final(buf)@ == old(buf)@ + frame_header_bytes(*frame, delay, interlaced, dispose),
    {
        let t = match frame.transparent {
            Some(t) => t,
            None => 0,
        };
        Self::write_extension(
            buf,
            ExtensionData::Control { flags: dispose.code() | (1u8 << 3), delay, transparency_idx: t },
        );
        let ghost b1 = buf@;
        proof {
            assert(b1 == old(buf)@ + control_bytes(
                dispose_code(dispose) | (1u8 << 3),
                delay,
                match frame.transparent {
                    Some(t0) => t0,
                    None => 0u8,
                },
            ));
        }

        buf.push(0x2C);
        push_u16_le(buf, 0);  // top
        push_u16_le(buf, 0);  // left
        push_u16_le(buf, frame.width);
        push_u16_le(buf, frame.height);
        let ghost b2 = buf@;
        proof {
            assert(b2 =~= b1 + (seq![0x2Cu8] + u16_le(0) + u16_le(0) + u16_le(frame.width)
                + u16_le(frame.height)));
        }

        let base: u8 = if interlaced {
            0x40
        } else {
            0
        };
        match &frame.palette {
            Some(palette) => {
                let flags = base | 0x80 | flag_size(palette.len() / 3);
                buf.push(flags);
                Self::write_color_table(buf, palette.as_slice());
                proof {
                    assert(buf@ =~= b2 + (seq![flags] + color_table_bytes(palette@)));
                    assert(buf@ =~= old(buf)@ + frame_header_bytes(
                        *frame,
                        delay,
                        interlaced,
                        dispose,
                    ));
                }
            },
            None => {
                buf.push(base);
                proof {
                    assert(buf@ =~= b2 + seq![base]);
                    assert(buf@ =~= old(buf)@ + frame_header_bytes(
                        *frame,
                        delay,
                        interlaced,
                        dispose,
                    ));
                }
            },
        }
    }

    /// Appends a frame's header blocks and its image data block.
    pub fn write_frame(
        buf: &mut Vec<u8>,
        frame: &Frame,
        delay: u16,
        interlaced: bool,
        dispose: DisposalMethod,
    )
        ensures
            final(buf)@ == old(buf)@ + frame_bytes(*frame, delay, interlaced, dispose),
    {
        Self::write_frame_header(buf, frame, delay, interlaced, dispose);
        Self::write_image_block(buf, frame.buffer.as_slice());
    }

    /// Compresses a raster and appends the resulting image data
    /// block, sub-block framing included.
    pub fn write_image_block(buf: &mut Vec<u8>, data: &[u8])
        ensures
            final(buf)@ == old(buf)@ + image_block_bytes(data@),
    {
        let mut lzw: Vec<u8> = Vec::new();
        lzw_encode(&mut lzw, data);
        Self::write_encoded_image_block(buf, lzw.as_slice());
        proof {
            let mcs = min_code_size_of(data@);
            let payload = seq![mcs] + lzw_of(mcs, data@);
            assert(lzw@ == payload);
            assert(payload[0] == mcs);
            assert(payload.skip(1) =~= lzw_of(mcs, data@));
        }
    }
}

/// Snaps every alpha byte of a whole RGBA pixel to fully opaque
/// unless it is exactly zero, eliminating partial transparency.
pub fn normalize_alpha(data: &mut Vec<u8>)
    ensures
        final(data)@ == normalized_alpha(old(data)@),
{
    let ghost orig = data@;
    let len = data.len();
    let n = len / 4;
    let mut i: usize = 0;
    while i < n
        invariant
            i <= n,
            n == orig.len() as int / 4,
            orig.len() == len as int,
            data@.len() == orig.len(),
            forall|j: int|
                0 <= j < orig.len() ==> data@[j] == (if j % 4 == 3 && j < 4 * (i as int) {
                    if orig[j] == 0 {
                        0u8
                    } else {
                        0xFFu8
                    }
                } else {
                    orig[j]
                }),
        decreases n - i,
    {
        proof {
            assert(4 * (n as int) <= orig.len());
            assert(4 * (i as int) + 3 < orig.len());
        }
        if data[4 * i + 3] != 0 {
            *vstd::std_specs::vec::vec_index_mut(data, 4 * i + 3) = 0xFF;
        }
        i = i + 1;
    }
    proof {
        assert forall|j: int| 0 <= j < orig.len() implies data@[j] == normalized_alpha(orig)[j] by {
            if j % 4 == 3 {
                assert(j == 4 * (j / 4) + 3);
                assert(j / 4 < n as int);
            }
        }
        assert(data@ =~= normalized_alpha(orig));
    }
}

/// Derives the minimum LZW code size from a raster's largest index
/// (with the spec-required floor of 2), appends it, and appends the
/// raster's LZW compression under that code size.
pub fn lzw_encode(buf: &mut Vec<u8>, data: &[u8])
    ensures
        final(buf)@ == old(buf)@ + seq![min_code_size_of(data@)] + lzw_of(
            min_code_size_of(data@),
            data@,
        ),
{
    let mut m: u8 = 0;
    let mut i: usize = 0;
    while i < data.len()
        invariant
            i <= data@.len(),
            m == max_byte(data@.take(i as int)),
        decreases data@.len() - i,
    {
        proof {
            assert(data@.take(i as int + 1).drop_last() =~= data@.take(i as int));
            assert(data@.take(i as int + 1).last() == data@[i as int]);
        }
        if data[i] > m {
            m = data[i];
        }
        i = i + 1;
    }
    proof {
        assert(data@.take(data@.len() as int) =~= data@);
    }
    // As per gif spec: the minimal code size has to be >= 2
    let size = flag_size(m as usize + 1) + 1;
    let min_code_size = if size < 2 {
        2
    } else {
        size
    };
    proof {
        lemma_max_byte_is_bound(data@);
        lemma_class_slots_pow2((min_code_size - 1) as u8);
        assert(max_byte(data@) as int + 1 <= class_slots(size_class(max_byte(data@) as int + 1)));
    }
    buf.push(min_code_size);
    let lzw = lzw_compress(min_code_size, data);
    buf.extend_from_slice(lzw.as_slice());
}

/// Every byte of `s` is at most `max_byte(s)`.
proof fn lemma_max_byte_is_bound(s: Seq<u8>)
    ensures
        forall|i: int| 0 <= i < s.len() ==> s[i] <= max_byte(s),
    decreases s.len(),
{
    if s.len() > 0 {
        lemma_max_byte_is_bound(s.drop_last());
        assert forall|i: int| 0 <= i < s.len() implies s[i] <= max_byte(s) by {
            if i < s.len() - 1 {
                assert(s[i] == s.drop_last()[i]);
            }
        }
    }
}

/// The slot count of a size class is the matching power of two.
proof fn lemma_class_slots_pow2(c: u8)
    requires
        c <= 7,
    ensures
        class_slots(c) == pow2((c + 1) as nat),
{
    reveal_with_fuel(pow2, 9);
}

/// Names the byte sequence that weezl's LZW encoder produces for a
/// payload under a given minimum code size; it depends on those two
/// arguments alone.
pub uninterp spec fn lzw_of(min_code_size: u8, data: Seq<u8>) -> Seq<u8>;

/// Relies on weezl's `encode::Encoder::new` and `IntoVec::encode_all`:
/// LSB-first LZW compression of `data`, written into a fresh buffer.
/// `Encoder::new` panics unless the code size is within `2..=12`, and
/// every payload byte must fit in `min_code_size` bits to encode.
#[verifier::external_body]
fn lzw_compress(min_code_size: u8, data: &[u8]) -> (r: Vec<u8>)
    requires
        2 <= min_code_size <= 8,
        forall|k: int| 0 <= k < data@.len() ==> (data@[k] as nat) < pow2(min_code_size as nat),
    ensures
        r@ == lzw_of(min_code_size, data@),
{
    let mut out = Vec::new();
    let mut encoder = weezl::encode::Encoder::new(weezl::BitOrder::Lsb, min_code_size);
    let _ = encoder.into_vec(&mut out).encode_all(data);
    out
}

} // verus!
