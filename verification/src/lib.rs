//! Incremental GIF89a encoding for live frame streams.
//!
//! The encoder serializes screen descriptors, color tables, extension
//! blocks, and per-frame image data to spec-exact bytes; a stream
//! configuration derives the per-frame delay from a tick interval and
//! carries the state that a caller-supplied frame producer needs.

pub mod gif;
pub mod laws;
pub mod quant;

pub use crate::gif::{
    flag_size, lzw_encode, normalize_alpha, DisposalMethod, ExtensionData, Frame, GifEncoder,
};
pub use crate::quant::GlobalPalette;

use vstd::prelude::*;

use crate::gif::{
    color_table_bytes, frame_bytes, global_palette_flags_of, screen_desc_bytes,
};

verus! {

/// Shortest allowed frame interval, in milliseconds.
pub const MIN_DELAY: u128 = 10;

/// Largest encodable frame delay, in hundredths of a second.
pub const MAX_DELAY: u128 = 65535;

/// The frame delay derived from a tick interval in milliseconds:
/// the interval is clamped to at least `MIN_DELAY` milliseconds,
/// converted to hundredths of a second, and capped at `MAX_DELAY`.
pub open spec fn frame_delay_of(interval_ms: u128) -> u16 {
    let clamped = if interval_ms < MIN_DELAY { MIN_DELAY as int } else { interval_ms as int };
    let hundredths = clamped / 10;
    if hundredths > MAX_DELAY as int { MAX_DELAY as u16 } else { hundredths as u16 }
}

/// Configuration for a timed GIF frame stream: canvas size, pacing,
/// quantization speed, per-frame serialization options, and the
/// caller's generator state and frame-producing callback.
///
/// The asynchronous production loop itself lives outside the library;
/// it reads this configuration and calls [`GifStream::header_chunk`]
/// and [`GifStream::frame_chunk`] for every byte chunk it yields.
#[derive(Clone, Copy)]
pub struct GifStream<S, F> {
    pub interval_ms: u128,
    pub frame_delay: u16,
    pub width: u16,
    pub height: u16,

    pub speed: i32,
    pub interlaced: bool,
    pub dispose: DisposalMethod,

    pub state: S,
    pub generator: F,
}

impl<S, F> GifStream<S, F> {
    /// A configuration for a `width` by `height` canvas paced by
    /// `interval_ms`: the frame delay is the interval clamped to at
    /// least `MIN_DELAY` milliseconds and at most `MAX_DELAY`
    /// hundredths of a second. Quantization speed starts at 10,
    /// frames are not interlaced, and the previous frame is kept.
    pub fn new(interval_ms: u128, width: u16, height: u16, state: S, image_generator: F) -> (r:
        Self)
        ensures
            r.interval_ms == interval_ms,
            r.frame_delay == frame_delay_of(interval_ms),
            r.width == width,
            r.height == height,
            r.speed == 10,
            r.interlaced == false,
            r.dispose == DisposalMethod::Keep,
            r.state == state,
            r.generator == image_generator,
    {
        let delay = if interval_ms < MIN_DELAY {
            MIN_DELAY
        } else {
            interval_ms
        };
        let hundredths = delay / 10;
        let frame_delay = (if hundredths > MAX_DELAY {
            MAX_DELAY
        } else {
            hundredths
        }) as u16;

        Self {
            interval_ms,
            frame_delay,
            width,
            height,

            state,
            generator: image_generator,

            speed: 10,
            interlaced: false,
            dispose: DisposalMethod::Keep,
        }
    }

    /// The first chunk of the stream: the header and screen
    /// descriptor announcing a global color table, followed by the
    /// table itself, padded into its size-class bucket.
    pub fn header_chunk(&self, palette: &[u8]) -> (r: Vec<u8>)
        ensures
            r@ == screen_desc_bytes(
                self.width,
                self.height,
                global_palette_flags_of(palette@.len() as int / 3),
            ) + color_table_bytes(palette@),
    {
        let mut buf: Vec<u8> = Vec::new();
        let flags = GifEncoder::global_palette_flags(palette);
        GifEncoder::write_screen_desc(&mut buf, self.width, self.height, Some(flags));
        GifEncoder::write_color_table(&mut buf, palette);
        proof {
            assert(buf@ =~= screen_desc_bytes(
                self.width,
                self.height,
                global_palette_flags_of(palette@.len() as int / 3),
            ) + color_table_bytes(palette@));
        }
        buf
    }

    /// One per-tick chunk of the stream: every byte written for one
    /// converted frame, using this configuration's delay, interlace
    /// flag, and disposal method.
    pub fn frame_chunk(&self, frame: &Frame) -> (r: Vec<u8>)
        ensures
            r@ == frame_bytes(*frame, self.frame_delay, self.interlaced, self.dispose),
    {
        let mut buf: Vec<u8> = Vec::new();
        GifEncoder::write_frame(&mut buf, frame, self.frame_delay, self.interlaced, self.dispose);
        proof {
            assert(buf@ =~= frame_bytes(*frame, self.frame_delay, self.interlaced, self.dispose));
        }
        buf
    }

    /// Replaces the generator state.
    pub fn state(self, state: S) -> (r: Self)
        ensures
            r == (Self { state, ..self }),
    {
        Self { state, ..self }
    }

    /// Sets whether frames are flagged as interlaced.
    pub fn interlaced(self, interlaced: bool) -> (r: Self)
        ensures
            r == (Self { interlaced, ..self }),
    {
        Self { interlaced, ..self }
    }

    /// Sets the disposal method serialized with every frame.
    pub fn dispose(self, dispose: DisposalMethod) -> (r: Self)
        ensures
            r == (Self { dispose, ..self }),
    {
        Self { dispose, ..self }
    }

    /// Sets the speed of the color quantization algorithm.
    /// 1 produces the nicest looking gif (but is slow), 10 is a good
    /// balance between quality and speed, 30 is fast but poor quality.
    pub fn speed(self, speed: i32) -> (r: Self)
        requires
            1 <= speed <= 30,
        ensures
            r == (Self { speed, ..self }),
    {
        Self { speed, ..self }
    }
}

} // verus!
