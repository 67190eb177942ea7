//! Palette quantization backed by color_quant's NeuQuant.
//!
//! The quantizer itself is an external capability: its color map and
//! nearest-color lookup are opaque, named by the spec functions
//! below, and everything around them is verified against those names.

use vstd::prelude::*;
use vstd::slice::slice_subrange;

use crate::gif::{last_transparent, pixel_at, Frame};

verus! {

/// color_quant's quantizer type, declared so values of it can stand
/// in signatures and fields; it is opaque to the verifier.
#[verifier::external_type_specification]
#[verifier::external_body]
pub struct ExNeuQuant(color_quant::NeuQuant);

/// Names the RGB bytes of the color map a trained quantizer holds;
/// they depend on the quantizer value alone.
pub uninterp spec fn nq_palette(nq: color_quant::NeuQuant) -> Seq<u8>;

/// Names the color-map index the quantizer's nearest-color search
/// returns for a 4-byte RGBA pixel; it depends on the quantizer and
/// the pixel bytes alone.
pub uninterp spec fn nq_index(nq: color_quant::NeuQuant, pix: Seq<u8>) -> usize;

/// Relies on `color_quant::NeuQuant::new`: trains a quantizer whose
/// color map has exactly `colors` entries (3 RGB bytes each). The
/// call divides by `samplefac` and indexes a `colors - 1` slot, so
/// zero values of either are excluded.
pub assume_specification [ color_quant::NeuQuant::new ](
    samplefac: i32,
    colors: usize,
    pixels: &[u8],
) -> (r: color_quant::NeuQuant)
    requires
        1 <= samplefac <= 30,
        1 <= colors <= 256,
    ensures
        nq_palette(r).len() == 3 * colors,
;

/// Relies on `color_quant::NeuQuant::color_map_rgb`: returns the RGB
/// bytes of the trained color map, three per entry.
pub assume_specification [ color_quant::NeuQuant::color_map_rgb ](
    nq: &color_quant::NeuQuant,
) -> (r: Vec<u8>)
    ensures
        r@ == nq_palette(*nq),
;

/// Relies on `color_quant::NeuQuant::index_of`: nearest-color lookup
/// that asserts a 4-byte pixel and always returns an index of an
/// existing color-map entry.
pub assume_specification [ color_quant::NeuQuant::index_of ](
    nq: &color_quant::NeuQuant,
    pixel: &[u8],
) -> (r: usize)
    requires
        pixel@.len() == 4,
    ensures
        r == nq_index(*nq, pixel@),
        3 * r < nq_palette(*nq).len(),
;

/// A reusable palette built once and shared read-only by every
/// frame conversion of a stream: the trained quantizer together with
/// its derived RGB color table.
pub struct GlobalPalette {
    nq: color_quant::NeuQuant,
    palette: Vec<u8>,
}

impl GlobalPalette {
    /// The stored table is exactly the quantizer's color map, a
    /// whole number of RGB triples, for 1 to 256 colors.
    #[verifier::type_invariant]
    spec fn inv(self) -> bool {
        &&& self.palette@ == nq_palette(self.nq)
        &&& self.palette@.len() % 3 == 0
        &&& 3 <= self.palette@.len() <= 768
    }

    /// The RGB bytes of the palette's color table.
    pub closed spec fn table(self) -> Seq<u8> {
        self.palette@
    }

    /// How many colors the table holds.
    pub closed spec fn num_colors(self) -> int {
        self.palette@.len() as int / 3
    }

    /// The table index the nearest-color lookup yields for a pixel.
    pub closed spec fn lookup(self, pix: Seq<u8>) -> int {
        nq_index(self.nq, pix) as int
    }

    /// Builds a palette of `colors` entries from a representative
    /// RGBA sample. `colors` must be between 1 and 256.
    pub fn new(speed: i32, colors: usize, data: &[u8]) -> (r: Self)
        requires
            1 <= speed <= 30,
            1 <= colors <= 256,
        ensures
            r.num_colors() == colors,
            r.table().len() == 3 * colors,
    {
        let nq = color_quant::NeuQuant::new(speed, colors, data);
        let palette = nq.color_map_rgb();
        Self { nq, palette }
    }

    /// Read access to the RGB color table.
    pub fn palette(&self) -> (r: &[u8])
        ensures
            r@ == self.table(),
            r@.len() == 3 * self.num_colors(),
    {
        proof {
            use_type_invariant(self);
        }
        self.palette.as_slice()
    }

    /// Nearest-color lookup for one 4-byte RGBA pixel; the result
    /// always indexes a color of the table.
    pub fn index_of(&self, pix: &[u8]) -> (r: u8)
        requires
            pix@.len() == 4,
        ensures
            r as int == self.lookup(pix@),
            (r as int) < self.num_colors(),
    {
        proof {
            use_type_invariant(self);
        }
        let idx = self.nq.index_of(pix);
        proof {
            assert(self.palette@.len() == 3 * (self.palette@.len() as int / 3));
        }
        idx as u8
    }

    /// Bulk nearest-color lookup: one table index per whole RGBA
    /// pixel of `data`, in scan order.
    pub fn get_indexed_rgba(&self, data: &[u8]) -> (r: Vec<u8>)
        ensures
            r@.len() == data@.len() as int / 4,
            forall|k: int|
                0 <= k < r@.len() ==> r@[k] as int == self.lookup(pixel_at(data@, k)) && (
                r@[k] as int) < self.num_colors(),
    {
        let len = data.len();
        let n = len / 4;
        let mut out: Vec<u8> = Vec::new();
        let mut i: usize = 0;
        while i < n
            invariant
                i <= n,
                n == len as int / 4,
                data@.len() == len,
                out@.len() == i,
                forall|k: int|
                    0 <= k < i ==> out@[k] as int == self.lookup(pixel_at(data@, k)) && (
                    out@[k] as int) < self.num_colors(),
            decreases n - i,
        {
            proof {
                assert(4 * (n as int) <= len);
            }
            let pix = slice_subrange(data, 4 * i, 4 * i + 4);
            let idx = self.index_of(pix);
            out.push(idx);
            i = i + 1;
        }
        out
    }
}

/// `Some` position as a mathematical position.
spec fn found_at(pos: Option<usize>) -> Option<int> {
    match pos {
        Some(j) => Some(j as int),
        None => None,
    }
}

impl Frame {
    /// Quantizes a raw RGBA raster into a frame with a fresh local
    /// 256-color palette. A pixel is transparent only when its alpha
    /// byte is exactly zero; with several such pixels, the last one
    /// in scan order decides the transparent index.
    pub fn from_rgba(w: u16, h: u16, data: &[u8], speed: i32) -> (r: Self)
        requires
            1 <= speed <= 30,
            data@.len() == 4 * (w as int) * (h as int),
        ensures
            r.width == w,
            r.height == h,
            r.buffer@.len() == w as int * h as int,
            match r.palette {
                Some(p) => p@.len() == 3 * 256,
                None => false,
            },
            r.transparent == (match last_transparent(data@, w as int * h as int) {
                Some(j) => Some(r.buffer@[j]),
                None => None::<u8>,
            }),
            r.wf(),
    {
        let len = data.len();
        let n = len / 4;
        proof {
            assert(4 * (w as int) * (h as int) == 4 * ((w as int) * (h as int)))
                by (nonlinear_arith);
            assert(n as int == (w as int) * (h as int));
        }
        let t_pos = scan_transparent(data, n);

        let nq = color_quant::NeuQuant::new(speed, 256, data);
        let palette = nq.color_map_rgb();

        let mut buffer: Vec<u8> = Vec::new();
        let mut i: usize = 0;
        while i < n
            invariant
                i <= n,
                n == len as int / 4,
                data@.len() == len,
                nq_palette(nq).len() == 3 * 256,
                buffer@.len() == i,
            decreases n - i,
        {
            proof {
                assert(4 * (n as int) <= len);
            }
            let pix = slice_subrange(data, 4 * i, 4 * i + 4);
            let idx = nq.index_of(pix);
            buffer.push(idx as u8);
            i = i + 1;
        }

        let transparent = match t_pos {
            Some(j) => Some(buffer[j]),
            None => None,
        };
        Self { width: w, height: h, transparent, palette: Some(palette), buffer }
    }

    /// Converts a raw RGBA raster against an already-built global
    /// palette; the frame carries no local table. The transparent
    /// index follows the same last-pixel-wins rule as `from_rgba`.
    pub fn with_global_palette_rgba(w: u16, h: u16, data: &[u8], gp: &GlobalPalette) -> (r: Self)
        requires
            data@.len() == 4 * (w as int) * (h as int),
        ensures
            r.width == w,
            r.height == h,
            r.palette is None,
            r.buffer@.len() == w as int * h as int,
            forall|k: int|
                0 <= k < r.buffer@.len() ==> r.buffer@[k] as int == gp.lookup(pixel_at(data@, k))
                    && (r.buffer@[k] as int) < gp.num_colors(),
            r.transparent == (match last_transparent(data@, w as int * h as int) {
                Some(j) => Some(r.buffer@[j]),
                None => None::<u8>,
            }),
            r.wf(),
    {
        let len = data.len();
        let n = len / 4;
        proof {
            assert(4 * (w as int) * (h as int) == 4 * ((w as int) * (h as int)))
                by (nonlinear_arith);
            assert(n as int == (w as int) * (h as int));
        }
        let t_pos = scan_transparent(data, n);
        let buffer = gp.get_indexed_rgba(data);
        let transparent = match t_pos {
            Some(j) => Some(buffer[j]),
            None => None,
        };
        Self { width: w, height: h, transparent, palette: None, buffer }
    }
}

/// Scans the first `n` whole RGBA pixels for zero-alpha pixels and
/// returns the position of the last one found, if any.
fn scan_transparent(data: &[u8], n: usize) -> (r: Option<usize>)
    requires
        4 * (n as int) <= data@.len(),
    ensures
        found_at(r) == last_transparent(data@, n as int),
        match r {
            Some(j) => j < n,
            None => true,
        },
{
    let len = data.len();
    let mut t_pos: Option<usize> = None;
    let mut i: usize = 0;
    while i < n
        invariant
            i <= n,
            data@.len() == len as int,
            4 * (n as int) <= data@.len(),
            found_at(t_pos) == last_transparent(data@, i as int),
            match t_pos {
                Some(j) => j < i,
                None => true,
            },
        decreases n - i,
    {
        if data[4 * i + 3] == 0 {
            t_pos = Some(i);
        }
        i = i + 1;
    }
    t_pos
}

} // verus!
