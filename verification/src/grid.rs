//! The in-memory pixel grid that the scanner walks.
//!
//! A decoder (outside this library) produces the grid as plain values:
//! a width, a height, and one `Pixel` per coordinate in row-major order.

use vstd::prelude::*;

verus! {

/// One pixel with 8-bit red, green, blue and alpha channels.
#[derive(PartialEq, Eq, Structural, Clone, Copy, Debug)]
pub struct Pixel {
    pub r: u8,
    pub g: u8,
    pub b: u8,
    pub a: u8,
}

/// An opaque fill color: the three RGB channels of a pixel, without alpha.
#[derive(PartialEq, Eq, Structural, Clone, Copy, Debug, Hash)]
pub struct Color {
    pub r: u8,
    pub g: u8,
    pub b: u8,
}

/// The color a visible pixel contributes: its RGB channels, alpha dropped.
pub open spec fn color_of(p: Pixel) -> Color {
    Color { r: p.r, g: p.g, b: p.b }
}

/// A raster image buffered whole in memory: `width * height` pixels,
/// stored row-major (row `y` occupies indices `y * width .. (y + 1) * width`).
pub struct PixelGrid {
    pub width: u32,
    pub height: u32,
    pub pixels: Vec<Pixel>,
}

/// Index of coordinate `(x, y)` in a row-major buffer of row length `w`.
pub open spec fn row_major_index(w: nat, x: int, y: int) -> int {
    y * w + x
}

/// The pixel at `(x, y)` of a row-major buffer of row length `w`.
pub open spec fn pixel_at(w: nat, pix: Seq<Pixel>, x: int, y: int) -> Pixel {
    pix[row_major_index(w, x, y)]
}

/// A coordinate inside the grid maps to an index inside the buffer.
pub proof fn lemma_row_major_index_bound(w: nat, h: nat, x: int, y: int)
    requires
        0 <= x < w,
        0 <= y < h,
    ensures
        0 <= row_major_index(w, x, y) < w * h,
        y * w <= row_major_index(w, x, y),
{
    assert(y * w + x < w * h && 0 <= y * w) by (nonlinear_arith)
        requires
            0 <= x < w,
            0 <= y < h,
    ;
}

impl PixelGrid {
    /// The buffer length is consistent with the declared dimensions.
    pub open spec fn wf(&self) -> bool {
        self.pixels@.len() == (self.width as int) * (self.height as int)
    }

    pub open spec fn spec_pixel(&self, x: int, y: int) -> Pixel {
        pixel_at(self.width as nat, self.pixels@, x, y)
    }

    /// Builds a grid after checking that the buffer length matches the
    /// declared `width * height`; a mismatched buffer is malformed input
    /// and yields `None` rather than a grid that would index out of range.
    pub fn new(width: u32, height: u32, pixels: Vec<Pixel>) -> (r: Option<PixelGrid>)
        ensures
            match r {
                Some(g) => {
                    &&& g.width == width
                    &&& g.height == height
                    &&& g.pixels@ == pixels@
                    &&& g.wf()
                },
                None => pixels@.len() != (width as int) * (height as int),
            },
    {
        proof {
            assert((width as int) * (height as int) <= 0xffff_ffff * 0xffff_ffff) by (nonlinear_arith)
                requires width <= 0xffff_ffffu32 && height <= 0xffff_ffffu32;
        }
        let expected: u64 = (width as u64) * (height as u64);
        if pixels.len() as u64 == expected {
            Some(PixelGrid { width, height, pixels })
        } else {
            None
        }
    }

    /// Random-access read of the pixel at `(x, y)`.
    pub fn get_pixel(&self, x: u32, y: u32) -> (p: Pixel)
        requires
            self.wf(),
            x < self.width,
            y < self.height,
        ensures
            p == self.spec_pixel(x as int, y as int),
    {
        let n = self.pixels.len();
        proof {
            lemma_row_major_index_bound(
                self.width as nat,
                self.height as nat,
                x as int,
                y as int,
            );
            assert(row_major_index(self.width as nat, x as int, y as int) < n);
        }
        let idx: usize = (y as usize) * (self.width as usize) + (x as usize);
        self.pixels[idx]
    }
}

} // verus!
