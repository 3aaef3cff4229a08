//! The run scanner: walks the grid row-major and groups consecutive
//! same-color pixels of one scanline into horizontal runs.
//!
//! Transparency policy: a fully transparent pixel (alpha = 0) never opens,
//! never extends, and always terminates a run. Visible pixels (alpha > 0)
//! are compared by exact equality of the three RGB channels alone; alpha is
//! not blended into the color and does not split runs of visible pixels.
//! A run never crosses a row boundary: the accumulator is reset at the start
//! of every row and any active run is force-closed at the end of the row.

use vstd::prelude::*;

use crate::grid::{color_of, pixel_at, Color, Pixel, PixelGrid};

verus! {

/// A maximal horizontal sequence of pixels on one scanline treated as one
/// visual unit: a fill color, a pixel count, and the position of its start.
#[derive(PartialEq, Eq, Structural, Clone, Copy, Debug)]
pub struct Run {
    pub color: Color,
    pub width: u32,
    pub x: u32,
    pub y: u32,
}

/// The position-independent dedup key of a run: its width and its color,
/// never its coordinates.
#[derive(PartialEq, Eq, Structural, Clone, Copy, Debug, Hash)]
pub struct ShapeSignature {
    pub width: u32,
    pub color: Color,
}

/// The signature of a run: width and color, with the position dropped.
pub open spec fn signature_of(r: Run) -> ShapeSignature {
    ShapeSignature { width: r.width, color: r.color }
}

impl Run {
    /// The dedup key of this run.
    pub fn signature(&self) -> (s: ShapeSignature)
        ensures
            s == signature_of(*self),
    {
        ShapeSignature { width: self.width, color: self.color }
    }
}

/// A run lies inside the grid: at least one pixel wide, never past the
/// right edge, on an existing row.
pub open spec fn run_in_bounds(w: nat, h: nat, r: Run) -> bool {
    &&& 1 <= r.width
    &&& r.x + r.width <= w
    &&& r.y < h
}

/// Closing the accumulator: an active run is appended to the output.
pub open spec fn close_run(acc: Option<Run>, out: Seq<Run>) -> Seq<Run> {
    match acc {
        None => out,
        Some(r) => out.push(r),
    }
}

/// One scanner step on the pixel `p` at `(x, y)`. A transparent pixel
/// closes any active run; a visible pixel either extends a same-color run
/// or closes the active run and opens a new one seeded at `(x, y)`.
pub open spec fn scan_step(acc: Option<Run>, out: Seq<Run>, p: Pixel, x: u32, y: u32) -> (
    Option<Run>,
    Seq<Run>,
) {
    if p.a == 0 {
        (None, close_run(acc, out))
    } else {
        match acc {
            Some(r) => {
                if r.color == color_of(p) {
                    (Some(Run { color: r.color, width: (r.width + 1) as u32, x: r.x, y: r.y }), out)
                } else {
                    (Some(Run { color: color_of(p), width: 1, x, y }), out.push(r))
                }
            },
            None => (Some(Run { color: color_of(p), width: 1, x, y }), out),
        }
    }
}

/// The scanner state after reading the first `n` pixels of row `y`:
/// the active run, if any, and the runs closed so far on this row.
pub open spec fn scan_row_upto(w: nat, pix: Seq<Pixel>, y: int, n: int) -> (Option<Run>, Seq<Run>)
    decreases n,
{
    if n <= 0 {
        (None, Seq::empty())
    } else {
        let s = scan_row_upto(w, pix, y, n - 1);
        scan_step(s.0, s.1, pixel_at(w, pix, n - 1, y), (n - 1) as u32, y as u32)
    }
}

/// The runs of row `y`: a full pass over the row, with the active run
/// force-closed at the row's end.
pub open spec fn row_runs(w: nat, pix: Seq<Pixel>, y: int) -> Seq<Run> {
    let s = scan_row_upto(w, pix, y, w as int);
    close_run(s.0, s.1)
}

/// The runs of the first `k` rows, in scan order.
pub open spec fn runs_upto(w: nat, pix: Seq<Pixel>, k: int) -> Seq<Run>
    decreases k,
{
    if k <= 0 {
        Seq::empty()
    } else {
        runs_upto(w, pix, k - 1) + row_runs(w, pix, k - 1)
    }
}

/// The ordered run sequence of a whole `w` by `h` row-major pixel buffer:
/// a function of the pixel data alone.
pub open spec fn spec_runs(w: nat, h: nat, pix: Seq<Pixel>) -> Seq<Run> {
    runs_upto(w, pix, h as int)
}

/// Scans the grid row-major and returns its ordered run sequence.
///
/// The result is pinned to `spec_runs`, a function of the grid's contents
/// alone, so two scans of equal grids return identical sequences. Every
/// returned run lies inside the grid; in particular no run extends past the
/// right edge.
pub fn scan_runs(g: &PixelGrid) -> (runs: Vec<Run>)
    requires
        g.wf(),
    ensures
        runs@ == spec_runs(g.width as nat, g.height as nat, g.pixels@),
        forall|i: int|
            0 <= i < runs@.len() ==> run_in_bounds(
                g.width as nat,
                g.height as nat,
                #[trigger] runs@[i],
            ),
{
    let w = g.width;
    let h = g.height;
    let ghost pix = g.pixels@;
    let mut runs: Vec<Run> = Vec::new();
    let mut y: u32 = 0;
    while y < h
        invariant
            g.wf(),
            w == g.width,
            h == g.height,
            pix == g.pixels@,
            y <= h,
            runs@ == runs_upto(w as nat, pix, y as int),
            forall|i: int|
                0 <= i < runs@.len() ==> run_in_bounds(w as nat, h as nat, #[trigger] runs@[i]),
        decreases h - y,
    {
        let mut acc: Option<Run> = None;
        let mut x: u32 = 0;
        while x < w
            invariant
                g.wf(),
                w == g.width,
                h == g.height,
                pix == g.pixels@,
                y < h,
                x <= w,
                acc == scan_row_upto(w as nat, pix, y as int, x as int).0,
                runs@ == runs_upto(w as nat, pix, y as int) + scan_row_upto(
                    w as nat,
                    pix,
                    y as int,
                    x as int,
                ).1,
                acc matches Some(r) ==> r.y == y && 1 <= r.width && r.x + r.width == x,
                forall|i: int|
                    0 <= i < runs@.len() ==> run_in_bounds(w as nat, h as nat, #[trigger] runs@[i]),
            decreases w - x,
        {
            let p = g.get_pixel(x, y);
            let ghost prev = scan_row_upto(w as nat, pix, y as int, x as int);
            proof {
                assert(scan_row_upto(w as nat, pix, y as int, x as int + 1) == scan_step(
                    prev.0,
                    prev.1,
                    pixel_at(w as nat, pix, x as int, y as int),
                    x,
                    y,
                ));
            }
            if p.a == 0 {
                if let Some(r) = acc {
                    runs.push(r);
                }
                acc = None;
            } else {
                let p_color = Color { r: p.r, g: p.g, b: p.b };
                match acc {
                    Some(r) => {
                        if r.color == p_color {
                            acc = Some(
                                Run { color: r.color, width: r.width + 1, x: r.x, y: r.y },
                            );
                        } else {
                            runs.push(r);
                            acc = Some(Run { color: p_color, width: 1, x, y });
                        }
                    },
                    None => {
                        acc = Some(Run { color: p_color, width: 1, x, y });
                    },
                }
            }
            x = x + 1;
        }
        if let Some(r) = acc {
            runs.push(r);
        }
        proof {
            assert(runs@ == runs_upto(w as nat, pix, y as int + 1));
        }
        y = y + 1;
    }
    runs
}

} // verus!
