//! The rectangle emitter: turns the ordered run sequence into markup
//! elements, deduplicating repeated run shapes through the definition cache.
//!
//! The first occurrence of a shape emits the full positioned rectangle and
//! registers the shape's position-free contents as a definition; every later
//! occurrence emits only a positioned reference to that definition's
//! identifier.

use vstd::prelude::*;

use crate::defs::{first_index, SVGDefs};
use crate::grid::Color;
use crate::markup::{rect_chars, rect_element, rect_nopos_chars, use_chars};
use crate::markup::new_box_without_pos;
use crate::scan::Run;

verus! {

/// The dedup key of a run, as stored in the cache: the position-free
/// rectangle markup of its width and color.
pub open spec fn run_key(r: Run) -> Seq<char> {
    rect_nopos_chars(r.width as nat, r.color)
}

/// One emitter step: the definition contents and the element appended for
/// one run, given the definitions accumulated so far.
pub open spec fn emit_step(defs: Seq<Seq<char>>, lines: Seq<Seq<char>>, r: Run) -> (
    Seq<Seq<char>>,
    Seq<Seq<char>>,
) {
    match first_index(defs, run_key(r)) {
        Some(k) => (defs, lines.push(use_chars(r.x as nat, r.y as nat, k as nat))),
        None => (
            defs.push(run_key(r)),
            lines.push(rect_chars(r.width as nat, r.x as nat, r.y as nat, r.color)),
        ),
    }
}

/// Definitions and elements after the first `n` runs are emitted.
pub open spec fn emit_upto(runs: Seq<Run>, n: int) -> (Seq<Seq<char>>, Seq<Seq<char>>)
    decreases n,
{
    if n <= 0 {
        (Seq::empty(), Seq::empty())
    } else {
        let s = emit_upto(runs, n - 1);
        emit_step(s.0, s.1, runs[n - 1])
    }
}

/// Definitions (in identifier order) and elements (in scan order) emitted
/// for a whole run sequence.
pub open spec fn spec_emit(runs: Seq<Run>) -> (Seq<Seq<char>>, Seq<Seq<char>>) {
    emit_upto(runs, runs.len() as int)
}

/// The markup element for one run of the given width, position and color,
/// deduplicated against `svg_defs`: a positioned reference when a
/// definition with this shape's contents already exists, otherwise the full
/// positioned rectangle, with the shape registered as a new definition.
pub fn new_box(width: u32, x: u32, y: u32, r: u8, g: u8, b: u8, svg_defs: &mut SVGDefs) -> (line:
    String)
    requires
        old(svg_defs).wf(),
    ensures
        final(svg_defs).wf(),
        ({
            let key = rect_nopos_chars(width as nat, Color { r, g, b });
            match first_index(old(svg_defs)@, key) {
                Some(k) => final(svg_defs)@ == old(svg_defs)@ && line@ == use_chars(
                    x as nat,
                    y as nat,
                    k as nat,
                ),
                None => final(svg_defs)@ == old(svg_defs)@.push(key) && line@ == rect_chars(
                    width as nat,
                    x as nat,
                    y as nat,
                    Color { r, g, b },
                ),
            }
        }),
{
    let contents = new_box_without_pos(width, r, g, b);
    match svg_defs.contains(&contents) {
        Some(d) => d.to_use_string(x, y),
        None => {
            svg_defs.add(&contents);
            rect_element(width, x, y, r, g, b)
        },
    }
}

/// Emits the markup elements for the whole run sequence, in scan order,
/// building the definition cache as it goes. Returns the filled cache and
/// the ordered element strings, both pinned to `spec_emit` of the runs.
pub fn rect_elements(runs: &Vec<Run>) -> (out: (SVGDefs, Vec<String>))
    ensures
        out.0.wf(),
        out.0@ == spec_emit(runs@).0,
        out.1.deep_view() == spec_emit(runs@).1,
{
    let mut svg_defs = SVGDefs::new();
    let mut lines: Vec<String> = Vec::new();
    let n = runs.len();
    let mut j: usize = 0;
    while j < n
        invariant
            n == runs@.len(),
            j <= n,
            svg_defs.wf(),
            svg_defs@ == emit_upto(runs@, j as int).0,
            lines.deep_view() == emit_upto(runs@, j as int).1,
        decreases n - j,
    {
        let rn = runs[j];
        let ghost prev = emit_upto(runs@, j as int);
        let line = new_box(rn.width, rn.x, rn.y, rn.color.r, rn.color.g, rn.color.b, &mut svg_defs);
        lines.push(line);
        proof {
            assert(rn.color == Color { r: rn.color.r, g: rn.color.g, b: rn.color.b });
            assert(emit_upto(runs@, j as int + 1) == emit_step(prev.0, prev.1, runs@[j as int]));
            assert(lines.deep_view() =~= emit_upto(runs@, j as int + 1).1);
        }
        j += 1;
    }
    proof {
        assert(lines.deep_view() =~= spec_emit(runs@).1);
    }
    (svg_defs, lines)
}

} // verus!
