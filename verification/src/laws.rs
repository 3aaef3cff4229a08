//! Laws of the encoder: properties that hold of every conversion, proved
//! once and for all over the specification functions that the executable
//! pipeline is pinned to.

use vstd::prelude::*;

use crate::defs::{first_index, lemma_first_index_push, lemma_first_index_spec};
use crate::doc::{defs_block_chars, lines_chars, spec_svg};
use crate::emit::{emit_step, emit_upto, run_key, spec_emit};
use crate::grid::{color_of, lemma_row_major_index_bound, pixel_at, Pixel, PixelGrid};
use crate::markup::{header_chars, rect_chars, rect_nopos_chars, use_chars};
use crate::scan::{row_runs, runs_upto, scan_row_upto, scan_step};
use crate::scan::{signature_of, spec_runs, Run};

verus! {

/// Determinism: the run sequence and the document are functions of the
/// image's dimensions and pixel data alone, so scanning the same source
/// again yields an identical ordered sequence and identical output.
pub proof fn lemma_conversion_deterministic(g1: PixelGrid, g2: PixelGrid)
    requires
        g1.width == g2.width,
        g1.height == g2.height,
        g1.pixels@ == g2.pixels@,
    ensures
        spec_runs(g1.width as nat, g1.height as nat, g1.pixels@) == spec_runs(
            g2.width as nat,
            g2.height as nat,
            g2.pixels@,
        ),
        spec_svg(g1.width as nat, g1.height as nat, g1.pixels@) == spec_svg(
            g2.width as nat,
            g2.height as nat,
            g2.pixels@,
        ),
{
}

/// A shape signature depends only on width and color, never on position:
/// two runs anywhere in the image with equal width and color have equal
/// signatures, and therefore equal dedup keys.
pub proof fn lemma_signature_position_independent(a: Run, b: Run)
    requires
        a.width == b.width,
        a.color == b.color,
    ensures
        signature_of(a) == signature_of(b),
        run_key(a) == run_key(b),
{
}

/// The identifier under which the shape of run `i` is defined: the
/// position of its dedup key among the definitions once run `i` has been
/// emitted (`-1` is never returned for a run index inside the sequence).
pub open spec fn definition_id(runs: Seq<Run>, i: int) -> int {
    match first_index(emit_upto(runs, i + 1).0, run_key(runs[i])) {
        Some(k) => k,
        None => -1,
    }
}

/// Once a key is among the definitions, later emitter steps never move it:
/// its first index, the identifier, is stable.
pub proof fn lemma_emit_id_stable(runs: Seq<Run>, key: Seq<char>, m: int, n: int, k: int)
    requires
        0 <= m <= n,
        first_index(emit_upto(runs, m).0, key) == Some(k),
    ensures
        first_index(emit_upto(runs, n).0, key) == Some(k),
    decreases n - m,
{
    if m < n {
        lemma_emit_id_stable(runs, key, m, n - 1, k);
        let s = emit_upto(runs, n - 1);
        match first_index(s.0, run_key(runs[n - 1])) {
            Some(_) => {},
            None => {
                lemma_first_index_push(s.0, key, run_key(runs[n - 1]));
            },
        }
    }
}

/// After run `i` is emitted, its shape's key is among the definitions,
/// under the identifier `definition_id(runs, i)`.
pub proof fn lemma_emit_key_present(runs: Seq<Run>, i: int)
    requires
        0 <= i,
    ensures
        first_index(emit_upto(runs, i + 1).0, run_key(runs[i])) == Some(definition_id(runs, i)),
        0 <= definition_id(runs, i) < emit_upto(runs, i + 1).0.len(),
{
    let s = emit_upto(runs, i);
    let key = run_key(runs[i]);
    lemma_first_index_spec(s.0, key);
    match first_index(s.0, key) {
        Some(_) => {},
        None => {
            lemma_first_index_push(s.0, key, key);
        },
    }
    lemma_first_index_spec(emit_upto(runs, i + 1).0, key);
}

/// Shared shapes are defined once and reused. If two runs at different
/// positions in the sequence have the same signature, the later one
/// creates no definition: it is emitted as exactly one reference to the
/// identifier that the earlier run's shape is defined under.
pub proof fn lemma_shared_shape_one_definition(runs: Seq<Run>, i: int, j: int)
    requires
        0 <= i < j < runs.len(),
        signature_of(runs[i]) == signature_of(runs[j]),
    ensures
        emit_upto(runs, j + 1).0 == emit_upto(runs, j).0,
        definition_id(runs, j) == definition_id(runs, i),
        emit_upto(runs, j + 1).1 == emit_upto(runs, j).1.push(
            use_chars(runs[j].x as nat, runs[j].y as nat, definition_id(runs, i) as nat),
        ),
{
    assert(run_key(runs[i]) == run_key(runs[j]));
    let key = run_key(runs[i]);
    lemma_emit_key_present(runs, i);
    let id = definition_id(runs, i);
    lemma_emit_id_stable(runs, key, i + 1, j, id);
    lemma_emit_id_stable(runs, key, i + 1, j + 1, id);
    assert(emit_upto(runs, j + 1) == emit_step(
        emit_upto(runs, j).0,
        emit_upto(runs, j).1,
        runs[j],
    ));
}

/// Every definition's contents is the dedup key of one of the runs
/// already emitted.
proof fn lemma_defs_from_runs(runs: Seq<Run>, n: int, k: int)
    requires
        0 <= k < emit_upto(runs, n).0.len(),
    ensures
        exists|j: int| 0 <= j < n && emit_upto(runs, n).0[k] == run_key(#[trigger] runs[j]),
    decreases n,
{
    if n > 0 {
        let s = emit_upto(runs, n - 1);
        let key = run_key(runs[n - 1]);
        match first_index(s.0, key) {
            Some(_) => {
                lemma_defs_from_runs(runs, n - 1, k);
            },
            None => {
                if k < s.0.len() {
                    lemma_defs_from_runs(runs, n - 1, k);
                } else {
                    assert(emit_upto(runs, n).0[k] == run_key(runs[n - 1]));
                }
            },
        }
    }
}

/// The first occurrence of a signature creates its definition. A run whose
/// signature no earlier run shares is emitted as the full positioned shape,
/// and its shape's key is registered as a new definition under the next
/// identifier; together with `lemma_shared_shape_one_definition`, each
/// signature gets exactly one definition, created at its first occurrence
/// and referenced ever after.
pub proof fn lemma_first_occurrence_defines(runs: Seq<Run>, i: int)
    requires
        0 <= i < runs.len(),
        forall|k: int| 0 <= k < i ==> signature_of(#[trigger] runs[k]) != signature_of(runs[i]),
    ensures
        emit_upto(runs, i + 1).0 == emit_upto(runs, i).0.push(run_key(runs[i])),
        definition_id(runs, i) == emit_upto(runs, i).0.len(),
        emit_upto(runs, i + 1).1 == emit_upto(runs, i).1.push(
            rect_chars(runs[i].width as nat, runs[i].x as nat, runs[i].y as nat, runs[i].color),
        ),
{
    let s = emit_upto(runs, i);
    let key = run_key(runs[i]);
    if first_index(s.0, key) is Some {
        lemma_first_index_spec(s.0, key);
        let k = first_index(s.0, key)->Some_0;
        assert(s.0[k] == key);
        lemma_defs_from_runs(runs, i, k);
        let j = choose|j: int| 0 <= j < i && s.0[k] == run_key(#[trigger] runs[j]);
        crate::markup::lemma_rect_nopos_chars_injective(
            runs[j].width as nat,
            runs[j].color,
            runs[i].width as nat,
            runs[i].color,
        );
        assert(signature_of(runs[j]) == signature_of(runs[i]));
        assert(false);
    }
    lemma_first_index_push(s.0, key, key);
    lemma_emit_key_present(runs, i);
}

/// No shape is defined twice: any two distinct definitions hold distinct
/// contents, so each distinct shape owns exactly one identifier.
pub proof fn lemma_definitions_distinct(runs: Seq<Run>, n: int, k1: int, k2: int)
    requires
        0 <= k1 < k2 < emit_upto(runs, n).0.len(),
    ensures
        emit_upto(runs, n).0[k1] != emit_upto(runs, n).0[k2],
    decreases n,
{
    if n <= 0 {
    } else {
        let s = emit_upto(runs, n - 1);
        let key = run_key(runs[n - 1]);
        match first_index(s.0, key) {
            Some(_) => {
                lemma_definitions_distinct(runs, n - 1, k1, k2);
            },
            None => {
                if k2 < s.0.len() {
                    lemma_definitions_distinct(runs, n - 1, k1, k2);
                } else {
                    lemma_first_index_spec(s.0, key);
                    assert(s.0.push(key)[k1] == s.0[k1]);
                    assert(s.0[k1] != key);
                }
            },
        }
    }
}

/// The scanner state on a row of a uniform opaque image: after `n` pixels
/// one active run spans them all and nothing has been closed.
proof fn lemma_uniform_row_scan(w: u32, pix: Seq<Pixel>, p: Pixel, n: int)
    requires
        1 <= n <= w,
        pix.len() == w as int,
        p.a == 255,
        forall|i: int| 0 <= i < pix.len() ==> pix[i] == p,
    ensures
        scan_row_upto(w as nat, pix, 0, n) == (
            Some(Run { color: color_of(p), width: n as u32, x: 0, y: 0 }),
            Seq::<Run>::empty(),
        ),
    decreases n,
{
    assert(pixel_at(w as nat, pix, n - 1, 0) == p);
    if n == 1 {
        assert(scan_row_upto(w as nat, pix, 0, 0) == (None::<Run>, Seq::<Run>::empty()));
        assert(scan_row_upto(w as nat, pix, 0, 1) == scan_step(
            None,
            Seq::<Run>::empty(),
            pixel_at(w as nat, pix, 0, 0),
            0u32,
            0u32,
        ));
    } else {
        lemma_uniform_row_scan(w, pix, p, n - 1);
    }
}

/// A single-row image of one uniform opaque color yields exactly one run,
/// as wide as the image; the encoder emits exactly one definition and one
/// full shape element, and no reference.
pub proof fn lemma_uniform_row_single_shape(w: u32, pix: Seq<Pixel>, p: Pixel)
    requires
        w >= 1,
        pix.len() == w as int,
        p.a == 255,
        forall|i: int| 0 <= i < pix.len() ==> pix[i] == p,
    ensures
        spec_runs(w as nat, 1, pix) == seq![Run { color: color_of(p), width: w, x: 0, y: 0 }],
        spec_emit(spec_runs(w as nat, 1, pix)).0 == seq![
            rect_nopos_chars(w as nat, color_of(p)),
        ],
        spec_emit(spec_runs(w as nat, 1, pix)).1 == seq![
            rect_chars(w as nat, 0, 0, color_of(p)),
        ],
{
    lemma_uniform_row_scan(w, pix, p, w as int);
    let run = Run { color: color_of(p), width: w, x: 0, y: 0 };
    assert(row_runs(w as nat, pix, 0) =~= seq![run]);
    assert(runs_upto(w as nat, pix, 0) == Seq::<Run>::empty());
    assert(spec_runs(w as nat, 1, pix) =~= seq![run]);
    let runs = spec_runs(w as nat, 1, pix);
    assert(emit_upto(runs, 0) == (Seq::<Seq<char>>::empty(), Seq::<Seq<char>>::empty()));
    assert(first_index(emit_upto(runs, 0).0, run_key(run)) is None);
    assert(emit_upto(runs, 1) == emit_step(emit_upto(runs, 0).0, emit_upto(runs, 0).1, run));
    assert(spec_emit(runs).0 =~= seq![rect_nopos_chars(w as nat, color_of(p))]);
    assert(spec_emit(runs).1 =~= seq![rect_chars(w as nat, 0, 0, color_of(p))]);
}

/// One row of an all-transparent buffer scans to nothing: no run is ever
/// opened, none is closed.
proof fn lemma_transparent_row_scan(w: u32, h: u32, pix: Seq<Pixel>, y: int, n: int)
    requires
        pix.len() == (w as int) * (h as int),
        0 <= y < h,
        0 <= n <= w,
        forall|i: int| 0 <= i < pix.len() ==> #[trigger] pix[i].a == 0,
    ensures
        scan_row_upto(w as nat, pix, y, n) == (None::<Run>, Seq::<Run>::empty()),
    decreases n,
{
    if n > 0 {
        lemma_transparent_row_scan(w, h, pix, y, n - 1);
        lemma_row_major_index_bound(w as nat, h as nat, n - 1, y);
        assert(pixel_at(w as nat, pix, n - 1, y).a == 0);
    }
}

/// The first `k` rows of an all-transparent buffer yield no runs.
proof fn lemma_transparent_rows(w: u32, h: u32, pix: Seq<Pixel>, k: int)
    requires
        pix.len() == (w as int) * (h as int),
        0 <= k <= h,
        forall|i: int| 0 <= i < pix.len() ==> #[trigger] pix[i].a == 0,
    ensures
        runs_upto(w as nat, pix, k) == Seq::<Run>::empty(),
    decreases k,
{
    if k > 0 {
        lemma_transparent_rows(w, h, pix, k - 1);
        lemma_transparent_row_scan(w, h, pix, k - 1, w as int);
        assert(row_runs(w as nat, pix, k - 1) == Seq::<Run>::empty());
        assert(runs_upto(w as nat, pix, k) =~= Seq::<Run>::empty());
    }
}

/// An image entirely at alpha 0 produces zero runs and an empty element
/// sequence, yet still a well-formed document: the sized root element with
/// an empty definitions block and nothing else.
pub proof fn lemma_transparent_empty_document(w: u32, h: u32, pix: Seq<Pixel>)
    requires
        pix.len() == (w as int) * (h as int),
        forall|i: int| 0 <= i < pix.len() ==> #[trigger] pix[i].a == 0,
    ensures
        spec_runs(w as nat, h as nat, pix) == Seq::<Run>::empty(),
        spec_emit(spec_runs(w as nat, h as nat, pix)).1 == Seq::<Seq<char>>::empty(),
        spec_svg(w as nat, h as nat, pix) == header_chars(w as nat, h as nat) + "<defs>"@
            + "</defs>"@ + "</svg>"@,
{
    lemma_transparent_rows(w, h, pix, h as int);
    let runs = spec_runs(w as nat, h as nat, pix);
    assert(emit_upto(runs, 0) == (Seq::<Seq<char>>::empty(), Seq::<Seq<char>>::empty()));
    assert(defs_block_chars(Seq::<Seq<char>>::empty(), 0) == Seq::<char>::empty());
    assert(lines_chars(Seq::<Seq<char>>::empty(), 0) == Seq::<char>::empty());
    assert(spec_svg(w as nat, h as nat, pix) =~= header_chars(w as nat, h as nat) + "<defs>"@
        + "</defs>"@ + "</svg>"@);
}

} // verus!
