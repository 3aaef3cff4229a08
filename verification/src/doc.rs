//! The document serializer: wraps the ordered definitions and the ordered
//! elements into one output document with a fixed header and footer, and
//! the whole-image conversion that composes scanner, emitter and
//! serializer.

use vstd::prelude::*;
use vstd::string::StringExecFns;

use crate::defs::SVGDefs;
use crate::emit::{rect_elements, spec_emit};
use crate::grid::{Pixel, PixelGrid};
use crate::markup::{group_chars, header_chars, header_string};
use crate::scan::{scan_runs, spec_runs};

verus! {

/// The definitions block body: each stored contents string grouped under
/// its identifier (its position), in identifier order, for the first `n`
/// definitions.
pub open spec fn defs_block_chars(defs: Seq<Seq<char>>, n: int) -> Seq<char>
    decreases n,
{
    if n <= 0 {
        Seq::empty()
    } else {
        defs_block_chars(defs, n - 1) + group_chars((n - 1) as nat, defs[n - 1])
    }
}

/// The element block body: the first `n` element strings, in scan order.
pub open spec fn lines_chars(lines: Seq<Seq<char>>, n: int) -> Seq<char>
    decreases n,
{
    if n <= 0 {
        Seq::empty()
    } else {
        lines_chars(lines, n - 1) + lines[n - 1]
    }
}

/// The whole document: root element sized to the image, the definitions
/// block, the elements in scan order, and the closing tag.
pub open spec fn doc_chars(w: nat, h: nat, defs: Seq<Seq<char>>, lines: Seq<Seq<char>>) -> Seq<
    char,
> {
    header_chars(w, h) + "<defs>"@ + defs_block_chars(defs, defs.len() as int) + "</defs>"@
        + lines_chars(lines, lines.len() as int) + "</svg>"@
}

/// The document produced for a `w` by `h` row-major pixel buffer: scan,
/// emit, serialize. A function of the pixel data alone.
pub open spec fn spec_svg(w: nat, h: nat, pix: Seq<Pixel>) -> Seq<char> {
    let e = spec_emit(spec_runs(w, h, pix));
    doc_chars(w, h, e.0, e.1)
}

/// Serializes the filled definition cache and the ordered elements into
/// the final document text.
pub fn svg_document(width: u32, height: u32, defs: &SVGDefs, lines: &Vec<String>) -> (s: String)
    requires
        defs.wf(),
    ensures
        s@ == doc_chars(width as nat, height as nat, defs@, lines.deep_view()),
{
    let mut s = header_string(width, height);
    s.append("<defs>");
    let nd = defs.defs.len();
    let mut j: usize = 0;
    while j < nd
        invariant
            defs.wf(),
            nd == defs.defs@.len(),
            j <= nd,
            s@ == header_chars(width as nat, height as nat) + "<defs>"@ + defs_block_chars(
                defs@,
                j as int,
            ),
        decreases nd - j,
    {
        let entry = defs.defs[j].to_string();
        s.append(entry.as_str());
        proof {
            assert(defs@[j as int] == defs.defs@[j as int].contents@);
            assert(s@ =~= header_chars(width as nat, height as nat) + "<defs>"@ + defs_block_chars(
                defs@,
                j as int + 1,
            ));
        }
        j += 1;
    }
    s.append("</defs>");
    let ghost mid = s@;
    let nl = lines.len();
    let mut k: usize = 0;
    while k < nl
        invariant
            nl == lines@.len(),
            k <= nl,
            s@ == mid + lines_chars(lines.deep_view(), k as int),
        decreases nl - k,
    {
        s.append(lines[k].as_str());
        proof {
            assert(lines@[k as int]@ == lines.deep_view()[k as int]);
            assert(s@ =~= mid + lines_chars(lines.deep_view(), k as int + 1));
        }
        k += 1;
    }
    s.append("</svg>");
    proof {
        assert(s@ =~= doc_chars(width as nat, height as nat, defs@, lines.deep_view()));
    }
    s
}

/// Converts one decoded image into its vector document: scans the grid
/// into runs, emits deduplicated rectangle elements, and serializes them.
/// The text returned is exactly `spec_svg` of the grid's contents, so equal
/// grids convert to identical documents.
pub fn svg_from_grid(g: &PixelGrid) -> (s: String)
    requires
        g.wf(),
    ensures
        s@ == spec_svg(g.width as nat, g.height as nat, g.pixels@),
{
    let runs = scan_runs(g);
    let (defs, lines) = rect_elements(&runs);
    svg_document(g.width, g.height, &defs, &lines)
}

} // verus!
