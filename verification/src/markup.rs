//! Textual building blocks of the output document.
//!
//! Every fragment of markup the library emits is pinned down here by a spec
//! function over sequences of characters, and built in executable code that
//! is proved to produce exactly those characters.
//!
//! Emitted rectangles carry the run width plus a fixed overlap margin of two
//! tenths (rendered as a trailing `.2`), and a fixed height of `1.2`, so that
//! adjacent rectangles show no seams when rendered.

use vstd::prelude::*;
use vstd::string::StringExecFns;

use crate::grid::Color;

verus! {

/// The decimal digit character for `d < 10`.
pub open spec fn dec_digit(d: nat) -> char {
    if d == 0 {
        '0'
    } else if d == 1 {
        '1'
    } else if d == 2 {
        '2'
    } else if d == 3 {
        '3'
    } else if d == 4 {
        '4'
    } else if d == 5 {
        '5'
    } else if d == 6 {
        '6'
    } else if d == 7 {
        '7'
    } else if d == 8 {
        '8'
    } else {
        '9'
    }
}

/// The decimal rendering of `n`, most significant digit first, no sign,
/// no leading zeros (a lone `0` for zero).
pub open spec fn dec_chars(n: nat) -> Seq<char>
    decreases n,
{
    if n < 10 {
        seq![dec_digit(n)]
    } else {
        dec_chars(n / 10).push(dec_digit(n % 10))
    }
}

/// The uppercase hexadecimal digit character for `d < 16`.
pub open spec fn hex_digit(d: nat) -> char {
    if d < 10 {
        dec_digit(d)
    } else if d == 10 {
        'A'
    } else if d == 11 {
        'B'
    } else if d == 12 {
        'C'
    } else if d == 13 {
        'D'
    } else if d == 14 {
        'E'
    } else {
        'F'
    }
}

/// One byte as two uppercase hexadecimal digits.
pub open spec fn byte_hex_chars(b: nat) -> Seq<char> {
    seq![hex_digit(b / 16), hex_digit(b % 16)]
}

/// A color as `#RRGGBB` with uppercase hexadecimal digits.
pub open spec fn hex_color_chars(c: Color) -> Seq<char> {
    "#"@ + byte_hex_chars(c.r as nat) + byte_hex_chars(c.g as nat) + byte_hex_chars(c.b as nat)
}

/// A decimal rendering is never empty, and has a single digit exactly for
/// `n < 10`.
pub proof fn lemma_dec_chars_len(n: nat)
    ensures
        dec_chars(n).len() >= 1,
        n < 10 <==> dec_chars(n).len() == 1,
    decreases n,
{
    if n >= 10 {
        lemma_dec_chars_len(n / 10);
    }
}

/// Distinct numbers render to distinct decimal strings.
pub proof fn lemma_dec_chars_injective(a: nat, b: nat)
    requires
        dec_chars(a) == dec_chars(b),
    ensures
        a == b,
    decreases a,
{
    lemma_dec_chars_len(a);
    lemma_dec_chars_len(b);
    if a < 10 && b < 10 {
        assert(dec_chars(a)[0] == dec_digit(a));
        assert(dec_chars(b)[0] == dec_digit(b));
    } else if a >= 10 && b >= 10 {
        let la = dec_chars(a / 10);
        let lb = dec_chars(b / 10);
        assert(dec_chars(a) == la.push(dec_digit(a % 10)));
        assert(dec_chars(b) == lb.push(dec_digit(b % 10)));
        assert(la.len() == lb.len());
        assert(dec_chars(a).last() == dec_digit(a % 10));
        assert(dec_chars(b).last() == dec_digit(b % 10));
        assert(a % 10 == b % 10);
        assert(la =~= lb) by {
            assert(forall|i: int|
                0 <= i < la.len() ==> la[i] == dec_chars(a)[i] && lb[i] == dec_chars(b)[i]);
        }
        lemma_dec_chars_injective(a / 10, b / 10);
    }
}

/// Distinct colors render to distinct `#RRGGBB` strings.
pub proof fn lemma_hex_color_chars_injective(c1: Color, c2: Color)
    requires
        hex_color_chars(c1) == hex_color_chars(c2),
    ensures
        c1 == c2,
{
    reveal_strlit("#");
    let s1 = hex_color_chars(c1);
    let s2 = hex_color_chars(c2);
    assert(s1[1] == hex_digit(c1.r as nat / 16) && s1[2] == hex_digit(c1.r as nat % 16));
    assert(s1[3] == hex_digit(c1.g as nat / 16) && s1[4] == hex_digit(c1.g as nat % 16));
    assert(s1[5] == hex_digit(c1.b as nat / 16) && s1[6] == hex_digit(c1.b as nat % 16));
    assert(s2[1] == hex_digit(c2.r as nat / 16) && s2[2] == hex_digit(c2.r as nat % 16));
    assert(s2[3] == hex_digit(c2.g as nat / 16) && s2[4] == hex_digit(c2.g as nat % 16));
    assert(s2[5] == hex_digit(c2.b as nat / 16) && s2[6] == hex_digit(c2.b as nat % 16));
    assert(c1.r == c2.r && c1.g == c2.g && c1.b == c2.b);
}

/// The dedup key is faithful: two width/color pairs produce the same
/// position-free rectangle markup only when they are the same pair.
pub proof fn lemma_rect_nopos_chars_injective(w1: nat, c1: Color, w2: nat, c2: Color)
    requires
        rect_nopos_chars(w1, c1) == rect_nopos_chars(w2, c2),
    ensures
        w1 == w2,
        c1 == c2,
{
    let s1 = rect_nopos_chars(w1, c1);
    let s2 = rect_nopos_chars(w2, c2);
    let p = "<rect width='"@.len() as int;
    let m = ".2' height='1.2' fill='"@.len() as int;
    let d1 = dec_chars(w1).len() as int;
    let d2 = dec_chars(w2).len() as int;
    reveal_strlit("#");
    assert(hex_color_chars(c1).len() == 7 && hex_color_chars(c2).len() == 7);
    assert(s1.len() == p + d1 + m + 7 + "'></rect>"@.len());
    assert(s2.len() == p + d2 + m + 7 + "'></rect>"@.len());
    assert(d1 == d2);
    assert(dec_chars(w1) =~= dec_chars(w2)) by {
        assert(forall|i: int|
            0 <= i < d1 ==> dec_chars(w1)[i] == s1[p + i] && dec_chars(w2)[i] == s2[p + i]);
    }
    lemma_dec_chars_injective(w1, w2);
    assert(hex_color_chars(c1) =~= hex_color_chars(c2)) by {
        assert(forall|i: int|
            0 <= i < 7 ==> hex_color_chars(c1)[i] == s1[p + d1 + m + i] && hex_color_chars(c2)[i]
                == s2[p + d2 + m + i]);
    }
    lemma_hex_color_chars_injective(c1, c2);
}

fn dec_digit_str(d: u8) -> (r: &'static str)
    requires
        d < 10,
    ensures
        r@ == seq![dec_digit(d as nat)],
{
    let s: &'static str = match d {
        0 => "0",
        1 => "1",
        2 => "2",
        3 => "3",
        4 => "4",
        5 => "5",
        6 => "6",
        7 => "7",
        8 => "8",
        _ => "9",
    };
    proof {
        reveal_strlit("0");
        reveal_strlit("1");
        reveal_strlit("2");
        reveal_strlit("3");
        reveal_strlit("4");
        reveal_strlit("5");
        reveal_strlit("6");
        reveal_strlit("7");
        reveal_strlit("8");
        reveal_strlit("9");
        assert(s@ =~= seq![dec_digit(d as nat)]);
    }
    s
}

fn hex_digit_str(d: u8) -> (r: &'static str)
    requires
        d < 16,
    ensures
        r@ == seq![hex_digit(d as nat)],
{
    if d < 10 {
        dec_digit_str(d)
    } else {
        let s: &'static str = match d {
            10 => "A",
            11 => "B",
            12 => "C",
            13 => "D",
            14 => "E",
            _ => "F",
        };
        proof {
            reveal_strlit("A");
            reveal_strlit("B");
            reveal_strlit("C");
            reveal_strlit("D");
            reveal_strlit("E");
            reveal_strlit("F");
            assert(s@ =~= seq![hex_digit(d as nat)]);
        }
        s
    }
}

/// The decimal rendering of `n` as an owned string.
pub fn u64_dec_str(n: u64) -> (r: String)
    ensures
        r@ == dec_chars(n as nat),
    decreases n,
{
    if n < 10 {
        String::from_str(dec_digit_str(n as u8))
    } else {
        let mut s = u64_dec_str(n / 10);
        s.append(dec_digit_str((n % 10) as u8));
        proof {
            assert(s@ =~= dec_chars(n as nat));
        }
        s
    }
}

/// A color as a `#RRGGBB` hexadecimal fill value.
#[inline(always)]
pub fn rgb_to_hex(r: u8, g: u8, b: u8) -> (s: String)
    ensures
        s@ == hex_color_chars(Color { r, g, b }),
{
    let mut s = String::from_str("#");
    s.append(hex_digit_str(r / 16));
    s.append(hex_digit_str(r % 16));
    s.append(hex_digit_str(g / 16));
    s.append(hex_digit_str(g % 16));
    s.append(hex_digit_str(b / 16));
    s.append(hex_digit_str(b % 16));
    proof {
        assert(s@ =~= hex_color_chars(Color { r, g, b }));
    }
    s
}

/// A position-free rectangle: the shared shape stored in a definition.
/// This is also the content string under which shapes are deduplicated.
pub open spec fn rect_nopos_chars(width: nat, c: Color) -> Seq<char> {
    "<rect width='"@ + dec_chars(width) + ".2' height='1.2' fill='"@ + hex_color_chars(c)
        + "'></rect>"@
}

/// A positioned rectangle: the full shape markup for a first occurrence.
pub open spec fn rect_chars(width: nat, x: nat, y: nat, c: Color) -> Seq<char> {
    "<rect width='"@ + dec_chars(width) + ".2' height='1.2' x='"@ + dec_chars(x) + "' y='"@
        + dec_chars(y) + "' fill='"@ + hex_color_chars(c) + "'></rect>"@
}

/// A positioned reference to the definition with identifier `id`.
pub open spec fn use_chars(x: nat, y: nat, id: nat) -> Seq<char> {
    "<use x='"@ + dec_chars(x) + "' y='"@ + dec_chars(y) + "' href='#"@ + dec_chars(id)
        + "'></use>"@
}

/// A definition entry: the position-free shape grouped under its identifier.
pub open spec fn group_chars(id: nat, contents: Seq<char>) -> Seq<char> {
    "<g id='"@ + dec_chars(id) + "'>"@ + contents + "</g>"@
}

/// The root element's opening tag, sized to the image.
pub open spec fn header_chars(w: nat, h: nat) -> Seq<char> {
    "<svg viewBox='0 0 "@ + dec_chars(w) + " "@ + dec_chars(h)
        + "' xmlns='http://www.w3.org/2000/svg'>"@
}

/// The position-free rectangle markup for a run shape of the given width
/// and color: the contents of a definition, and the dedup key.
pub fn new_box_without_pos(width: u32, r: u8, g: u8, b: u8) -> (s: String)
    ensures
        s@ == rect_nopos_chars(width as nat, Color { r, g, b }),
{
    let mut s = String::from_str("<rect width='");
    let num = u64_dec_str(width as u64);
    s.append(num.as_str());
    s.append(".2' height='1.2' fill='");
    let hex = rgb_to_hex(r, g, b);
    s.append(hex.as_str());
    s.append("'></rect>");
    proof {
        assert(s@ =~= rect_nopos_chars(width as nat, Color { r, g, b }));
    }
    s
}

/// The positioned rectangle markup for a shape's first occurrence.
pub fn rect_element(width: u32, x: u32, y: u32, r: u8, g: u8, b: u8) -> (s: String)
    ensures
        s@ == rect_chars(width as nat, x as nat, y as nat, Color { r, g, b }),
{
    let mut s = String::from_str("<rect width='");
    let num = u64_dec_str(width as u64);
    s.append(num.as_str());
    s.append(".2' height='1.2' x='");
    let xs = u64_dec_str(x as u64);
    s.append(xs.as_str());
    s.append("' y='");
    let ys = u64_dec_str(y as u64);
    s.append(ys.as_str());
    s.append("' fill='");
    let hex = rgb_to_hex(r, g, b);
    s.append(hex.as_str());
    s.append("'></rect>");
    proof {
        assert(s@ =~= rect_chars(width as nat, x as nat, y as nat, Color { r, g, b }));
    }
    s
}

/// The root element's opening tag for an image of the given dimensions.
pub fn header_string(w: u32, h: u32) -> (s: String)
    ensures
        s@ == header_chars(w as nat, h as nat),
{
    let mut s = String::from_str("<svg viewBox='0 0 ");
    let ws = u64_dec_str(w as u64);
    s.append(ws.as_str());
    s.append(" ");
    let hs = u64_dec_str(h as u64);
    s.append(hs.as_str());
    s.append("' xmlns='http://www.w3.org/2000/svg'>");
    proof {
        assert(s@ =~= header_chars(w as nat, h as nat));
    }
    s
}

} // verus!
