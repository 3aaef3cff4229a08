//! Filename rules: which inputs are converted, and how an output name is
//! derived from an input name.
//!
//! The recognized suffixes are the fixed, case-sensitive set `.png`,
//! `.jpeg` and `.jpg`. Arguments with any other name are excluded from the
//! files to process; a recognized suffix is dropped and `.svg` appended to
//! form the output name.

use vstd::prelude::*;
use vstd::string::StrSliceExecFns;
use vstd::string::StringExecFns;

verus! {

/// `s` ends with the characters of `suffix`.
pub open spec fn ends_with(s: Seq<char>, suffix: Seq<char>) -> bool {
    suffix.len() <= s.len() && s.subrange(s.len() - suffix.len(), s.len() as int) == suffix
}

/// The name has one of the recognized, case-sensitive suffixes.
pub open spec fn supported_name(s: Seq<char>) -> bool {
    ends_with(s, ".png"@) || ends_with(s, ".jpeg"@) || ends_with(s, ".jpg"@)
}

/// The length of the name with its recognized suffix dropped (the whole
/// name when none is recognized). The three suffixes are mutually
/// exclusive, so at most one case applies.
pub open spec fn stem_len(s: Seq<char>) -> int {
    if ends_with(s, ".png"@) {
        s.len() - 4
    } else if ends_with(s, ".jpeg"@) {
        s.len() - 5
    } else if ends_with(s, ".jpg"@) {
        s.len() - 4
    } else {
        s.len() as int
    }
}

/// The derived output name: the recognized suffix dropped, `.svg` appended.
pub open spec fn output_name_spec(s: Seq<char>) -> Seq<char> {
    s.take(stem_len(s)) + ".svg"@
}

fn str_ends_with(s: &str, suffix: &str) -> (r: bool)
    ensures
        r == ends_with(s@, suffix@),
{
    let n = s.unicode_len();
    let m = suffix.unicode_len();
    if m > n {
        return false;
    }
    let mut i: usize = 0;
    while i < m
        invariant
            n == s@.len(),
            m == suffix@.len(),
            m <= n,
            i <= m,
            forall|k: int| 0 <= k < i ==> s@[n - m + k] == suffix@[k],
        decreases m - i,
    {
        if s.get_char(n - m + i) != suffix.get_char(i) {
            proof {
                assert(s@.subrange(n as int - m, n as int)[i as int] == s@[n - m + i]);
            }
            return false;
        }
        i += 1;
    }
    proof {
        assert(s@.subrange(n as int - m, n as int) =~= suffix@);
    }
    true
}

/// Whether this name belongs to the files to process: true exactly when it
/// carries one of the recognized suffixes.
pub fn is_supported_name(name: &str) -> (r: bool)
    ensures
        r == supported_name(name@),
{
    str_ends_with(name, ".png") || str_ends_with(name, ".jpeg") || str_ends_with(name, ".jpg")
}

/// The output name for an input: its recognized suffix replaced by `.svg`.
pub fn output_name(name: &str) -> (r: String)
    ensures
        r@ == output_name_spec(name@),
{
    let n = name.unicode_len();
    proof {
        reveal_strlit(".png");
        reveal_strlit(".jpeg");
        reveal_strlit(".jpg");
    }
    let stem: &str = if str_ends_with(name, ".png") {
        name.substring_char(0, n - 4)
    } else if str_ends_with(name, ".jpeg") {
        name.substring_char(0, n - 5)
    } else if str_ends_with(name, ".jpg") {
        name.substring_char(0, n - 4)
    } else {
        name
    };
    proof {
        assert(stem@ =~= name@.take(stem_len(name@)));
    }
    let r = String::from_str(stem).concat(".svg");
    proof {
        assert(r@ =~= output_name_spec(name@));
    }
    r
}

/// The arguments with a recognized suffix, in order; everything else is
/// excluded from the files to process.
pub open spec fn filter_supported(names: Seq<Seq<char>>) -> Seq<Seq<char>>
    decreases names.len(),
{
    if names.len() == 0 {
        Seq::empty()
    } else {
        let front = filter_supported(names.take(names.len() - 1));
        if supported_name(names[names.len() - 1]) {
            front.push(names[names.len() - 1])
        } else {
            front
        }
    }
}

/// Keeps, in order, exactly the arguments whose name carries a recognized
/// suffix.
pub fn supported_files(args: &Vec<String>) -> (r: Vec<String>)
    ensures
        r.deep_view() == filter_supported(args.deep_view()),
{
    let mut r: Vec<String> = Vec::new();
    let n = args.len();
    let mut j: usize = 0;
    while j < n
        invariant
            n == args@.len(),
            j <= n,
            r.deep_view() == filter_supported(args.deep_view().take(j as int)),
        decreases n - j,
    {
        let ghost prefix = args.deep_view().take(j as int);
        proof {
            assert(args.deep_view().take(j as int + 1).take(j as int) =~= prefix);
            assert(args.deep_view().take(j as int + 1)[j as int] == args@[j as int]@);
        }
        if is_supported_name(args[j].as_str()) {
            r.push(args[j].clone());
            proof {
                assert(r.deep_view() =~= filter_supported(args.deep_view().take(j as int + 1)));
            }
        } else {
            proof {
                assert(r.deep_view() =~= filter_supported(args.deep_view().take(j as int + 1)));
            }
        }
        j += 1;
    }
    proof {
        assert(args.deep_view().take(n as int) =~= args.deep_view());
    }
    r
}

} // verus!
