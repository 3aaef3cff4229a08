//! The definition cache: a content-addressed store of shape definitions.
//!
//! Each distinct shape content string is stored once and receives the next
//! sequential identifier, in strict first-seen order starting at 0; no
//! identifier is ever reused or renumbered.

use vstd::prelude::*;
use vstd::string::StringExecFns;

use crate::markup::group_chars;
use crate::markup::u64_dec_str;
use crate::markup::use_chars;

verus! {

/// A registered shape definition: its sequential identifier and the
/// position-free shape markup it owns.
#[derive(Clone)]
pub struct SVGDef {
    pub i: usize,
    pub contents: String,
}

impl SVGDef {
    /// The definition entry as it appears in the definitions block:
    /// the contents grouped under the identifier.
    pub fn to_string(&self) -> (s: String)
        ensures
            s@ == group_chars(self.i as nat, self.contents@),
    {
        let mut s = String::from_str("<g id='");
        let num = u64_dec_str(self.i as u64);
        s.append(num.as_str());
        s.append("'>");
        s.append(self.contents.as_str());
        s.append("</g>");
        proof {
            assert(s@ =~= group_chars(self.i as nat, self.contents@));
        }
        s
    }

    /// A positioned reference to this definition.
    pub fn to_use_string(&self, x: u32, y: u32) -> (s: String)
        ensures
            s@ == use_chars(x as nat, y as nat, self.i as nat),
    {
        let mut s = String::from_str("<use x='");
        let xs = u64_dec_str(x as u64);
        s.append(xs.as_str());
        s.append("' y='");
        let ys = u64_dec_str(y as u64);
        s.append(ys.as_str());
        s.append("' href='#");
        let num = u64_dec_str(self.i as u64);
        s.append(num.as_str());
        s.append("'></use>");
        proof {
            assert(s@ =~= use_chars(x as nat, y as nat, self.i as nat));
        }
        s
    }
}

/// The index of the first entry equal to `key`, if any.
pub open spec fn first_index(s: Seq<Seq<char>>, key: Seq<char>) -> Option<int>
    decreases s.len(),
{
    if s.len() == 0 {
        None
    } else {
        match first_index(s.take(s.len() - 1), key) {
            Some(k) => Some(k),
            None => if s[s.len() - 1] == key {
                Some(s.len() - 1)
            } else {
                None
            },
        }
    }
}

/// What `first_index` returns: the first matching index, or a proof that
/// no entry matches.
pub proof fn lemma_first_index_spec(s: Seq<Seq<char>>, key: Seq<char>)
    ensures
        match first_index(s, key) {
            Some(k) => 0 <= k < s.len() && s[k] == key && forall|i: int|
                0 <= i < k ==> s[i] != key,
            None => forall|i: int| 0 <= i < s.len() ==> s[i] != key,
        },
    decreases s.len(),
{
    if s.len() > 0 {
        let t = s.take(s.len() - 1);
        lemma_first_index_spec(t, key);
        assert(forall|i: int| 0 <= i < s.len() - 1 ==> t[i] == #[trigger] s[i]);
        match first_index(t, key) {
            Some(k) => {
                assert(t[k] == key);
                assert(first_index(s, key) == Some(k));
            },
            None => {
                assert(forall|i: int| 0 <= i < s.len() - 1 ==> s[i] != key);
            },
        }
    }
}

/// Appending an entry leaves every earlier lookup result unchanged; a key
/// not yet present is found at the new last position exactly when the new
/// entry equals it.
pub proof fn lemma_first_index_push(s: Seq<Seq<char>>, key: Seq<char>, v: Seq<char>)
    ensures
        first_index(s.push(v), key) == match first_index(s, key) {
            Some(k) => Some(k),
            None => if v == key {
                Some(s.len() as int)
            } else {
                None::<int>
            },
        },
{
    assert(s.push(v).take(s.push(v).len() - 1) =~= s);
    assert(s.push(v)[s.push(v).len() - 1] == v);
}

/// The definition cache. Definitions are held in identifier order; the
/// identifier of each stored definition equals its position.
pub struct SVGDefs {
    pub defs: Vec<SVGDef>,
}

impl View for SVGDefs {
    type V = Seq<Seq<char>>;

    /// The stored contents strings, in identifier order.
    open spec fn view(&self) -> Seq<Seq<char>> {
        self.defs@.map(|k: int, d: SVGDef| d.contents@)
    }
}

impl SVGDefs {
    /// Each stored definition carries its own position as identifier.
    pub open spec fn wf(&self) -> bool {
        forall|k: int| 0 <= k < self.defs@.len() ==> (#[trigger] self.defs@[k]).i == k
    }

    /// An empty cache.
    pub fn new() -> (r: SVGDefs)
        ensures
            r@ == Seq::<Seq<char>>::empty(),
            r.wf(),
    {
        let r = SVGDefs { defs: Vec::new() };
        proof {
            assert(r@ =~= Seq::<Seq<char>>::empty());
        }
        r
    }

    /// Linear scan for a definition whose contents equal `c`: returns a copy
    /// of the first such definition, or `None` when no contents match.
    pub fn contains(&self, c: &String) -> (r: Option<SVGDef>)
        requires
            self.wf(),
        ensures
            match first_index(self@, c@) {
                Some(k) => r matches Some(d) && d.i == k && d.contents@ == c@,
                None => r is None,
            },
    {
        proof {
            lemma_first_index_spec(self@, c@);
        }
        let n = self.defs.len();
        let mut j: usize = 0;
        while j < n
            invariant
                self.wf(),
                n == self.defs@.len(),
                j <= n,
                forall|i: int| 0 <= i < j ==> self@[i] != c@,
                match first_index(self@, c@) {
                    Some(k) => 0 <= k < self@.len() && self@[k] == c@ && forall|i: int|
                        0 <= i < k ==> self@[i] != c@,
                    None => forall|i: int| 0 <= i < self@.len() ==> self@[i] != c@,
                },
            decreases n - j,
        {
            if self.defs[j].contents == *c {
                proof {
                    assert(self@[j as int] == c@);
                    assert(first_index(self@, c@) == Some(j as int));
                }
                return Some(SVGDef { i: self.defs[j].i, contents: self.defs[j].contents.clone() });
            }
            j += 1;
        }
        None
    }

    /// Registers `c` as a new definition under the next sequential
    /// identifier, which equals the number of definitions stored before it.
    pub fn add(&mut self, c: &String)
        requires
            old(self).wf(),
        ensures
            final(self)@ == old(self)@.push(c@),
            final(self).wf(),
    {
        let i = self.defs.len();
        self.defs.push(SVGDef { i, contents: c.clone() });
        proof {
            assert(self@ =~= old(self)@.push(c@));
        }
    }

    /// The cache contract of the encoder: `lookup_or_create(c)` returns the
    /// identifier owning contents `c` together with `is_new`, which is true
    /// exactly when `c` had not been seen before and a definition was
    /// created for it; identifiers are assigned in first-seen order.
    pub fn lookup_or_create(&mut self, c: &String) -> (r: (usize, bool))
        requires
            old(self).wf(),
        ensures
            final(self).wf(),
            match first_index(old(self)@, c@) {
                Some(k) => r.0 == k && r.1 == false && final(self)@ == old(self)@,
                None => r.0 == old(self)@.len() && r.1 == true && final(self)@ == old(
                    self,
                )@.push(c@),
            },
            final(self)@[r.0 as int] == c@,
    {
        proof {
            lemma_first_index_spec(self@, c@);
        }
        match self.contains(c) {
            Some(d) => (d.i, false),
            None => {
                let id = self.defs.len();
                self.add(c);
                (id, true)
            },
        }
    }
}

} // verus!
