//! The borrowing iterator over a string list.

use vstd::prelude::*;
use vstd::string::StrSliceExecFns;

use crate::list::CslStringList;
use crate::model::{first_sep, key_part, pairs_from, val_part};
use crate::model::{lemma_first_sep_first, lemma_first_sep_props};

verus! {

/// Finds the first `=` in an entry, if any.
fn find_sep(e: &str) -> (r: Option<usize>)
    ensures
        match r {
            Some(j) => first_sep(e@) == j && j < e@.len(),
            None => first_sep(e@) < 0,
        },
{
    let n = e.unicode_len();
    let mut i: usize = 0;
    while i < n
        invariant
            n == e@.len(),
            0 <= i <= n,
            forall|j: int| 0 <= j < i ==> e@[j] != '=',
        decreases n - i,
    {
        if e.get_char(i) == '=' {
            proof {
                lemma_first_sep_first(e@, i as int);
            }
            return Some(i);
        }
        i += 1;
    }
    proof {
        lemma_first_sep_props(e@);
    }
    None
}

/// A borrowing walk over a [`CslStringList`]: a non-owning reference, a
/// cursor, and a count snapshot taken once at creation, so that no step
/// re-derives the length. The borrow keeps the list from being mutated or
/// dropped while the walk is alive.
pub struct CslStringListIterator<'a> {
    list: &'a CslStringList,
    idx: usize,
    count: usize,
}

impl<'a> CslStringListIterator<'a> {
    #[verifier::type_invariant]
    spec fn wf(self) -> bool {
        self.idx <= self.count <= self.list@.len()
    }

    /// The entries of the list being walked.
    pub closed spec fn src(self) -> Seq<Seq<char>> {
        self.list@
    }

    /// The cursor: how many entries have been consumed.
    pub closed spec fn pos(self) -> int {
        self.idx as int
    }

    /// The count snapshot taken at creation.
    pub closed spec fn snap(self) -> int {
        self.count as int
    }

    /// The pairs still to be yielded: one split pair per entry from the
    /// cursor up to the snapshot, stopping early at a raw token that has
    /// no `=`.
    pub open spec fn remaining(self) -> Seq<(Seq<char>, Seq<char>)> {
        pairs_from(self.src(), self.pos(), self.snap())
    }

    pub(crate) fn new(list: &'a CslStringList) -> (r: Self)
        ensures
            r.src() == list@,
            r.pos() == 0,
            r.snap() == list@.len(),
    {
        CslStringListIterator { list, idx: 0, count: list.len() }
    }

    fn is_done(&self) -> (r: bool)
        ensures
            r == (self.pos() >= self.snap()),
    {
        self.idx >= self.count
    }

    /// Yields the next key/value pair: the entry at the cursor, split on
    /// its first `=`, so values may themselves contain `=`. Exhaustion is
    /// sticky: once this returns nothing — the cursor reached the
    /// snapshot, or the entry is a raw token without `=` — the state
    /// rests and every later call returns nothing too.
    pub fn next(&mut self) -> (r: Option<(String, String)>)
        ensures
            final(self).src() == old(self).src(),
            final(self).snap() == old(self).snap(),
            old(self).remaining().len() == 0 ==> r is None && *final(self) == *old(self),
            old(self).remaining().len() > 0 ==> ({
                &&& r matches Some(p) && p.0@ == old(self).remaining()[0].0 && p.1@ == old(
                    self,
                ).remaining()[0].1
                &&& final(self).pos() == old(self).pos() + 1
                &&& final(self).remaining() == old(self).remaining().drop_first()
            }),
    {
        proof {
            use_type_invariant(&*self);
        }
        if self.is_done() {
            return None;
        }
        let e = self.list.entry_at(self.idx);
        match find_sep(e) {
            None => {
                // A raw token without `=` yields no pair: meaningful
                // iteration is over, and the cursor rests where it is.
                None
            },
            Some(j) => {
                let elen = e.unicode_len();
                let k = e.substring_char(0, j).to_owned();
                let v = e.substring_char(j + 1, elen).to_owned();
                self.idx = self.idx + 1;
                proof {
                    let s = old(self).src();
                    let i = old(self).pos();
                    assert(k@ == key_part(s[i]));
                    assert(v@ == val_part(s[i]));
                    assert(old(self).remaining().drop_first() =~= pairs_from(
                        s,
                        i + 1,
                        old(self).snap(),
                    ));
                }
                Some((k, v))
            },
        }
    }
}

} // verus!
