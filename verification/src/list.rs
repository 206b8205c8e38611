//! The owning string list and its operations.

use vstd::prelude::*;
use vstd::string::StrSliceExecFns;
use vstd::string::StringExecFns;

use crate::error::CplError;
use crate::iter::CslStringListIterator;
use crate::model::{built_from, entry_of, find_key, joined_lines, key_matches, lookup, pair_ok, set_nv};
use crate::model::{lemma_find_key_first, lemma_find_key_props, lemma_joined_lines_push};
use crate::text::{no_nul, valid_key, valid_value};
use crate::text;

verus! {

/// The views of a sequence of key/value string pairs.
pub open spec fn pairs_view(ps: Seq<(&str, &str)>) -> Seq<(Seq<char>, Seq<char>)> {
    Seq::new(ps.len(), |i: int| (ps[i].0@, ps[i].1@))
}

/// An ordered, mutable list of entry strings, most of them of the form
/// `KEY=VALUE`. Its view is the sequence of entries, each a sequence of
/// characters. Key matching is ASCII case-insensitive while storage keeps
/// the case an entry was written with.
#[derive(Debug)]
pub struct CslStringList {
    entries: Vec<String>,
}

impl View for CslStringList {
    type V = Seq<Seq<char>>;

    closed spec fn view(&self) -> Seq<Seq<char>> {
        self.entries.deep_view()
    }
}

/// Builds the `KEY=VALUE` entry string from a key and a value.
fn make_entry(name: &str, value: &str) -> (e: String)
    ensures
        e@ == entry_of(name@, value@),
{
    let mut e = name.to_owned();
    e.append("=");
    e.append(value);
    proof {
        reveal_strlit("=");
        assert(e@ =~= entry_of(name@, value@));
    }
    e
}

/// Compares the folded characters of `entry` against `key`: true exactly
/// when the entry carries the key.
fn keys_match(entry: &str, key: &str) -> (r: bool)
    ensures
        r == key_matches(entry@, key@),
{
    let elen = entry.unicode_len();
    let klen = key.unicode_len();
    if elen <= klen {
        return false;
    }
    if entry.get_char(klen) != '=' {
        return false;
    }
    let mut i: usize = 0;
    while i < klen
        invariant
            elen == entry@.len(),
            klen == key@.len(),
            elen > klen,
            0 <= i <= klen,
            forall|j: int| 0 <= j < i ==> text::chars_fold_eq(#[trigger] entry@[j], key@[j]),
        decreases klen - i,
    {
        if text::fold_char_exec(entry.get_char(i)) != text::fold_char_exec(key.get_char(i)) {
            return false;
        }
        i += 1;
    }
    true
}

impl CslStringList {
    /// Creates an empty list. No storage is allocated.
    pub fn new() -> (r: Self)
        ensures
            r@ == Seq::<Seq<char>>::empty(),
    {
        let r = CslStringList { entries: Vec::new() };
        proof {
            assert(r@ =~= Seq::<Seq<char>>::empty());
        }
        r
    }

    /// The number of entries in the list.
    pub fn len(&self) -> (r: usize)
        ensures
            r == self@.len(),
    {
        self.entries.len()
    }

    /// Whether the list has no entries at all.
    pub fn is_empty(&self) -> (r: bool)
        ensures
            r == (self@.len() == 0),
    {
        self.len() == 0
    }

    /// Index of the first entry carrying `key`, if any.
    fn find_first(&self, key: &str) -> (r: Option<usize>)
        ensures
            match r {
                Some(i) => find_key(self@, key@) == i && i < self@.len(),
                None => find_key(self@, key@) < 0,
            },
    {
        let n = self.entries.len();
        let mut i: usize = 0;
        while i < n
            invariant
                n == self.entries.len(),
                0 <= i <= n,
                self@.len() == n,
                forall|j: int| 0 <= j < i ==> !key_matches(#[trigger] self@[j], key@),
            decreases n - i,
        {
            if keys_match(self.entries[i].as_str(), key) {
                proof {
                    assert(self@[i as int] == self.entries@[i as int]@);
                    lemma_find_key_first(self@, key@, i as int);
                }
                return Some(i);
            }
            proof {
                assert(self@[i as int] == self.entries@[i as int]@);
            }
            i += 1;
        }
        proof {
            lemma_find_key_props(self@, key@);
        }
        None
    }

    /// Assigns `value` to `name`, replacing the first entry that carries
    /// the key (matched ASCII case-insensitively) or appending a new
    /// `KEY=VALUE` entry when none does.
    ///
    /// Fails, leaving the list untouched, when `name` holds a character
    /// outside ASCII alphanumerics and underscore, or `value` holds `\n`,
    /// `\r` or an embedded null character.
    pub fn set_name_value(&mut self, name: &str, value: &str) -> (r: Result<(), CplError>)
        ensures
            r is Ok <==> valid_key(name@) && valid_value(value@) && no_nul(value@),
            r is Ok ==> final(self)@ == set_nv(old(self)@, name@, value@),
            r is Err ==> final(self)@ == old(self)@ && r == Err::<(), CplError>(
                CplError::InvalidArgument,
            ),
    {
        if !text::check_key(name) {
            return Err(CplError::InvalidArgument);
        }
        if !text::check_value(value) {
            return Err(CplError::InvalidArgument);
        }
        if !text::check_no_nul(value) {
            return Err(CplError::InvalidArgument);
        }
        let e = make_entry(name, value);
        match self.find_first(name) {
            Some(i) => {
                self.entries[i] = e;
                proof {
                    assert(final(self)@ =~= set_nv(old(self)@, name@, value@));
                }
            },
            None => {
                self.entries.push(e);
                proof {
                    assert(final(self)@ =~= set_nv(old(self)@, name@, value@));
                }
            },
        }
        Ok(())
    }

    /// Appends `value` verbatim as one entry, with no key semantics and no
    /// uniqueness enforcement. Fails, leaving the list untouched, only when
    /// `value` holds an embedded null character.
    pub fn add_string(&mut self, value: &str) -> (r: Result<(), CplError>)
        ensures
            r is Ok <==> no_nul(value@),
            r is Ok ==> final(self)@ == old(self)@.push(value@),
            r is Err ==> final(self)@ == old(self)@ && r == Err::<(), CplError>(
                CplError::InvalidArgument,
            ),
    {
        if !text::check_no_nul(value) {
            return Err(CplError::InvalidArgument);
        }
        self.entries.push(value.to_owned());
        proof {
            assert(final(self)@ =~= old(self)@.push(value@));
        }
        Ok(())
    }

    /// Looks the key up, ASCII case-insensitively, and returns the value
    /// of the first entry carrying it. An absent key is a normal outcome,
    /// `Ok(None)`, never an error; the only failure is a key with an
    /// embedded null character.
    pub fn fetch_name_value(&self, key: &str) -> (r: Result<Option<String>, CplError>)
        ensures
            no_nul(key@) ==> match lookup(self@, key@) {
                Some(v) => r matches Ok(Some(s)) && s@ == v,
                None => r == Ok::<Option<String>, CplError>(None),
            },
            !no_nul(key@) ==> r == Err::<Option<String>, CplError>(CplError::InvalidArgument),
    {
        if !text::check_no_nul(key) {
            return Err(CplError::InvalidArgument);
        }
        match self.find_first(key) {
            Some(i) => {
                proof {
                    lemma_find_key_props(self@, key@);
                    assert(self@[i as int] == self.entries@[i as int]@);
                }
                let e = self.entries[i].as_str();
                let elen = e.unicode_len();
                let klen = key.unicode_len();
                let v = e.substring_char(klen + 1, elen).to_owned();
                Ok(Some(v))
            },
            None => Ok(None),
        }
    }

    /// The entry at one position, as a borrowed string.
    pub(crate) fn entry_at(&self, i: usize) -> (r: &str)
        requires
            i < self@.len(),
        ensures
            r@ == self@[i as int],
    {
        proof {
            assert(self@[i as int] == self.entries@[i as int]@);
        }
        self.entries[i].as_str()
    }

    /// A borrowing iterator over the key/value entries of the list. It
    /// snapshots the length once, at creation.
    pub fn iter(&self) -> (r: CslStringListIterator<'_>)
        ensures
            r.src() == self@,
            r.pos() == 0,
            r.snap() == self@.len(),
    {
        CslStringListIterator::new(self)
    }

    /// Builds a list from key/value pairs, assigning each in order. Fails
    /// atomically on the first invalid pair: no partial list is returned.
    pub fn try_from(pairs: &[(&str, &str)]) -> (r: Result<CslStringList, CplError>)
        ensures
            r is Ok <==> (forall|i: int|
                0 <= i < pairs@.len() ==> #[trigger] pair_ok(
                    pairs_view(pairs@)[i].0,
                    pairs_view(pairs@)[i].1,
                )),
            r matches Ok(l) ==> l@ == built_from(pairs_view(pairs@)),
            r is Err ==> r == Err::<CslStringList, CplError>(CplError::InvalidArgument),
    {
        let ghost pv = pairs_view(pairs@);
        let mut l = CslStringList::new();
        let n = pairs.len();
        let mut i: usize = 0;
        proof {
            assert(pv.take(0) =~= Seq::<(Seq<char>, Seq<char>)>::empty());
        }
        while i < n
            invariant
                n == pairs@.len(),
                0 <= i <= n,
                pv == pairs_view(pairs@),
                l@ == built_from(pv.take(i as int)),
                forall|j: int| 0 <= j < i ==> #[trigger] pair_ok(pv[j].0, pv[j].1),
            decreases n - i,
        {
            let (k, v) = pairs[i];
            proof {
                assert(pairs@[i as int].0@ == pv[i as int].0);
                assert(pairs@[i as int].1@ == pv[i as int].1);
            }
            match l.set_name_value(k, v) {
                Ok(()) => {
                    proof {
                        assert(pv.take(i as int + 1).drop_last() =~= pv.take(i as int));
                        assert(pv.take(i as int + 1).last() == pv[i as int]);
                    }
                },
                Err(e) => {
                    proof {
                        assert(!pair_ok(pv[i as int].0, pv[i as int].1));
                    }
                    return Err(e);
                },
            }
            i += 1;
        }
        proof {
            assert(pv.take(n as int) =~= pv);
        }
        Ok(l)
    }

    /// Renders the list as text: every entry followed by one line feed.
    pub fn to_text(&self) -> (r: String)
        ensures
            r@ == joined_lines(self@),
    {
        let mut out = String::new();
        let n = self.entries.len();
        let mut i: usize = 0;
        proof {
            assert(self@.take(0) =~= Seq::<Seq<char>>::empty());
        }
        while i < n
            invariant
                n == self.entries.len(),
                self@.len() == n,
                0 <= i <= n,
                out@ == joined_lines(self@.take(i as int)),
            decreases n - i,
        {
            out.append(self.entries[i].as_str());
            out.append("\n");
            proof {
                reveal_strlit("\n");
                assert(self@[i as int] == self.entries@[i as int]@);
                lemma_joined_lines_push(self@.take(i as int), self@[i as int]);
                assert(self@.take(i as int + 1) =~= self@.take(i as int).push(self@[i as int]));
                assert(out@ =~= joined_lines(self@.take(i as int + 1)));
            }
            i += 1;
        }
        proof {
            assert(self@.take(n as int) =~= self@);
        }
        out
    }
}

impl Clone for CslStringList {
    /// Duplicates the list into a fully independent copy holding the same
    /// entries. Mutating the copy never touches the original.
    fn clone(&self) -> (r: Self)
        ensures
            r@ == self@,
    {
        let n = self.entries.len();
        let mut v: Vec<String> = Vec::new();
        let mut i: usize = 0;
        while i < n
            invariant
                n == self.entries.len(),
                0 <= i <= n,
                v@.len() == i,
                forall|j: int| 0 <= j < i ==> #[trigger] v@[j] == self.entries@[j],
            decreases n - i,
        {
            v.push(self.entries[i].clone());
            i += 1;
        }
        let r = CslStringList { entries: v };
        proof {
            assert(r@ =~= self@);
        }
        r
    }
}

impl Default for CslStringList {
    /// The default list is the empty list.
    fn default() -> (r: Self)
        ensures
            r@ == Seq::<Seq<char>>::empty(),
    {
        CslStringList::new()
    }
}

} // verus!
