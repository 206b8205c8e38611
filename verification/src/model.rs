//! The mathematical model of the string list: a sequence of entries, each a
//! sequence of characters, with key lookup, key assignment, entry splitting
//! and match counting defined over it.

use vstd::prelude::*;

use crate::text::{chars_fold_eq, no_nul, valid_key, valid_value};

verus! {

/// The `KEY=VALUE` entry built from a key and a value.
pub open spec fn entry_of(k: Seq<char>, v: Seq<char>) -> Seq<char> {
    k + seq!['='] + v
}

/// Whether entry `e` carries key `k`: the entry starts with the key's
/// characters up to ASCII case, followed by the `=` separator.
pub open spec fn key_matches(e: Seq<char>, k: Seq<char>) -> bool {
    &&& e.len() > k.len()
    &&& e[k.len() as int] == '='
    &&& forall|i: int| 0 <= i < k.len() ==> chars_fold_eq(#[trigger] e[i], k[i])
}

/// Index of the first entry carrying key `k`, or -1 when none does.
pub open spec fn find_key(s: Seq<Seq<char>>, k: Seq<char>) -> int
    decreases s.len(),
{
    if s.len() == 0 {
        -1
    } else if key_matches(s[0], k) {
        0
    } else if find_key(s.drop_first(), k) < 0 {
        -1
    } else {
        find_key(s.drop_first(), k) + 1
    }
}

/// Assignment of `v` to `k`: the first entry carrying `k` is replaced by
/// `entry_of(k, v)`; when none carries it, the new entry is appended.
pub open spec fn set_nv(s: Seq<Seq<char>>, k: Seq<char>, v: Seq<char>) -> Seq<Seq<char>> {
    if find_key(s, k) < 0 {
        s.push(entry_of(k, v))
    } else {
        s.update(find_key(s, k), entry_of(k, v))
    }
}

/// Lookup of `k`: the characters after the key and its separator in the
/// first entry carrying `k`, or nothing when no entry does.
pub open spec fn lookup(s: Seq<Seq<char>>, k: Seq<char>) -> Option<Seq<char>> {
    if find_key(s, k) < 0 {
        None
    } else {
        Some(s[find_key(s, k)].subrange(k.len() + 1 as int, s[find_key(s, k)].len() as int))
    }
}

/// How many entries of `s` carry key `k`.
pub open spec fn count_matches(s: Seq<Seq<char>>, k: Seq<char>) -> nat
    decreases s.len(),
{
    if s.len() == 0 {
        0
    } else {
        (if key_matches(s[0], k) {
            1nat
        } else {
            0nat
        }) + count_matches(s.drop_first(), k)
    }
}

/// Index of the first `=` in an entry, or -1 when the entry is a raw token
/// without one.
pub open spec fn first_sep(e: Seq<char>) -> int
    decreases e.len(),
{
    if e.len() == 0 {
        -1
    } else if e[0] == '=' {
        0
    } else if first_sep(e.drop_first()) < 0 {
        -1
    } else {
        first_sep(e.drop_first()) + 1
    }
}

/// Whether an entry holds a `=` separator at all.
pub open spec fn has_sep(e: Seq<char>) -> bool {
    first_sep(e) >= 0
}

/// The key half of an entry: everything before the first `=`.
pub open spec fn key_part(e: Seq<char>) -> Seq<char> {
    e.subrange(0, first_sep(e))
}

/// The value half of an entry: everything after the first `=`.
pub open spec fn val_part(e: Seq<char>) -> Seq<char> {
    e.subrange(first_sep(e) + 1, e.len() as int)
}

/// The pairs a walk of `s` yields from cursor `i` up to snapshot `count`:
/// one split pair per entry, stopping early at a raw token without `=`.
pub open spec fn pairs_from(s: Seq<Seq<char>>, i: int, count: int) -> Seq<(Seq<char>, Seq<char>)>
    decreases count - i when i <= count
{
    if i < 0 || i >= count || count > s.len() || !has_sep(s[i]) {
        Seq::empty()
    } else {
        seq![(key_part(s[i]), val_part(s[i]))] + pairs_from(s, i + 1, count)
    }
}

/// All entries joined, each followed by one line feed: the textual
/// rendering of the list.
pub open spec fn joined_lines(s: Seq<Seq<char>>) -> Seq<char>
    decreases s.len(),
{
    if s.len() == 0 {
        Seq::empty()
    } else {
        s[0] + seq!['\n'] + joined_lines(s.drop_first())
    }
}

/// A key/value pair that assignment accepts: a valid key and a value free
/// of record separators and embedded nulls.
pub open spec fn pair_ok(k: Seq<char>, v: Seq<char>) -> bool {
    valid_key(k) && valid_value(v) && no_nul(v)
}

/// The list built from a sequence of key/value pairs by assigning each in
/// order to an initially empty list.
pub open spec fn built_from(ps: Seq<(Seq<char>, Seq<char>)>) -> Seq<Seq<char>>
    decreases ps.len(),
{
    if ps.len() == 0 {
        Seq::empty()
    } else {
        set_nv(built_from(ps.drop_last()), ps.last().0, ps.last().1)
    }
}

/// Joining entries grows one line at a time: appending an entry appends
/// that entry and a line feed to the rendering.
pub proof fn lemma_joined_lines_push(s: Seq<Seq<char>>, e: Seq<char>)
    ensures
        joined_lines(s.push(e)) == joined_lines(s) + e + seq!['\n'],
    decreases s.len(),
{
    let p = s.push(e);
    if s.len() == 0 {
        assert(p.drop_first() =~= Seq::<Seq<char>>::empty());
        assert(joined_lines(p.drop_first()) =~= Seq::<char>::empty());
        assert(p[0] == e);
        assert(joined_lines(p) =~= joined_lines(s) + e + seq!['\n']);
    } else {
        lemma_joined_lines_push(s.drop_first(), e);
        assert(p.drop_first() =~= s.drop_first().push(e));
        assert(p[0] == s[0]);
        assert(joined_lines(p) == s[0] + seq!['\n'] + joined_lines(s.drop_first().push(e)));
        assert(joined_lines(s) == s[0] + seq!['\n'] + joined_lines(s.drop_first()));
        assert(joined_lines(p) == s[0] + seq!['\n'] + (joined_lines(s.drop_first()) + e + seq![
            '\n',
        ]));
        assert(joined_lines(p) =~= joined_lines(s) + e + seq!['\n']);
    }
}

/// What `find_key` returns is a real first match: a matching index within
/// bounds with nothing matching before it, or -1 with nothing matching at
/// all.
pub proof fn lemma_find_key_props(s: Seq<Seq<char>>, k: Seq<char>)
    ensures
        find_key(s, k) >= 0 ==> 0 <= find_key(s, k) < s.len() && key_matches(s[find_key(s, k)], k)
            && (forall|j: int| 0 <= j < find_key(s, k) ==> !key_matches(#[trigger] s[j], k)),
        find_key(s, k) < 0 ==> forall|j: int| 0 <= j < s.len() ==> !key_matches(#[trigger] s[j], k),
    decreases s.len(),
{
    if s.len() > 0 && !key_matches(s[0], k) {
        let t = s.drop_first();
        lemma_find_key_props(t, k);
        if find_key(t, k) < 0 {
            assert forall|j: int| 0 <= j < s.len() implies !key_matches(#[trigger] s[j], k) by {
                if j > 0 {
                    assert(s[j] == t[j - 1]);
                }
            }
        } else {
            let f = find_key(t, k);
            assert(s[f + 1] == t[f]);
            assert forall|j: int| 0 <= j < f + 1 implies !key_matches(#[trigger] s[j], k) by {
                if j > 0 {
                    assert(s[j] == t[j - 1]);
                }
            }
        }
    }
}

/// The first matching index is what `find_key` returns.
pub proof fn lemma_find_key_first(s: Seq<Seq<char>>, k: Seq<char>, i: int)
    requires
        0 <= i < s.len(),
        key_matches(s[i], k),
        forall|j: int| 0 <= j < i ==> !key_matches(#[trigger] s[j], k),
    ensures
        find_key(s, k) == i,
    decreases s.len(),
{
    if i > 0 {
        assert(!key_matches(s[0], k));
        assert(forall|j: int| 0 <= j < s.drop_first().len() ==> #[trigger] s.drop_first()[j] == s[j + 1]);
        assert(s.drop_first()[i - 1] == s[i]);
        lemma_find_key_first(s.drop_first(), k, i - 1);
    }
}

/// What `first_sep` returns is the first `=`: a separator position with
/// none before it, or -1 with no separator at all.
pub proof fn lemma_first_sep_props(e: Seq<char>)
    ensures
        first_sep(e) >= 0 ==> 0 <= first_sep(e) < e.len() && e[first_sep(e)] == '='
            && (forall|j: int| 0 <= j < first_sep(e) ==> e[j] != '='),
        first_sep(e) < 0 ==> forall|j: int| 0 <= j < e.len() ==> e[j] != '=',
    decreases e.len(),
{
    if e.len() > 0 && e[0] != '=' {
        let t = e.drop_first();
        lemma_first_sep_props(t);
        if first_sep(t) < 0 {
            assert forall|j: int| 0 <= j < e.len() implies e[j] != '=' by {
                if j > 0 {
                    assert(e[j] == t[j - 1]);
                }
            }
        } else {
            let f = first_sep(t);
            assert(e[f + 1] == t[f]);
            assert forall|j: int| 0 <= j < f + 1 implies e[j] != '=' by {
                if j > 0 {
                    assert(e[j] == t[j - 1]);
                }
            }
        }
    }
}

/// The position of a `=` with none before it is what `first_sep` returns.
pub proof fn lemma_first_sep_first(e: Seq<char>, i: int)
    requires
        0 <= i < e.len(),
        e[i] == '=',
        forall|j: int| 0 <= j < i ==> e[j] != '=',
    ensures
        first_sep(e) == i,
    decreases e.len(),
{
    if i > 0 {
        assert(forall|j: int| 0 <= j < e.drop_first().len() ==> e.drop_first()[j] == e[j + 1]);
        assert(e.drop_first()[i - 1] == e[i]);
        lemma_first_sep_first(e.drop_first(), i - 1);
    }
}

/// The entry built from a key carries that key, and its value half is
/// exactly the value it was built from.
pub proof fn lemma_entry_matches_own_key(k: Seq<char>, v: Seq<char>)
    ensures
        key_matches(entry_of(k, v), k),
        entry_of(k, v).len() == k.len() + 1 + v.len(),
        entry_of(k, v).subrange(k.len() + 1 as int, entry_of(k, v).len() as int) == v,
{
    let e = entry_of(k, v);
    assert(e[k.len() as int] == '=');
    assert(e.subrange(k.len() + 1 as int, e.len() as int) =~= v);
}

/// When the key is valid, the first `=` of the built entry stands right
/// after the key, so splitting the entry gives the key and value back.
pub proof fn lemma_entry_split(k: Seq<char>, v: Seq<char>)
    requires
        valid_key(k),
    ensures
        has_sep(entry_of(k, v)),
        key_part(entry_of(k, v)) == k,
        val_part(entry_of(k, v)) == v,
{
    let e = entry_of(k, v);
    crate::text::lemma_valid_key_has_no_sep(k);
    assert(e[k.len() as int] == '=');
    assert(forall|j: int| 0 <= j < k.len() ==> e[j] == k[j]);
    lemma_first_sep_first(e, k.len() as int);
    assert(key_part(e) =~= k);
    assert(val_part(e) =~= v);
}

} // verus!
