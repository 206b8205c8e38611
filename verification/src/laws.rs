//! The general laws of the list model, proved once and for all. The
//! executable operations tie themselves to this model through their
//! contracts, so these laws carry over to them.

use vstd::prelude::*;

use crate::model::{
    count_matches, entry_of, find_key, has_sep, key_matches, key_part, lookup, pairs_from, set_nv,
    val_part,
};
use crate::model::{
    lemma_entry_matches_own_key, lemma_entry_split, lemma_find_key_first, lemma_find_key_props,
};
use crate::text::valid_key;

verus! {

/// A list has no entry carrying a key exactly when it counts no match for
/// it.
proof fn lemma_count_none(s: Seq<Seq<char>>, k: Seq<char>)
    ensures
        (count_matches(s, k) == 0) <==> (forall|j: int|
            0 <= j < s.len() ==> !key_matches(#[trigger] s[j], k)),
    decreases s.len(),
{
    if s.len() > 0 {
        let t = s.drop_first();
        lemma_count_none(t, k);
        if count_matches(s, k) == 0 {
            assert forall|j: int| 0 <= j < s.len() implies !key_matches(#[trigger] s[j], k) by {
                if j > 0 {
                    assert(s[j] == t[j - 1]);
                }
            }
        } else {
            if !key_matches(s[0], k) {
                let j = choose|j: int| 0 <= j < t.len() && key_matches(#[trigger] t[j], k);
                assert(s[j + 1] == t[j]);
            }
        }
    }
}

/// Replacing a matching entry by another matching entry keeps the match
/// count.
proof fn lemma_count_update_match(s: Seq<Seq<char>>, k: Seq<char>, i: int, e: Seq<char>)
    requires
        0 <= i < s.len(),
        key_matches(s[i], k),
        key_matches(e, k),
    ensures
        count_matches(s.update(i, e), k) == count_matches(s, k),
    decreases s.len(),
{
    let u = s.update(i, e);
    if i == 0 {
        assert(u.drop_first() =~= s.drop_first());
    } else {
        assert(u[0] == s[0]);
        assert(u.drop_first() =~= s.drop_first().update(i - 1, e));
        lemma_count_update_match(s.drop_first(), k, i - 1, e);
    }
}

/// Appending an entry adds its own match, and nothing else, to the count.
proof fn lemma_count_push(s: Seq<Seq<char>>, k: Seq<char>, e: Seq<char>)
    ensures
        count_matches(s.push(e), k) == count_matches(s, k) + (if key_matches(e, k) {
            1nat
        } else {
            0nat
        }),
    decreases s.len(),
{
    let p = s.push(e);
    if s.len() == 0 {
        assert(p.drop_first() =~= Seq::<Seq<char>>::empty());
        assert(count_matches(p.drop_first(), k) == 0);
    } else {
        assert(p[0] == s[0]);
        assert(p.drop_first() =~= s.drop_first().push(e));
        lemma_count_push(s.drop_first(), k, e);
    }
}

/// Law: assigning a value to a key and then looking that key up yields
/// exactly the assigned value, on every list.
pub proof fn lemma_set_then_fetch(s: Seq<Seq<char>>, k: Seq<char>, v: Seq<char>)
    ensures
        lookup(set_nv(s, k, v), k) == Some(v),
{
    let e = entry_of(k, v);
    lemma_entry_matches_own_key(k, v);
    lemma_find_key_props(s, k);
    let f = find_key(s, k);
    if f < 0 {
        let s2 = s.push(e);
        assert forall|j: int| 0 <= j < s.len() implies !key_matches(#[trigger] s2[j], k) by {
            assert(s2[j] == s[j]);
        }
        assert(s2[s.len() as int] == e);
        lemma_find_key_first(s2, k, s.len() as int);
    } else {
        let s2 = s.update(f, e);
        assert(s2[f] == e);
        assert forall|j: int| 0 <= j < f implies !key_matches(#[trigger] s2[j], k) by {
            assert(s2[j] == s[j]);
        }
        lemma_find_key_first(s2, k, f);
    }
}

/// Law: a key is looked up as absent exactly when no entry of the list
/// carries it; absence is never conflated with an entry holding an empty
/// value.
pub proof fn lemma_lookup_absent(s: Seq<Seq<char>>, k: Seq<char>)
    ensures
        (lookup(s, k) is None) <==> (forall|j: int|
            0 <= j < s.len() ==> !key_matches(#[trigger] s[j], k)),
{
    lemma_find_key_props(s, k);
}

/// Law: assigning to a key the list does not yet carry grows it by one
/// entry; assigning to a key it carries keeps the length.
pub proof fn lemma_set_nv_len(s: Seq<Seq<char>>, k: Seq<char>, v: Seq<char>)
    ensures
        lookup(s, k) is None ==> set_nv(s, k, v).len() == s.len() + 1,
        lookup(s, k) is Some ==> set_nv(s, k, v).len() == s.len(),
{
    lemma_find_key_props(s, k);
}

/// Law: assigning the same key twice keeps the latest value and never
/// grows the list by the second assignment, on every list. On a list that
/// carried the key at most once — as any list maintained by assignment
/// alone does — exactly one entry carries it afterwards.
pub proof fn lemma_last_write_wins(s: Seq<Seq<char>>, k: Seq<char>, v1: Seq<char>, v2: Seq<char>)
    ensures
        set_nv(set_nv(s, k, v1), k, v2).len() == set_nv(s, k, v1).len(),
        lookup(set_nv(set_nv(s, k, v1), k, v2), k) == Some(v2),
        count_matches(s, k) <= 1 ==> count_matches(set_nv(set_nv(s, k, v1), k, v2), k) == 1,
{
    let e1 = entry_of(k, v1);
    let e2 = entry_of(k, v2);
    lemma_entry_matches_own_key(k, v1);
    lemma_entry_matches_own_key(k, v2);
    lemma_find_key_props(s, k);
    let s1 = set_nv(s, k, v1);
    if find_key(s, k) < 0 {
        assert(key_matches(s1[s.len() as int], k));
    } else {
        assert(key_matches(s1[find_key(s, k)], k));
    }
    lemma_find_key_props(s1, k);
    assert(find_key(s1, k) >= 0);
    lemma_set_then_fetch(s1, k, v2);
    if count_matches(s, k) <= 1 {
        lemma_count_none(s, k);
        if find_key(s, k) < 0 {
            lemma_count_push(s, k, e1);
        } else {
            lemma_count_update_match(s, k, find_key(s, k), e1);
        }
        assert(count_matches(s1, k) == 1);
        lemma_count_update_match(s1, k, find_key(s1, k), e2);
    }
}

/// Law: assignment with a valid key keeps every entry of the list in
/// `KEY=VALUE` form, so a list maintained by assignment alone always
/// iterates in full.
pub proof fn lemma_set_nv_keeps_sep(s: Seq<Seq<char>>, k: Seq<char>, v: Seq<char>)
    requires
        valid_key(k),
        forall|j: int| 0 <= j < s.len() ==> has_sep(#[trigger] s[j]),
    ensures
        forall|j: int| 0 <= j < set_nv(s, k, v).len() ==> has_sep(#[trigger] set_nv(s, k, v)[j]),
{
    lemma_entry_split(k, v);
    lemma_find_key_props(s, k);
    let s2 = set_nv(s, k, v);
    assert forall|j: int| 0 <= j < s2.len() implies has_sep(s2[j]) by {
        if find_key(s, k) < 0 {
            if j < s.len() {
                assert(s2[j] == s[j]);
            } else {
                assert(s2[j] == entry_of(k, v));
            }
        } else {
            if j == find_key(s, k) {
                assert(s2[j] == entry_of(k, v));
            } else {
                assert(s2[j] == s[j]);
            }
        }
    }
}

proof fn lemma_pairs_from_all(s: Seq<Seq<char>>, i: int)
    requires
        0 <= i <= s.len(),
        forall|j: int| 0 <= j < s.len() ==> has_sep(#[trigger] s[j]),
    ensures
        pairs_from(s, i, s.len() as int).len() == s.len() - i,
        forall|j: int|
            i <= j < s.len() ==> pairs_from(s, i, s.len() as int)[j - i] == (
                key_part(#[trigger] s[j]),
                val_part(s[j]),
            ),
    decreases s.len() - i,
{
    if i < s.len() {
        lemma_pairs_from_all(s, i + 1);
    }
}

/// Law: on a list whose entries all hold a `=` separator, a walk from the
/// start yields exactly one pair per entry, in entry order, each entry
/// split on its first `=`. Together with the iterator's own contract —
/// every step pops the head of what remains, and a finished iterator
/// stays finished with its state at rest — iteration yields exactly the
/// list's pairs in insertion order and then stays terminated.
pub proof fn lemma_iteration_yields_all(s: Seq<Seq<char>>)
    requires
        forall|j: int| 0 <= j < s.len() ==> has_sep(#[trigger] s[j]),
    ensures
        pairs_from(s, 0, s.len() as int).len() == s.len(),
        forall|j: int|
            0 <= j < s.len() ==> pairs_from(s, 0, s.len() as int)[j] == (
                key_part(#[trigger] s[j]),
                val_part(s[j]),
            ),
{
    lemma_pairs_from_all(s, 0);
}

} // verus!
