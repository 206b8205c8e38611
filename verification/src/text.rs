//! Character-level predicates on keys, values and entries, with their
//! executable checks.

use vstd::prelude::*;
use vstd::string::StrSliceExecFns;

verus! {

/// A character allowed in a key: ASCII alphanumeric or underscore.
pub open spec fn key_char_ok(c: char) -> bool {
    let u = c as u32;
    (48 <= u && u <= 57) || (65 <= u && u <= 90) || (97 <= u && u <= 122) || u == 95
}

/// A key holds only ASCII alphanumerics and underscores.
pub open spec fn valid_key(k: Seq<char>) -> bool {
    forall|i: int| 0 <= i < k.len() ==> key_char_ok(#[trigger] k[i])
}

/// A value holds no record separator (`\n` or `\r`).
pub open spec fn valid_value(v: Seq<char>) -> bool {
    forall|i: int| 0 <= i < v.len() ==> (#[trigger] v[i]) != '\n' && v[i] != '\r'
}

/// A string free of embedded null characters, so that it can stand as one
/// null-terminated entry.
pub open spec fn no_nul(s: Seq<char>) -> bool {
    forall|i: int| 0 <= i < s.len() ==> (#[trigger] s[i]) != '\u{0}'
}

/// ASCII case folding of one character, as a code point: uppercase letters
/// map to their lowercase form, everything else is left alone. Key matching
/// compares folded characters, so keys match case-insensitively.
pub open spec fn fold_char(c: char) -> int {
    if 65 <= c as u32 && c as u32 <= 90 {
        c as u32 + 32
    } else {
        (c as u32) as int
    }
}

/// Two characters are the same key character up to ASCII case.
pub open spec fn chars_fold_eq(a: char, b: char) -> bool {
    fold_char(a) == fold_char(b)
}

pub(crate) fn fold_char_exec(c: char) -> (r: u32)
    ensures
        r as int == fold_char(c),
{
    let u = c as u32;
    if 65 <= u && u <= 90 {
        u + 32
    } else {
        u
    }
}

pub(crate) fn check_key(name: &str) -> (r: bool)
    ensures
        r == valid_key(name@),
{
    let n = name.unicode_len();
    let mut i: usize = 0;
    while i < n
        invariant
            n == name@.len(),
            0 <= i <= n,
            forall|j: int| 0 <= j < i ==> key_char_ok(#[trigger] name@[j]),
        decreases n - i,
    {
        let u = name.get_char(i) as u32;
        if !((48 <= u && u <= 57) || (65 <= u && u <= 90) || (97 <= u && u <= 122) || u == 95) {
            return false;
        }
        i += 1;
    }
    true
}

pub(crate) fn check_value(value: &str) -> (r: bool)
    ensures
        r == valid_value(value@),
{
    let n = value.unicode_len();
    let mut i: usize = 0;
    while i < n
        invariant
            n == value@.len(),
            0 <= i <= n,
            forall|j: int| 0 <= j < i ==> (#[trigger] value@[j]) != '\n' && value@[j] != '\r',
        decreases n - i,
    {
        let c = value.get_char(i);
        if c == '\n' || c == '\r' {
            return false;
        }
        i += 1;
    }
    true
}

pub(crate) fn check_no_nul(s: &str) -> (r: bool)
    ensures
        r == no_nul(s@),
{
    let n = s.unicode_len();
    let mut i: usize = 0;
    while i < n
        invariant
            n == s@.len(),
            0 <= i <= n,
            forall|j: int| 0 <= j < i ==> (#[trigger] s@[j]) != '\u{0}',
        decreases n - i,
    {
        if s.get_char(i) == '\u{0}' {
            return false;
        }
        i += 1;
    }
    true
}

/// A valid key never holds the `=` separator, so the first `=` of a
/// `KEY=VALUE` entry always stands right after the key.
pub proof fn lemma_valid_key_has_no_sep(k: Seq<char>)
    requires
        valid_key(k),
    ensures
        forall|i: int| 0 <= i < k.len() ==> (#[trigger] k[i]) != '=',
{
    assert forall|i: int| 0 <= i < k.len() implies (#[trigger] k[i]) != '=' by {
        assert(key_char_ok(k[i]));
        assert('=' as u32 == 61);
    }
}

} // verus!
