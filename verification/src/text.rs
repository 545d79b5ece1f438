//! Verified character-level string helpers.

use vstd::prelude::*;

verus! {

/// Character-by-character string equality.
pub fn str_eq(a: &str, b: &str) -> (r: bool)
    ensures
        r == (a@ == b@),
{
    let alen = a.unicode_len();
    let blen = b.unicode_len();
    if alen != blen {
        assert(a@ != b@) by {
            assert(a@.len() != b@.len());
        }
        return false;
    }
    let mut i: usize = 0;
    while i < alen
        invariant
            alen == a@.len(),
            blen == b@.len(),
            alen == blen,
            i <= alen,
            forall|j: int| 0 <= j < i ==> a@[j] == b@[j],
        decreases alen - i,
    {
        if a.get_char(i) != b.get_char(i) {
            assert(a@ != b@);
            return false;
        }
        i += 1;
    }
    assert(a@ =~= b@);
    true
}

/// The characters treated as whitespace when trimming and when deciding
/// whether a stored string carries any content.
pub open spec fn is_space_char(c: char) -> bool {
    c == ' ' || c == '\t' || c == '\n' || c == '\r' || c == '\u{c}'
}

/// A string is blank when every character is whitespace; the empty string
/// is blank.
pub open spec fn spec_is_blank(s: Seq<char>) -> bool {
    forall|i: int| 0 <= i < s.len() ==> is_space_char(#[trigger] s[i])
}

/// Whether the string is empty or all whitespace.
pub fn is_blank(s: &str) -> (r: bool)
    ensures
        r == spec_is_blank(s@),
{
    let n = s.unicode_len();
    let mut i: usize = 0;
    while i < n
        invariant
            n == s@.len(),
            i <= n,
            forall|j: int| 0 <= j < i ==> is_space_char(#[trigger] s@[j]),
        decreases n - i,
    {
        let c = s.get_char(i);
        if !(c == ' ' || c == '\t' || c == '\n' || c == '\r' || c == '\u{c}') {
            return false;
        }
        i += 1;
    }
    true
}

/// The string with its leading whitespace removed.
pub open spec fn spec_trim_left(s: Seq<char>) -> Seq<char>
    decreases s.len(),
{
    if s.len() == 0 {
        s
    } else if is_space_char(s[0]) {
        spec_trim_left(s.drop_first())
    } else {
        s
    }
}

/// The string with its trailing whitespace removed.
pub open spec fn spec_trim_right(s: Seq<char>) -> Seq<char>
    decreases s.len(),
{
    if s.len() == 0 {
        s
    } else if is_space_char(s.last()) {
        spec_trim_right(s.drop_last())
    } else {
        s
    }
}

/// The string with whitespace removed from both ends.
pub open spec fn spec_trim(s: Seq<char>) -> Seq<char> {
    spec_trim_right(spec_trim_left(s))
}

/// Whether the character at position `i` is whitespace.
fn is_space_at(s: &str, i: usize) -> (r: bool)
    requires
        i < s@.len(),
    ensures
        r == is_space_char(s@[i as int]),
{
    let c = s.get_char(i);
    c == ' ' || c == '\t' || c == '\n' || c == '\r' || c == '\u{c}'
}

/// A copy of the string with whitespace removed from both ends.
pub fn trim(s: &str) -> (r: &str)
    ensures
        r@ == spec_trim(s@),
{
    let n = s.unicode_len();
    let mut lo: usize = 0;
    proof {
        assert(s@.subrange(0, n as int) =~= s@);
    }
    while lo < n && is_space_at(s, lo)
        invariant
            n == s@.len(),
            lo <= n,
            spec_trim_left(s@) == spec_trim_left(s@.subrange(lo as int, n as int)),
        decreases n - lo,
    {
        proof {
            let cur = s@.subrange(lo as int, n as int);
            assert(is_space_char(cur[0]));
            assert(cur.drop_first() =~= s@.subrange(lo + 1, n as int));
        }
        lo += 1;
    }
    proof {
        let cur = s@.subrange(lo as int, n as int);
        if lo < n {
            assert(!is_space_char(cur[0]));
        }
        assert(spec_trim_left(s@) == cur);
    }
    let mut hi: usize = n;
    while hi > lo && is_space_at(s, hi - 1)
        invariant
            n == s@.len(),
            lo <= hi <= n,
            spec_trim_left(s@) == s@.subrange(lo as int, n as int),
            spec_trim_right(s@.subrange(lo as int, n as int)) == spec_trim_right(
                s@.subrange(lo as int, hi as int),
            ),
        decreases hi,
    {
        proof {
            let cur = s@.subrange(lo as int, hi as int);
            assert(is_space_char(cur.last()));
            assert(cur.drop_last() =~= s@.subrange(lo as int, hi - 1));
        }
        hi -= 1;
    }
    proof {
        let cur = s@.subrange(lo as int, hi as int);
        if hi > lo {
            assert(!is_space_char(cur.last()));
        }
        assert(spec_trim_right(s@.subrange(lo as int, n as int)) == cur);
    }
    s.substring_char(lo, hi)
}

/// Whether `prefix` is a prefix of `s`.
pub fn str_starts_with(s: &str, prefix: &str) -> (r: bool)
    ensures
        r == prefix@.is_prefix_of(s@),
{
    let n = s.unicode_len();
    let p = prefix.unicode_len();
    if p > n {
        assert(!prefix@.is_prefix_of(s@));
        return false;
    }
    let mut i: usize = 0;
    while i < p
        invariant
            n == s@.len(),
            p == prefix@.len(),
            p <= n,
            i <= p,
            forall|j: int| 0 <= j < i ==> s@[j] == prefix@[j],
        decreases p - i,
    {
        if s.get_char(i) != prefix.get_char(i) {
            assert(!prefix@.is_prefix_of(s@)) by {
                assert(s@.subrange(0, p as int)[i as int] != prefix@[i as int]);
            }
            return false;
        }
        i += 1;
    }
    assert(prefix@.is_prefix_of(s@)) by {
        assert(s@.subrange(0, p as int) =~= prefix@);
    }
    true
}

/// The character's code point, with an ASCII capital letter folded to its
/// small form.
pub open spec fn lower_char_code(c: char) -> u32 {
    if 'A' <= c && c <= 'Z' {
        (c as u32 + 32) as u32
    } else {
        c as u32
    }
}

/// Equality of strings up to ASCII letter case.
pub open spec fn spec_eq_ignore_ascii_case(a: Seq<char>, b: Seq<char>) -> bool {
    a.len() == b.len() && (forall|i: int|
        0 <= i < a.len() ==> lower_char_code(#[trigger] a[i]) == lower_char_code(b[i]))
}

/// The character's code point with ASCII capitals folded down.
fn lower_code(c: char) -> (r: u32)
    ensures
        r == lower_char_code(c),
{
    let v = c as u32;
    if 'A' <= c && c <= 'Z' {
        v + 32
    } else {
        v
    }
}

/// Whether the two strings are equal up to ASCII letter case.
pub fn str_eq_ignore_ascii_case(a: &str, b: &str) -> (r: bool)
    ensures
        r == spec_eq_ignore_ascii_case(a@, b@),
{
    let alen = a.unicode_len();
    let blen = b.unicode_len();
    if alen != blen {
        return false;
    }
    let mut i: usize = 0;
    while i < alen
        invariant
            alen == a@.len(),
            blen == b@.len(),
            alen == blen,
            i <= alen,
            forall|j: int| 0 <= j < i ==> lower_char_code(#[trigger] a@[j]) == lower_char_code(
                b@[j],
            ),
        decreases alen - i,
    {
        if lower_code(a.get_char(i)) != lower_code(b.get_char(i)) {
            return false;
        }
        i += 1;
    }
    true
}

/// Whether `needle` occurs in `s` starting at position `at`.
pub open spec fn match_at(s: Seq<char>, needle: Seq<char>, at: int) -> bool {
    &&& 0 <= at
    &&& at + needle.len() <= s.len()
    &&& s.subrange(at, at + needle.len()) == needle
}

/// Whether `needle` occurs anywhere in `s`.
pub open spec fn spec_contains(s: Seq<char>, needle: Seq<char>) -> bool {
    exists|at: int| match_at(s, needle, at)
}

/// Whether the string holds the given substring anywhere.
pub fn str_contains(s: &str, needle: &str) -> (r: bool)
    ensures
        r == spec_contains(s@, needle@),
{
    let n = s.unicode_len();
    let p = needle.unicode_len();
    if p > n {
        assert(!spec_contains(s@, needle@));
        return false;
    }
    if p == 0 {
        assert(match_at(s@, needle@, 0)) by {
            assert(s@.subrange(0, 0) =~= needle@);
        }
        return true;
    }
    let mut at: usize = 0;
    while at <= n - p
        invariant
            n == s@.len(),
            p == needle@.len(),
            1 <= p <= n,
            at <= n - p + 1,
            forall|a: int| 0 <= a < at ==> !match_at(s@, needle@, a),
        decreases n - at,
    {
        let mut i: usize = 0;
        let mut hit = true;
        while i < p
            invariant
                n == s@.len(),
                p == needle@.len(),
                p <= n,
                at <= n - p,
                i <= p,
                hit ==> forall|j: int| 0 <= j < i ==> s@[at + j] == needle@[j],
                !hit ==> !match_at(s@, needle@, at as int),
            decreases p - i,
        {
            if s.get_char(at + i) != needle.get_char(i) {
                proof {
                    if match_at(s@, needle@, at as int) {
                        assert(s@.subrange(at as int, at + p)[i as int] == needle@[i as int]);
                    }
                }
                hit = false;
                i = p;
            } else {
                i += 1;
            }
        }
        if hit {
            assert(match_at(s@, needle@, at as int)) by {
                assert(s@.subrange(at as int, at + p) =~= needle@);
            }
            return true;
        }
        at += 1;
    }
    assert forall|a: int| 0 <= a implies !match_at(s@, needle@, a) by {
        if a + p <= n {
            assert(a < at);
        }
    }
    false
}

} // verus!
