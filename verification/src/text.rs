//! Character sequences: copying, trimming, case folding and searching.
//!
//! White space is Unicode white space; case is folded for ASCII letters only.

use vstd::prelude::*;
use vstd::string::*;

verus! {

/// White space: the characters with the Unicode property White_Space,
/// which are the ones that `char::is_whitespace` accepts. They are tab to
/// carriage return, space, next line, no-break space, the ogham space
/// mark, en quad to hair space, line and paragraph separator, narrow
/// no-break space, medium mathematical space and ideographic space.
pub open spec fn is_space(c: char) -> bool {
    ||| '\t' <= c && c <= '\r'
    ||| c == ' '
    ||| c == '\u{85}'
    ||| c == '\u{a0}'
    ||| c == '\u{1680}'
    ||| '\u{2000}' <= c && c <= '\u{200a}'
    ||| c == '\u{2028}'
    ||| c == '\u{2029}'
    ||| c == '\u{202f}'
    ||| c == '\u{205f}'
    ||| c == '\u{3000}'
}

/// A character of an identifier: an ASCII letter, a digit or an underscore.
pub open spec fn is_name_char(c: char) -> bool {
    ('a' <= c && c <= 'z') || ('A' <= c && c <= 'Z') || ('0' <= c && c <= '9') || c == '_'
}

/// Whether `s` is one identifier: at least one character, each a letter,
/// a digit or an underscore, and the first no digit.
pub open spec fn is_identifier(s: Seq<char>) -> bool {
    &&& s.len() > 0
    &&& !('0' <= s[0] && s[0] <= '9')
    &&& forall|i: int| 0 <= i < s.len() ==> is_name_char(#[trigger] s[i])
}

/// `s` without its leading white space.
pub open spec fn trim_start(s: Seq<char>) -> Seq<char>
    decreases s.len(),
{
    if s.len() > 0 && is_space(s[0]) {
        trim_start(s.subrange(1, s.len() as int))
    } else {
        s
    }
}

/// `s` without its trailing white space.
pub open spec fn trim_end(s: Seq<char>) -> Seq<char>
    decreases s.len(),
{
    if s.len() > 0 && is_space(s.last()) {
        trim_end(s.drop_last())
    } else {
        s
    }
}

/// `s` without leading and trailing white space.
pub open spec fn trim(s: Seq<char>) -> Seq<char> {
    trim_end(trim_start(s))
}

/// An upper case ASCII letter becomes its lower case form; any other
/// character stays.
pub open spec fn lower(c: char) -> char {
    if 'A' <= c && c <= 'Z' {
        ((c as u8 + 32) as u8) as char
    } else {
        c
    }
}

/// Equality of two texts up to ASCII case.
pub open spec fn eq_ignore_case(a: Seq<char>, b: Seq<char>) -> bool {
    a.len() == b.len() && forall|i: int| 0 <= i < a.len() ==> lower(#[trigger] a[i]) == lower(b[i])
}

/// The position of the first `c` in `s`, or the length of `s` where it holds none.
pub open spec fn first_index(s: Seq<char>, c: char) -> int
    decreases s.len(),
{
    if s.len() == 0 || s[0] == c {
        0
    } else {
        1 + first_index(s.subrange(1, s.len() as int), c)
    }
}

/// `first_index` is the one position before which no `c` stands and at which
/// one does, or the text ends.
pub proof fn lemma_first_index(s: Seq<char>, c: char, i: int)
    requires
        0 <= i <= s.len(),
        forall|j: int| 0 <= j < i ==> s[j] != c,
        i < s.len() ==> s[i] == c,
    ensures
        first_index(s, c) == i,
    decreases s.len(),
{
    if i > 0 {
        let rest = s.subrange(1, s.len() as int);
        assert(s[0] != c);
        assert forall|j: int| 0 <= j < i - 1 implies rest[j] != c by {
            assert(rest[j] == s[j + 1]);
        }
        lemma_first_index(rest, c, i - 1);
    }
}

/// Whether `c` is white space.
pub fn is_space_char(c: char) -> (r: bool)
    ensures
        r == is_space(c),
{
    let control: bool = ('\t' <= c && c <= '\r') || c == '\u{85}';
    let blank: bool = c == ' ' || c == '\u{a0}' || c == '\u{1680}' || c == '\u{202f}'
        || c == '\u{205f}' || c == '\u{3000}';
    let quad: bool = '\u{2000}' <= c && c <= '\u{200a}';
    let separator: bool = c == '\u{2028}' || c == '\u{2029}';
    control || blank || quad || separator
}

/// Whether `v` is one identifier.
pub fn is_identifier_chars(v: &Vec<char>) -> (r: bool)
    ensures
        r == is_identifier(v@),
{
    if v.len() == 0 {
        return false;
    }
    if '0' <= v[0] && v[0] <= '9' {
        return false;
    }
    let mut i: usize = 0;
    while i < v.len()
        invariant
            i <= v@.len(),
            forall|j: int| 0 <= j < i ==> is_name_char(#[trigger] v@[j]),
        decreases v@.len() - i,
    {
        let c: char = v[i];
        if !(('a' <= c && c <= 'z') || ('A' <= c && c <= 'Z') || ('0' <= c && c <= '9') || c == '_') {
            return false;
        }
        i += 1;
    }
    true
}

/// The lower case form of `c`.
pub fn lower_char(c: char) -> (r: char)
    ensures
        r == lower(c),
{
    if 'A' <= c && c <= 'Z' {
        let b: u8 = c as u8;
        (b + 32) as char
    } else {
        c
    }
}

/// The characters of a string, one by one.
pub fn to_chars(s: &str) -> (r: Vec<char>)
    ensures
        r@ == s@,
{
    let n: usize = s.unicode_len();
    let mut out: Vec<char> = Vec::new();
    let mut i: usize = 0;
    while i < n
        invariant
            n == s@.len(),
            i <= n,
            out@ == s@.subrange(0, i as int),
        decreases n - i,
    {
        let c: char = s.get_char(i);
        out.push(c);
        assert(out@ =~= s@.subrange(0, i + 1));
        i += 1;
    }
    assert(s@.subrange(0, n as int) =~= s@);
    out
}

/// A copy of the part of `v` from `lo` up to `hi`.
pub fn slice_chars(v: &Vec<char>, lo: usize, hi: usize) -> (r: Vec<char>)
    requires
        lo <= hi <= v@.len(),
    ensures
        r@ == v@.subrange(lo as int, hi as int),
{
    let mut out: Vec<char> = Vec::new();
    let mut i: usize = lo;
    while i < hi
        invariant
            lo <= i <= hi <= v@.len(),
            out@ == v@.subrange(lo as int, i as int),
        decreases hi - i,
    {
        out.push(v[i]);
        assert(out@ =~= v@.subrange(lo as int, i + 1));
        i += 1;
    }
    out
}

/// Removes white space at both ends.
pub fn trim_chars(v: &Vec<char>) -> (r: Vec<char>)
    ensures
        r@ == trim(v@),
{
    let n: usize = v.len();
    let mut lo: usize = 0;
    assert(v@.subrange(0, n as int) =~= v@);
    while lo < n && is_space_char(v[lo])
        invariant
            n == v@.len(),
            lo <= n,
            trim_start(v@) == trim_start(v@.subrange(lo as int, n as int)),
        decreases n - lo,
    {
        let ghost cur = v@.subrange(lo as int, n as int);
        assert(cur.subrange(1, cur.len() as int) =~= v@.subrange(lo + 1, n as int));
        lo += 1;
    }
    let mut hi: usize = n;
    while hi > lo && is_space_char(v[hi - 1])
        invariant
            n == v@.len(),
            lo <= hi <= n,
            trim_start(v@) == v@.subrange(lo as int, n as int),
            trim(v@) == trim_end(v@.subrange(lo as int, hi as int)),
        decreases hi - lo,
    {
        let ghost cur = v@.subrange(lo as int, hi as int);
        assert(cur.drop_last() =~= v@.subrange(lo as int, hi - 1));
        hi -= 1;
    }
    slice_chars(v, lo, hi)
}

/// Compares two texts up to ASCII case.
pub fn eq_ignore_case_chars(a: &Vec<char>, b: &Vec<char>) -> (r: bool)
    ensures
        r == eq_ignore_case(a@, b@),
{
    if a.len() != b.len() {
        return false;
    }
    let n: usize = a.len();
    let mut i: usize = 0;
    while i < n
        invariant
            n == a@.len(),
            n == b@.len(),
            i <= n,
            forall|j: int| 0 <= j < i ==> lower(#[trigger] a@[j]) == lower(b@[j]),
        decreases n - i,
    {
        if lower_char(a[i]) != lower_char(b[i]) {
            return false;
        }
        i += 1;
    }
    true
}

/// Finds the first `c` in `v`; the length of `v` stands for "none".
pub fn find_first(v: &Vec<char>, c: char) -> (r: usize)
    ensures
        r == first_index(v@, c),
        r <= v@.len(),
{
    let n: usize = v.len();
    let mut i: usize = 0;
    while i < n && v[i] != c
        invariant
            n == v@.len(),
            i <= n,
            forall|j: int| 0 <= j < i ==> v@[j] != c,
        decreases n - i,
    {
        i += 1;
    }
    proof {
        lemma_first_index(v@, c, i as int);
    }
    i
}

} // verus!
