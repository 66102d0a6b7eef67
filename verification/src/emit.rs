//! From values to literal text.
//!
//! A value is written in decimal, with a minus sign where it is negative,
//! and followed by the name of its type: `200u8`, `-7i16`. The two
//! pointer-sized types are written as a literal of the fixed-width type of
//! the same size and cast: `5u64 as usize`. An array is its elements in
//! order, separated by commas, in square brackets.

use vstd::prelude::*;
use crate::registry::{pointer_width, TypeName, TypeSpec};
use crate::synth::RandomValue;

verus! {

/// The character of a decimal digit.
pub open spec fn digit(d: nat) -> char {
    ((48 + d % 10) as u8) as char
}

/// Whether `c` is a decimal digit.
pub open spec fn is_digit(c: char) -> bool {
    '0' <= c && c <= '9'
}

/// The number of a decimal digit.
pub open spec fn digit_value(c: char) -> nat {
    (c as u8 - 48) as nat
}

/// Whether every character of `s` is a decimal digit.
pub open spec fn is_digits(s: Seq<char>) -> bool {
    forall|i: int| 0 <= i < s.len() ==> is_digit(#[trigger] s[i])
}

/// The decimal notation of `n`, without leading zeros.
pub open spec fn decimal(n: nat) -> Seq<char>
    decreases n,
{
    if n < 10 {
        seq![digit(n)]
    } else {
        decimal(n / 10).push(digit(n % 10))
    }
}

/// The number that a text of decimal digits denotes.
pub open spec fn decimal_value(s: Seq<char>) -> nat
    decreases s.len(),
{
    if s.len() == 0 {
        0
    } else {
        decimal_value(s.drop_last()) * 10 + digit_value(s.last())
    }
}

/// Reading back what was written gives the number that was written: the
/// decimal notation of `n` is a non-empty text of digits that denotes `n`.
pub proof fn lemma_decimal_round_trip(n: nat)
    ensures
        decimal(n).len() >= 1,
        is_digits(decimal(n)),
        decimal_value(decimal(n)) == n,
    decreases n,
{
    if n < 10 {
        let s = decimal(n);
        assert(s.drop_last() =~= Seq::<char>::empty());
        assert(decimal_value(s.drop_last()) == 0);
    } else {
        lemma_decimal_round_trip(n / 10);
        let s = decimal(n);
        assert(s.drop_last() =~= decimal(n / 10));
    }
}

/// The fixed-width type in which a value of `name` is written.
pub open spec fn carrier(name: TypeName) -> TypeName {
    match name {
        TypeName::Usize => if pointer_width() == 4 {
            TypeName::U32
        } else {
            TypeName::U64
        },
        TypeName::Isize => if pointer_width() == 4 {
            TypeName::I32
        } else {
            TypeName::I64
        },
        _ => name,
    }
}

/// What follows the digits: the type's name, or for a pointer-sized type
/// the name of its carrier, ` as ` and the type's name.
pub open spec fn suffix(name: TypeName) -> Seq<char> {
    match name {
        TypeName::Usize | TypeName::Isize => carrier(name).text() + seq![' ', 'a', 's', ' ']
            + name.text(),
        _ => name.text(),
    }
}

/// The sign and digits of `v`.
pub open spec fn signed_decimal(v: int) -> Seq<char> {
    if v < 0 {
        seq!['-'] + decimal((-v) as nat)
    } else {
        decimal(v as nat)
    }
}

/// The literal that stands for `v` as a value of the type `name`.
pub open spec fn literal_text(name: TypeName, v: int) -> Seq<char> {
    signed_decimal(v) + suffix(name)
}

/// The literals of `vals`, in order, with a comma between neighbours.
pub open spec fn joined(name: TypeName, vals: Seq<RandomValue>) -> Seq<char>
    decreases vals.len(),
{
    if vals.len() == 0 {
        Seq::empty()
    } else if vals.len() == 1 {
        literal_text(name, vals[0]@)
    } else {
        joined(name, vals.drop_last()) + seq![','] + literal_text(name, vals.last()@)
    }
}

/// The array literal of `vals`.
pub open spec fn array_text(name: TypeName, vals: Seq<RandomValue>) -> Seq<char> {
    seq!['['] + joined(name, vals) + seq![']']
}

/// The number that a sign and digits denote: the reading of
/// `signed_decimal`.
pub open spec fn signed_decimal_value(s: Seq<char>) -> int {
    if s.len() > 0 && s[0] == '-' {
        -(decimal_value(s.subrange(1, s.len() as int)) as int)
    } else {
        decimal_value(s) as int
    }
}

/// The number that a literal of type `name` denotes: what stands before
/// the type's suffix, read as sign and digits.
pub open spec fn literal_value(name: TypeName, text: Seq<char>) -> int {
    signed_decimal_value(text.subrange(0, text.len() - suffix(name).len()))
}

/// What is written for a value reads back as that value: the literal of a
/// value that fits its type ends in the type's suffix, and what stands
/// before it denotes the value, a number in the type's range.
pub proof fn lemma_literal_reads_back(spec: TypeSpec, v: RandomValue)
    requires
        v.fits(spec),
    ensures
        literal_text(spec.name, v@).len() > suffix(spec.name).len(),
        literal_text(spec.name, v@).subrange(
            literal_text(spec.name, v@).len() - suffix(spec.name).len(),
            literal_text(spec.name, v@).len() as int,
        ) == suffix(spec.name),
        literal_value(spec.name, literal_text(spec.name, v@)) == v@,
        spec.min_value() <= literal_value(spec.name, literal_text(spec.name, v@))
            <= spec.max_value(),
{
    let s = signed_decimal(v@);
    let text = literal_text(spec.name, v@);
    let tail = suffix(spec.name);
    assert(text.subrange(0, text.len() - tail.len()) =~= s);
    assert(text.subrange(text.len() - tail.len(), text.len() as int) =~= tail);
    if v@ < 0 {
        let d = decimal((-v@) as nat);
        lemma_decimal_round_trip((-v@) as nat);
        assert(s.subrange(1, s.len() as int) =~= d);
        assert(s[0] == '-');
    } else {
        lemma_decimal_round_trip(v@ as nat);
        assert(is_digit(s[0]));
    }
}

/// Appends all of `src` to `dst`.
pub fn extend_chars(dst: &mut Vec<char>, src: &Vec<char>)
    ensures
        final(dst)@ == old(dst)@ + src@,
{
    let ghost before = dst@;
    let mut i: usize = 0;
    while i < src.len()
        invariant
            i <= src@.len(),
            dst@ == before + src@.subrange(0, i as int),
        decreases src@.len() - i,
    {
        dst.push(src[i]);
        assert(dst@ =~= before + src@.subrange(0, i + 1));
        i += 1;
    }
    assert(src@.subrange(0, src@.len() as int) =~= src@);
}

/// Writes `n` in decimal.
pub fn decimal_chars(n: u128) -> (r: Vec<char>)
    ensures
        r@ == decimal(n as nat),
{
    let mut reversed: Vec<char> = Vec::new();
    let mut cur: u128 = n;
    while cur >= 10
        invariant
            decimal(n as nat) =~= decimal(cur as nat) + reversed@.reverse(),
        decreases cur,
    {
        let d: u8 = (cur % 10) as u8;
        let ghost before = reversed@;
        reversed.push((48 + d) as char);
        assert(reversed@.reverse() =~= seq![digit(cur as nat % 10)] + before.reverse());
        cur = cur / 10;
    }
    let ghost before = reversed@;
    reversed.push((48 + (cur as u8)) as char);
    assert(reversed@.reverse() =~= seq![digit(cur as nat)] + before.reverse());
    let mut out: Vec<char> = Vec::new();
    let mut i: usize = reversed.len();
    while i > 0
        invariant
            i <= reversed@.len(),
            out@ =~= reversed@.reverse().subrange(0, reversed@.len() - i),
        decreases i,
    {
        i -= 1;
        out.push(reversed[i]);
    }
    assert(reversed@.reverse().subrange(0, reversed@.len() as int) =~= reversed@.reverse());
    out
}

/// The characters that follow the digits of a literal of type `name`.
pub fn suffix_chars(name: TypeName) -> (r: Vec<char>)
    ensures
        r@ == suffix(name),
{
    match name {
        TypeName::Usize | TypeName::Isize => {
            let four: bool = usize::BITS / 8 == 4;
            let over: TypeName = match name {
                TypeName::Usize => if four {
                    TypeName::U32
                } else {
                    TypeName::U64
                },
                _ => if four {
                    TypeName::I32
                } else {
                    TypeName::I64
                },
            };
            let mut out: Vec<char> = over.chars();
            let cast: Vec<char> = vec![' ', 'a', 's', ' '];
            assert(cast@ =~= seq![' ', 'a', 's', ' ']);
            extend_chars(&mut out, &cast);
            let own: Vec<char> = name.chars();
            extend_chars(&mut out, &own);
            out
        },
        _ => name.chars(),
    }
}

/// The characters of the literal of `value` as a value of type `name`.
pub fn literal_chars(name: TypeName, value: &RandomValue) -> (r: Vec<char>)
    ensures
        r@ == literal_text(name, value@),
{
    let mut out: Vec<char> = Vec::new();
    if value.negative && value.magnitude > 0 {
        out.push('-');
    }
    let digits: Vec<char> = decimal_chars(value.magnitude);
    extend_chars(&mut out, &digits);
    let tail: Vec<char> = suffix_chars(name);
    extend_chars(&mut out, &tail);
    assert(out@ =~= literal_text(name, value@));
    out
}

/// The characters of the array literal of `values`.
pub fn array_chars(name: TypeName, values: &Vec<RandomValue>) -> (r: Vec<char>)
    ensures
        r@ == array_text(name, values@),
{
    let mut out: Vec<char> = Vec::new();
    out.push('[');
    let mut i: usize = 0;
    while i < values.len()
        invariant
            i <= values@.len(),
            out@ =~= seq!['['] + joined(name, values@.subrange(0, i as int)),
        decreases values@.len() - i,
    {
        let ghost before = values@.subrange(0, i as int);
        let ghost after = values@.subrange(0, i + 1);
        assert(after.drop_last() =~= before);
        assert(after.last() == values@[i as int]);
        if i > 0 {
            out.push(',');
        }
        let item: Vec<char> = literal_chars(name, &values[i]);
        extend_chars(&mut out, &item);
        i += 1;
    }
    assert(values@.subrange(0, values@.len() as int) =~= values@);
    out.push(']');
    out
}

/// `String::push` of the standard library appends the one character to
/// the end of the string and changes nothing else.
pub assume_specification[ String::push ](s: &mut String, c: char)
    ensures
        final(s)@ == old(s)@.push(c),
;

/// A string of the given characters.
pub fn string_of(chars: &Vec<char>) -> (r: String)
    ensures
        r@ == chars@,
{
    let mut out: String = String::new();
    let mut i: usize = 0;
    while i < chars.len()
        invariant
            i <= chars@.len(),
            out@ =~= chars@.subrange(0, i as int),
        decreases chars@.len() - i,
    {
        out.push(chars[i]);
        i += 1;
    }
    assert(chars@.subrange(0, chars@.len() as int) =~= chars@);
    out
}

/// The literal emitter for one value: the literal of `value` with the type
/// of `spec`.
pub fn render_scalar(spec: TypeSpec, value: &RandomValue) -> (r: String)
    ensures
        r@ == literal_text(spec.name, value@),
{
    let chars: Vec<char> = literal_chars(spec.name, value);
    string_of(&chars)
}

/// The literal emitter for an array: the literals of `values`, in their
/// order, as one array literal. No value gives `[]`.
pub fn render_array(spec: TypeSpec, values: &Vec<RandomValue>) -> (r: String)
    ensures
        r@ == array_text(spec.name, values@),
{
    let chars: Vec<char> = array_chars(spec.name, values);
    string_of(&chars)
}

} // verus!
