//! The request grammar.
//!
//! A request is a type name, or `[` type name `;` length `]`. White space
//! (Unicode) may surround the whole, the part between the brackets, the type
//! name and the length. The length is a decimal number that fits `usize`,
//! with an optional `+` before it. Anything else is an error; an array of
//! arrays is an unsupported type.
//!
//! A declaration asks by its type annotation, which is read by the same
//! grammar. There, a type that is written as one identifier (ASCII letters,
//! digits and underscores) and is none of the twelve is unsupported, and so
//! is an array of arrays; an annotation of any other shape is invalid.

use vstd::prelude::*;
use crate::emit::{decimal_value, digit_value, is_digit, is_digits, string_of};
use crate::registry::{lemma_resolve_unsupported, resolve_chars, resolve_text, TypeSpec};
use crate::text::{
    eq_ignore_case, find_first, first_index, is_identifier, is_identifier_chars, lower, slice_chars, to_chars, trim,
    trim_chars,
};

verus! {

/// What one invocation asks for: a type, and for an array its length.
#[derive(Clone, Copy, Debug, PartialEq, Eq, Structural)]
pub struct GenerationRequest {
    pub element_type: TypeSpec,
    pub length: Option<usize>,
}

impl GenerationRequest {
    /// The element type is an entry of the table.
    pub open spec fn wf(self) -> bool {
        self.element_type.wf()
    }

    /// The number of values to draw: one for a scalar, the length for an array.
    pub open spec fn slots(self) -> nat {
        match self.length {
            None => 1,
            Some(n) => n as nat,
        }
    }
}

/// Why a request was refused.
#[derive(Clone, Copy, Debug, PartialEq, Eq, Structural)]
pub enum ParseError {
    /// A declaration of a kind that takes no random value.
    UnsupportedDeclaration,
    /// A declaration without a type annotation.
    MissingType,
    /// An annotation that is neither one identifier nor an array of one.
    InvalidType,
    /// Nothing but white space.
    EmptyInput,
    /// An opening bracket without the closing one at the end.
    MissingBracket,
    /// Nothing between the brackets.
    EmptyArray,
    /// The type name is none of the twelve.
    UnsupportedType,
    /// No `;` between the brackets.
    MissingSeparator,
    /// The length is no decimal number, or does not fit `usize`.
    InvalidLength,
}

/// The digits of a length: the text without one leading `+`.
pub open spec fn length_digits(s: Seq<char>) -> Seq<char> {
    if s.len() > 0 && s[0] == '+' {
        s.subrange(1, s.len() as int)
    } else {
        s
    }
}

/// The length that `s` denotes: at least one digit, nothing but digits
/// after an optional `+`, and a value that fits `usize`.
pub open spec fn length_of(s: Seq<char>) -> Option<usize> {
    let d = length_digits(s);
    if d.len() > 0 && is_digits(d) && decimal_value(d) <= usize::MAX {
        Some(decimal_value(d) as usize)
    } else {
        None
    }
}

/// What the part between the brackets asks for.
pub open spec fn array_request(inner: Seq<char>) -> Result<GenerationRequest, ParseError> {
    if inner.len() == 0 {
        Err(ParseError::EmptyArray)
    } else {
        let k = first_index(inner, ';');
        match resolve_text(trim(inner.subrange(0, k))) {
            None => Err(ParseError::UnsupportedType),
            Some(spec) => if k == inner.len() {
                Err(ParseError::MissingSeparator)
            } else {
                match length_of(trim(inner.subrange(k + 1, inner.len() as int))) {
                    None => Err(ParseError::InvalidLength),
                    Some(n) => Ok((GenerationRequest { element_type: spec, length: Some(n) })),
                }
            },
        }
    }
}

/// What a text asks for: the grammar as a function.
pub open spec fn request_of(input: Seq<char>) -> Result<GenerationRequest, ParseError> {
    let t = trim(input);
    if t.len() == 0 {
        Err(ParseError::EmptyInput)
    } else if t[0] == '[' {
        if t.last() != ']' {
            Err(ParseError::MissingBracket)
        } else {
            array_request(trim(t.subrange(1, t.len() - 1)))
        }
    } else {
        match resolve_text(t) {
            None => Err(ParseError::UnsupportedType),
            Some(spec) => Ok((GenerationRequest { element_type: spec, length: None })),
        }
    }
}

/// A text is accepted exactly when, without the white space around it, it
/// is a supported type name, or stands in brackets and holds a `;` with a
/// supported type name before the first one and a length after it.
pub proof fn lemma_accepted(input: Seq<char>)
    ensures
        request_of(input) is Ok <==> {
            let t = trim(input);
            ||| resolve_text(t) is Some
            ||| {
                let inner = trim(t.subrange(1, t.len() - 1));
                let k = first_index(inner, ';');
                &&& t.len() >= 2
                &&& t[0] == '['
                &&& t.last() == ']'
                &&& k < inner.len()
                &&& resolve_text(trim(inner.subrange(0, k))) is Some
                &&& length_of(trim(inner.subrange(k + 1, inner.len() as int))) is Some
            }
        },
{
    let t = trim(input);
    lemma_resolve_unsupported(t);
    if resolve_text(t) is Some {
        let name = resolve_text(t).unwrap().name;
        assert(eq_ignore_case(t, name.text()));
        assert(lower(t[0]) == lower(name.text()[0]));
        assert(t[0] != '[');
    }
    if t.len() > 0 && t[0] == '[' && t.last() == ']' {
        let inner = trim(t.subrange(1, t.len() - 1));
        lemma_first_index_within(inner, ';');
    }
}

/// `first_index` lies within the text or at its end.
pub proof fn lemma_first_index_within(s: Seq<char>, c: char)
    ensures
        0 <= first_index(s, c) <= s.len(),
    decreases s.len(),
{
    if s.len() > 0 && s[0] != c {
        lemma_first_index_within(s.subrange(1, s.len() as int), c);
    }
}

/// The kinds of declaration that can carry a request.
#[derive(Clone, Copy, Debug, PartialEq, Eq, Structural)]
pub enum DeclarationKind {
    /// A constant.
    Constant,
    /// A static, mutable or not.
    Static,
    /// A local binding.
    Local,
    /// Anything else: a function, a type, a field.
    Other,
}

/// The element type as it is written in a bracketed text: what stands
/// between the opening bracket and the first `;`, or the closing bracket
/// where there is none, without the white space around it. A text that is
/// not in brackets has none.
pub open spec fn element_text(input: Seq<char>) -> Option<Seq<char>> {
    let t = trim(input);
    if t.len() > 0 && t[0] == '[' && t.last() == ']' {
        let inner = trim(t.subrange(1, t.len() - 1));
        Some(trim(inner.subrange(0, first_index(inner, ';'))))
    } else {
        None
    }
}

/// The text that stands where the grammar expects a type name: the
/// element type of a bracketed text, else the whole text without the white
/// space around it.
pub open spec fn type_text(input: Seq<char>) -> Seq<char> {
    match element_text(input) {
        Some(e) => e,
        None => trim(input),
    }
}

/// Whether `name` has the shape of a type that could be supported: one
/// identifier, or the beginning of an array.
pub open spec fn type_shaped(name: Seq<char>) -> bool {
    is_identifier(name) || (name.len() > 0 && name[0] == '[')
}

/// What a declaration asks for. Only constants, statics and locals can ask;
/// the request is read from the type annotation, which has to be there, by
/// the grammar of requests. Where the grammar finds no supported type, a
/// type written as one identifier, and an array as the element of an array,
/// are unsupported types; any other text in that place makes the
/// annotation an invalid type, and so does every other refusal of the
/// grammar.
pub open spec fn declared_request(kind: DeclarationKind, annotation: Option<Seq<char>>) -> Result<
    GenerationRequest,
    ParseError,
> {
    if kind == DeclarationKind::Other {
        Err(ParseError::UnsupportedDeclaration)
    } else {
        match annotation {
            None => Err(ParseError::MissingType),
            Some(t) => match request_of(t) {
                Ok(req) => Ok(req),
                Err(ParseError::UnsupportedType) => if type_shaped(type_text(t)) {
                    Err(ParseError::UnsupportedType)
                } else {
                    Err(ParseError::InvalidType)
                },
                Err(_) => Err(ParseError::InvalidType),
            },
        }
    }
}

/// The annotation as a sequence of characters.
pub open spec fn annotation_text(annotation: Option<&str>) -> Option<Seq<char>> {
    match annotation {
        None => None,
        Some(t) => Some(t@),
    }
}

/// A text of digits denotes at least what any of its beginnings denotes.
pub proof fn lemma_decimal_value_grows(s: Seq<char>, i: int)
    requires
        0 <= i <= s.len(),
    ensures
        decimal_value(s.subrange(0, i)) <= decimal_value(s),
    decreases s.len() - i,
{
    if i == s.len() {
        assert(s.subrange(0, i) =~= s);
    } else {
        let next = s.subrange(0, i + 1);
        assert(next.drop_last() =~= s.subrange(0, i));
        lemma_decimal_value_grows(s, i + 1);
    }
}

/// Reads an array length.
pub fn parse_length(text: &Vec<char>) -> (r: Option<usize>)
    ensures
        r == length_of(text@),
{
    let n: usize = text.len();
    let start: usize = if n > 0 && text[0] == '+' {
        1
    } else {
        0
    };
    let ghost d = length_digits(text@);
    assert(d =~= text@.subrange(start as int, n as int));
    if start == n {
        return None;
    }
    let mut acc: usize = 0;
    let mut i: usize = start;
    assert(d.subrange(0, 0) =~= Seq::<char>::empty());
    while i < n
        invariant
            start <= i <= n,
            n == text@.len(),
            d == length_digits(text@),
            d == text@.subrange(start as int, n as int),
            is_digits(d.subrange(0, i - start)),
            acc == decimal_value(d.subrange(0, i - start)),
        decreases n - i,
    {
        let c: char = text[i];
        let ghost prefix = d.subrange(0, i - start);
        let ghost next = d.subrange(0, i + 1 - start);
        assert(next.drop_last() =~= prefix);
        assert(next.last() == c);
        if !('0' <= c && c <= '9') {
            assert(!is_digit(d[i - start]));
            return None;
        }
        let v: usize = (c as u8 - 48) as usize;
        assert(v == digit_value(c));
        if acc > (usize::MAX - v) / 10 {
            proof {
                lemma_decimal_value_grows(d, i + 1 - start);
            }
            return None;
        }
        acc = acc * 10 + v;
        assert forall|j: int| 0 <= j < next.len() implies is_digit(#[trigger] next[j]) by {
            if j < prefix.len() {
                assert(next[j] == prefix[j]);
            }
        }
        i += 1;
    }
    assert(d.subrange(0, n - start) =~= d);
    Some(acc)
}

/// Reads the part between the brackets.
pub fn parse_array(inner: &Vec<char>) -> (r: Result<GenerationRequest, ParseError>)
    ensures
        r == array_request(inner@),
        r matches Ok(req) ==> req.wf(),
{
    if inner.len() == 0 {
        return Err(ParseError::EmptyArray);
    }
    let k: usize = find_first(inner, ';');
    let head: Vec<char> = slice_chars(inner, 0, k);
    let name: Vec<char> = trim_chars(&head);
    match resolve_chars(&name) {
        None => Err(ParseError::UnsupportedType),
        Some(spec) => {
            if k == inner.len() {
                Err(ParseError::MissingSeparator)
            } else {
                let tail: Vec<char> = slice_chars(inner, k + 1, inner.len());
                let digits: Vec<char> = trim_chars(&tail);
                match parse_length(&digits) {
                    None => Err(ParseError::InvalidLength),
                    Some(n) => Ok(GenerationRequest { element_type: spec, length: Some(n) }),
                }
            }
        },
    }
}

/// Reads a request from its characters.
pub fn parse_chars(input: &Vec<char>) -> (r: Result<GenerationRequest, ParseError>)
    ensures
        r == request_of(input@),
        r matches Ok(req) ==> req.wf(),
{
    let t: Vec<char> = trim_chars(input);
    if t.len() == 0 {
        Err(ParseError::EmptyInput)
    } else if t[0] == '[' {
        if t[t.len() - 1] != ']' {
            Err(ParseError::MissingBracket)
        } else {
            let between: Vec<char> = slice_chars(&t, 1, t.len() - 1);
            let inner: Vec<char> = trim_chars(&between);
            parse_array(&inner)
        }
    } else {
        match resolve_chars(&t) {
            None => Err(ParseError::UnsupportedType),
            Some(spec) => Ok(GenerationRequest { element_type: spec, length: None }),
        }
    }
}

/// The grammar parser: the request that `input` spells, or the reason why
/// it spells none.
pub fn parse_request(input: &str) -> (r: Result<GenerationRequest, ParseError>)
    ensures
        r == request_of(input@),
        r matches Ok(req) ==> req.wf(),
{
    let chars: Vec<char> = to_chars(input);
    parse_chars(&chars)
}

/// The characters of the element type of a bracketed text.
pub fn element_chars(input: &Vec<char>) -> (r: Option<Vec<char>>)
    ensures
        r is Some == element_text(input@) is Some,
        r matches Some(v) ==> element_text(input@) == Some(v@),
{
    let t: Vec<char> = trim_chars(input);
    if t.len() > 0 && t[0] == '[' && t[t.len() - 1] == ']' {
        let between: Vec<char> = slice_chars(&t, 1, t.len() - 1);
        let inner: Vec<char> = trim_chars(&between);
        let k: usize = find_first(&inner, ';');
        let head: Vec<char> = slice_chars(&inner, 0, k);
        Some(trim_chars(&head))
    } else {
        None
    }
}

/// The element type as it is written in a bracketed text, for a message
/// that names it; `None` for a text that is not in brackets.
pub fn element_type_text(input: &str) -> (r: Option<String>)
    ensures
        r is Some == element_text(input@) is Some,
        r matches Some(s) ==> element_text(input@) == Some(s@),
{
    let chars: Vec<char> = to_chars(input);
    match element_chars(&chars) {
        Some(v) => Some(string_of(&v)),
        None => None,
    }
}

/// Whether the text that stands for the type has the shape of a type.
pub fn type_shaped_chars(input: &Vec<char>) -> (r: bool)
    ensures
        r == type_shaped(type_text(input@)),
{
    let name: Vec<char> = match element_chars(input) {
        Some(e) => e,
        None => trim_chars(input),
    };
    is_identifier_chars(&name) || (name.len() > 0 && name[0] == '[')
}

/// The grammar parser for a declaration: the request that a declaration
/// of the given kind spells with its type annotation.
pub fn parse_declaration(kind: DeclarationKind, annotation: Option<&str>) -> (r: Result<
    GenerationRequest,
    ParseError,
>)
    ensures
        r == declared_request(kind, annotation_text(annotation)),
        r matches Ok(req) ==> req.wf(),
{
    match kind {
        DeclarationKind::Other => Err(ParseError::UnsupportedDeclaration),
        _ => match annotation {
            None => Err(ParseError::MissingType),
            Some(t) => {
                let chars: Vec<char> = to_chars(t);
                match parse_chars(&chars) {
                    Ok(req) => Ok(req),
                    Err(ParseError::UnsupportedType) => if type_shaped_chars(&chars) {
                        Err(ParseError::UnsupportedType)
                    } else {
                        Err(ParseError::InvalidType)
                    },
                    Err(_) => Err(ParseError::InvalidType),
                }
            },
        },
    }
}

} // verus!
