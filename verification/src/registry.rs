//! The closed table of supported integer types.

use vstd::prelude::*;
use crate::text::{eq_ignore_case, eq_ignore_case_chars, lower, to_chars};

verus! {

/// The twelve integer types that can be asked for.
#[derive(Clone, Copy, Debug, PartialEq, Eq, Structural)]
pub enum TypeName {
    U8,
    I8,
    U16,
    I16,
    U32,
    I32,
    U64,
    I64,
    U128,
    I128,
    Usize,
    Isize,
}

/// The number of bytes in a pointer-sized integer on this machine.
pub open spec fn pointer_width() -> nat {
    (usize::BITS / 8) as nat
}

impl TypeName {
    /// The name as it is written in source text, in lower case.
    pub open spec fn text(self) -> Seq<char> {
        match self {
            TypeName::U8 => seq!['u', '8'],
            TypeName::I8 => seq!['i', '8'],
            TypeName::U16 => seq!['u', '1', '6'],
            TypeName::I16 => seq!['i', '1', '6'],
            TypeName::U32 => seq!['u', '3', '2'],
            TypeName::I32 => seq!['i', '3', '2'],
            TypeName::U64 => seq!['u', '6', '4'],
            TypeName::I64 => seq!['i', '6', '4'],
            TypeName::U128 => seq!['u', '1', '2', '8'],
            TypeName::I128 => seq!['i', '1', '2', '8'],
            TypeName::Usize => seq!['u', 's', 'i', 'z', 'e'],
            TypeName::Isize => seq!['i', 's', 'i', 'z', 'e'],
        }
    }

    /// The width of a value of the type, in bytes.
    pub open spec fn width(self) -> nat {
        match self {
            TypeName::U8 | TypeName::I8 => 1,
            TypeName::U16 | TypeName::I16 => 2,
            TypeName::U32 | TypeName::I32 => 4,
            TypeName::U64 | TypeName::I64 => 8,
            TypeName::U128 | TypeName::I128 => 16,
            TypeName::Usize | TypeName::Isize => pointer_width(),
        }
    }

    /// Whether the type has negative values.
    pub open spec fn is_signed(self) -> bool {
        match self {
            TypeName::I8
            | TypeName::I16
            | TypeName::I32
            | TypeName::I64
            | TypeName::I128
            | TypeName::Isize => true,
            _ => false,
        }
    }

    /// The descriptor that the table holds for the name.
    pub open spec fn spec(self) -> TypeSpec {
        TypeSpec { name: self, width_bytes: self.width() as usize, signed: self.is_signed() }
    }

    /// The name's characters.
    pub fn chars(self) -> (r: Vec<char>)
        ensures
            r@ == self.text(),
    {
        let r: Vec<char> = match self {
            TypeName::U8 => vec!['u', '8'],
            TypeName::I8 => vec!['i', '8'],
            TypeName::U16 => vec!['u', '1', '6'],
            TypeName::I16 => vec!['i', '1', '6'],
            TypeName::U32 => vec!['u', '3', '2'],
            TypeName::I32 => vec!['i', '3', '2'],
            TypeName::U64 => vec!['u', '6', '4'],
            TypeName::I64 => vec!['i', '6', '4'],
            TypeName::U128 => vec!['u', '1', '2', '8'],
            TypeName::I128 => vec!['i', '1', '2', '8'],
            TypeName::Usize => vec!['u', 's', 'i', 'z', 'e'],
            TypeName::Isize => vec!['i', 's', 'i', 'z', 'e'],
        };
        assert(r@ =~= self.text());
        r
    }

    /// Builds the descriptor of the type.
    pub fn describe(self) -> (r: TypeSpec)
        ensures
            r == self.spec(),
            r.wf(),
    {
        let pointer: usize = (usize::BITS / 8) as usize;
        let (width_bytes, signed): (usize, bool) = match self {
            TypeName::U8 => (1, false),
            TypeName::I8 => (1, true),
            TypeName::U16 => (2, false),
            TypeName::I16 => (2, true),
            TypeName::U32 => (4, false),
            TypeName::I32 => (4, true),
            TypeName::U64 => (8, false),
            TypeName::I64 => (8, true),
            TypeName::U128 => (16, false),
            TypeName::I128 => (16, true),
            TypeName::Usize => (pointer, false),
            TypeName::Isize => (pointer, true),
        };
        TypeSpec { name: self, width_bytes, signed }
    }
}

/// Width and signedness of one supported integer type.
#[derive(Clone, Copy, Debug, PartialEq, Eq, Structural)]
pub struct TypeSpec {
    pub name: TypeName,
    pub width_bytes: usize,
    pub signed: bool,
}

impl TypeSpec {
    /// The descriptor is the table's entry for its name.
    pub open spec fn wf(self) -> bool {
        self == self.name.spec()
    }

    /// The least value of the type.
    pub open spec fn min_value(self) -> int {
        if self.signed {
            -(modulus(self.width_bytes as nat) / 2)
        } else {
            0
        }
    }

    /// The greatest value of the type.
    pub open spec fn max_value(self) -> int {
        if self.signed {
            modulus(self.width_bytes as nat) / 2 - 1
        } else {
            modulus(self.width_bytes as nat) - 1
        }
    }
}

/// The number of bit patterns of `width` bytes: 256 to the power `width`.
pub open spec fn modulus(width: nat) -> int
    decreases width,
{
    if width == 0 {
        1
    } else {
        256 * modulus((width - 1) as nat)
    }
}

/// The name that `text` spells, up to ASCII case.
pub open spec fn resolve_name(text: Seq<char>) -> Option<TypeName> {
    if eq_ignore_case(text, TypeName::U8.text()) {
        Some(TypeName::U8)
    } else if eq_ignore_case(text, TypeName::I8.text()) {
        Some(TypeName::I8)
    } else if eq_ignore_case(text, TypeName::U16.text()) {
        Some(TypeName::U16)
    } else if eq_ignore_case(text, TypeName::I16.text()) {
        Some(TypeName::I16)
    } else if eq_ignore_case(text, TypeName::U32.text()) {
        Some(TypeName::U32)
    } else if eq_ignore_case(text, TypeName::I32.text()) {
        Some(TypeName::I32)
    } else if eq_ignore_case(text, TypeName::U64.text()) {
        Some(TypeName::U64)
    } else if eq_ignore_case(text, TypeName::I64.text()) {
        Some(TypeName::I64)
    } else if eq_ignore_case(text, TypeName::U128.text()) {
        Some(TypeName::U128)
    } else if eq_ignore_case(text, TypeName::I128.text()) {
        Some(TypeName::I128)
    } else if eq_ignore_case(text, TypeName::Usize.text()) {
        Some(TypeName::Usize)
    } else if eq_ignore_case(text, TypeName::Isize.text()) {
        Some(TypeName::Isize)
    } else {
        None
    }
}

/// The table as a function of the text: the descriptor of the type that the
/// text names, or nothing.
pub open spec fn resolve_text(text: Seq<char>) -> Option<TypeSpec> {
    match resolve_name(text) {
        Some(name) => Some(name.spec()),
        None => None,
    }
}

/// No two names of the table are spelled alike, not even up to case.
pub proof fn lemma_names_distinct(a: TypeName, b: TypeName)
    requires
        a != b,
    ensures
        !eq_ignore_case(a.text(), b.text()),
{
    let s = a.text();
    let t = b.text();
    if s.len() == t.len() {
        assert(lower(s[0]) != lower(t[0]) || lower(s[1]) != lower(t[1]));
    }
}

/// Every name of the table resolves to its own entry, which has the
/// width and the signedness of the type: one, two, four, eight or sixteen
/// bytes for the fixed-width types, the width of a pointer for the other two.
pub proof fn lemma_resolve_supported(name: TypeName)
    ensures
        resolve_text(name.text()) == Some(name.spec()),
        name.spec().wf(),
        name.spec().width_bytes == name.width(),
        name.spec().signed == name.is_signed(),
        name.width() == 1 || name.width() == 2 || name.width() == 4 || name.width() == 8
            || name.width() == 16,
{
    assert(eq_ignore_case(name.text(), name.text()));
    if name != TypeName::U8 {
        lemma_names_distinct(name, TypeName::U8);
    }
    if name != TypeName::I8 {
        lemma_names_distinct(name, TypeName::I8);
    }
    if name != TypeName::U16 {
        lemma_names_distinct(name, TypeName::U16);
    }
    if name != TypeName::I16 {
        lemma_names_distinct(name, TypeName::I16);
    }
    if name != TypeName::U32 {
        lemma_names_distinct(name, TypeName::U32);
    }
    if name != TypeName::I32 {
        lemma_names_distinct(name, TypeName::I32);
    }
    if name != TypeName::U64 {
        lemma_names_distinct(name, TypeName::U64);
    }
    if name != TypeName::I64 {
        lemma_names_distinct(name, TypeName::I64);
    }
    if name != TypeName::U128 {
        lemma_names_distinct(name, TypeName::U128);
    }
    if name != TypeName::I128 {
        lemma_names_distinct(name, TypeName::I128);
    }
    if name != TypeName::Usize {
        lemma_names_distinct(name, TypeName::Usize);
    }
}

/// A text resolves to nothing exactly when it spells none of the names,
/// and what it resolves to is the entry of a name that it spells.
pub proof fn lemma_resolve_unsupported(text: Seq<char>)
    ensures
        resolve_text(text) is None <==> forall|name: TypeName|
            !eq_ignore_case(text, #[trigger] name.text()),
        resolve_text(text) matches Some(spec) ==> spec.wf() && eq_ignore_case(
            text,
            spec.name.text(),
        ),
{
    if resolve_text(text) is None {
        assert forall|name: TypeName| !eq_ignore_case(text, #[trigger] name.text()) by {
            match name {
                TypeName::U8 => {},
                TypeName::I8 => {},
                TypeName::U16 => {},
                TypeName::I16 => {},
                TypeName::U32 => {},
                TypeName::I32 => {},
                TypeName::U64 => {},
                TypeName::I64 => {},
                TypeName::U128 => {},
                TypeName::I128 => {},
                TypeName::Usize => {},
                TypeName::Isize => {},
            }
        }
    } else {
        let name = resolve_name(text).unwrap();
        assert(eq_ignore_case(text, name.text()));
    }
}

/// Whether `text` spells `name`, up to ASCII case.
pub fn spells(text: &Vec<char>, name: TypeName) -> (r: bool)
    ensures
        r == eq_ignore_case(text@, name.text()),
{
    let candidate: Vec<char> = name.chars();
    eq_ignore_case_chars(text, &candidate)
}

/// Looks a name up among the characters of a text.
pub fn resolve_chars(text: &Vec<char>) -> (r: Option<TypeSpec>)
    ensures
        r == resolve_text(text@),
        r matches Some(spec) ==> spec.wf(),
{
    if spells(text, TypeName::U8) {
        Some(TypeName::U8.describe())
    } else if spells(text, TypeName::I8) {
        Some(TypeName::I8.describe())
    } else if spells(text, TypeName::U16) {
        Some(TypeName::U16.describe())
    } else if spells(text, TypeName::I16) {
        Some(TypeName::I16.describe())
    } else if spells(text, TypeName::U32) {
        Some(TypeName::U32.describe())
    } else if spells(text, TypeName::I32) {
        Some(TypeName::I32.describe())
    } else if spells(text, TypeName::U64) {
        Some(TypeName::U64.describe())
    } else if spells(text, TypeName::I64) {
        Some(TypeName::I64.describe())
    } else if spells(text, TypeName::U128) {
        Some(TypeName::U128.describe())
    } else if spells(text, TypeName::I128) {
        Some(TypeName::I128.describe())
    } else if spells(text, TypeName::Usize) {
        Some(TypeName::Usize.describe())
    } else if spells(text, TypeName::Isize) {
        Some(TypeName::Isize.describe())
    } else {
        None
    }
}

/// The type registry: the descriptor of the integer type that `name` spells,
/// without regard to ASCII case, or `None` for any other text.
pub fn resolve(name: &str) -> (r: Option<TypeSpec>)
    ensures
        r == resolve_text(name@),
        r matches Some(spec) ==> spec.wf(),
{
    let chars: Vec<char> = to_chars(name);
    resolve_chars(&chars)
}

} // verus!
