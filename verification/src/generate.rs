//! The whole pipeline: read the request, look the type up, draw, decode,
//! write.
//!
//! Nothing is kept between two calls. Each slot of a request is drawn on
//! its own, in order, so two calls on one text are not expected to agree,
//! and the elements of an array need not differ.

use vstd::prelude::*;
use crate::emit::{array_text, joined, literal_text, render_array, render_scalar};
use crate::entropy::{draw, EntropyError};
use crate::parser::{
    annotation_text, declared_request, parse_declaration, parse_request, request_of,
    DeclarationKind, GenerationRequest, ParseError,
};
use crate::registry::{resolve, resolve_text, TypeName, TypeSpec};
use crate::synth::{synthesize, RandomValue};

verus! {

/// Why nothing was generated.
#[derive(Clone, Copy, Debug, PartialEq, Eq, Structural)]
pub enum GenerateError {
    /// The request was refused.
    Request(ParseError),
    /// The system's random facility failed.
    Entropy(EntropyError),
}

/// The text that answers `req` with the values `vals`: one literal for a
/// scalar, an array literal for an array.
pub open spec fn emitted(req: GenerationRequest, vals: Seq<RandomValue>) -> Seq<char> {
    match req.length {
        None => literal_text(req.element_type.name, vals[0]@),
        Some(_) => array_text(req.element_type.name, vals),
    }
}

/// `vals` fill `req`: there is one value for each slot, and each lies in
/// the range of the type.
pub open spec fn fills(req: GenerationRequest, vals: Seq<RandomValue>) -> bool {
    &&& vals.len() == req.slots()
    &&& forall|i: int| 0 <= i < vals.len() ==> (#[trigger] vals[i]).fits(req.element_type)
}

/// An array of no elements is written `[]`.
pub proof fn lemma_empty_array(name: TypeName)
    ensures
        array_text(name, Seq::<RandomValue>::empty()) == seq!['[', ']'],
{
    assert(joined(name, Seq::<RandomValue>::empty()) =~= Seq::<char>::empty());
    assert(array_text(name, Seq::<RandomValue>::empty()) =~= seq!['[', ']']);
}

/// Draws one value of the type: as many random bytes as the type is wide,
/// read as a value of the type.
pub fn draw_value(spec: TypeSpec) -> (r: Result<RandomValue, EntropyError>)
    requires
        spec.wf(),
    ensures
        r matches Ok(v) ==> v.fits(spec),
        r matches Err(e) ==> e.code != 0,
{
    match draw(spec.width_bytes) {
        Ok(bytes) => Ok(synthesize(spec, bytes.as_slice())),
        Err(e) => Err(e),
    }
}

/// Draws `n` values of the type, one after the other. With `n` zero
/// nothing is drawn, so nothing can fail.
pub fn draw_values(spec: TypeSpec, n: usize) -> (r: Result<Vec<RandomValue>, EntropyError>)
    requires
        spec.wf(),
    ensures
        n == 0 ==> r is Ok,
        r matches Ok(vals) ==> vals@.len() == n && forall|i: int|
            0 <= i < n ==> (#[trigger] vals@[i]).fits(spec),
        r matches Err(e) ==> e.code != 0,
{
    let mut vals: Vec<RandomValue> = Vec::new();
    let mut i: usize = 0;
    while i < n
        invariant
            spec.wf(),
            i <= n,
            vals@.len() == i,
            forall|j: int| 0 <= j < i ==> (#[trigger] vals@[j]).fits(spec),
        decreases n - i,
    {
        match draw_value(spec) {
            Ok(v) => {
                vals.push(v);
            },
            Err(e) => {
                return Err(e);
            },
        }
        i += 1;
    }
    Ok(vals)
}

/// Writes the answer to `req` from values already drawn, one for each slot.
pub fn emit_request(req: &GenerationRequest, values: &Vec<RandomValue>) -> (r: String)
    requires
        values@.len() == req.slots(),
    ensures
        r@ == emitted(*req, values@),
{
    match req.length {
        None => render_scalar(req.element_type, &values[0]),
        Some(_) => render_array(req.element_type, values),
    }
}

/// Draws the values that `req` asks for and writes them out. An array of
/// length zero draws nothing and always succeeds, as `[]`.
pub fn fulfil(req: GenerationRequest) -> (r: Result<String, EntropyError>)
    requires
        req.wf(),
    ensures
        req.length == Some(0usize) ==> r is Ok,
        match r {
            Ok(s) => exists|vals: Seq<RandomValue>| #[trigger] fills(req, vals) && s@ == emitted(req, vals),
            Err(e) => e.code != 0,
        },
{
    let n: usize = match req.length {
        None => 1,
        Some(n) => n,
    };
    match draw_values(req.element_type, n) {
        Ok(vals) => {
            let s: String = emit_request(&req, &vals);
            assert(fills(req, vals@) && s@ == emitted(req, vals@));
            Ok(s)
        },
        Err(e) => Err(e),
    }
}

/// One random literal of the type that `path` names, without regard to
/// ASCII case: `path` is the bare name, with nothing around it.
///
/// A text that names none of the twelve types is refused, and no other
/// text is. For a name of the table the result is the literal of some
/// value in the type's range, or the failure of the random facility.
pub fn randomize_type(path: &str) -> (r: Result<String, GenerateError>)
    ensures
        match resolve_text(path@) {
            None => r == Err::<String, GenerateError>(
                GenerateError::Request(ParseError::UnsupportedType),
            ),
            Some(spec) => match r {
                Ok(s) => exists|v: RandomValue|
                    #[trigger] v.fits(spec) && s@ == literal_text(spec.name, v@),
                Err(e) => e matches GenerateError::Entropy(cause) && cause.code != 0,
            },
        },
{
    match resolve(path) {
        None => Err(GenerateError::Request(ParseError::UnsupportedType)),
        Some(spec) => match draw_value(spec) {
            Ok(v) => {
                let s: String = render_scalar(spec, &v);
                assert(v.fits(spec) && s@ == literal_text(spec.name, v@));
                Ok(s)
            },
            Err(e) => Err(GenerateError::Entropy(e)),
        },
    }
}

/// The pipeline from request text to literal text.
///
/// A text that the grammar refuses gives the grammar's error and draws
/// nothing. For any other text the result answers the request that the
/// text spells, with some values in the type's range, or is the failure of
/// the random facility, which an array of length zero cannot meet.
pub fn generate(input: &str) -> (r: Result<String, GenerateError>)
    ensures
        match request_of(input@) {
            Err(e) => r == Err::<String, GenerateError>(GenerateError::Request(e)),
            Ok(req) => match r {
                Ok(s) => exists|vals: Seq<RandomValue>| #[trigger] fills(req, vals) && s@ == emitted(req, vals),
                Err(e) => e matches GenerateError::Entropy(cause) && cause.code != 0
                    && req.length != Some(0usize),
            },
        },
{
    match parse_request(input) {
        Err(e) => Err(GenerateError::Request(e)),
        Ok(req) => match fulfil(req) {
            Ok(s) => Ok(s),
            Err(e) => Err(GenerateError::Entropy(e)),
        },
    }
}

/// The pipeline for a declaration: the initializer for a declaration of
/// the given kind and type annotation. A declaration that the grammar
/// refuses gives the grammar's error and draws nothing; any other is
/// answered as `generate` answers its request.
pub fn generate_for_declaration(kind: DeclarationKind, annotation: Option<&str>) -> (r: Result<
    String,
    GenerateError,
>)
    ensures
        match declared_request(kind, annotation_text(annotation)) {
            Err(e) => r == Err::<String, GenerateError>(GenerateError::Request(e)),
            Ok(req) => match r {
                Ok(s) => exists|vals: Seq<RandomValue>| #[trigger]
                    fills(req, vals) && s@ == emitted(req, vals),
                Err(e) => e matches GenerateError::Entropy(cause) && cause.code != 0
                    && req.length != Some(0usize),
            },
        },
{
    match parse_declaration(kind, annotation) {
        Err(e) => Err(GenerateError::Request(e)),
        Ok(req) => match fulfil(req) {
            Ok(s) => Ok(s),
            Err(e) => Err(GenerateError::Entropy(e)),
        },
    }
}

} // verus!
