//! Random integer literals, and fixed-size arrays of them, as source text.
//!
//! A request names one of twelve integer types, alone (`u8`) or as the
//! element type of an array (`[u32; 5]`). Each slot is filled from the
//! operating system's secure random source, decoded as a value of the type,
//! and written out as a literal that carries the type.
//!
//! Type names are matched without regard to ASCII case, and white space
//! around them is Unicode white space.

pub mod text;
pub mod registry;
pub mod synth;
pub mod emit;
pub mod entropy;
pub mod parser;
pub mod generate;

pub use entropy::{draw, EntropyError};
pub use emit::{render_array, render_scalar};
pub use generate::{generate, generate_for_declaration, randomize_type, GenerateError};
pub use parser::{
    element_type_text, parse_declaration, parse_request, DeclarationKind, GenerationRequest,
    ParseError,
};
pub use registry::{resolve, TypeName, TypeSpec};
pub use synth::{synthesize, RandomValue};
