//! Derivation of a quote/unquote protocol for record types.
//!
//! Given the declaration of a record type (a struct with zero, positional,
//! or named fields), the library derives two artifacts: a constructor taking
//! one parameter per field, and a tokenization method that re-expresses a
//! runtime value of the type as a literal construction expression.  A token
//! model, a value model, and a parser that inverts tokenization round out
//! the library.

use vstd::prelude::*;

mod emit;
mod parse;
mod shape;
mod tokens;
mod value;

pub use emit::Interpolated;
pub use tokens::IntTy;
pub use tokens::DelimKind;
pub use tokens::Tok;
pub use tokens::TokM;
pub use shape::DataDecl;
pub use shape::DeriveError;
pub use shape::Field;
pub use shape::FieldDecl;
pub use shape::FieldsDecl;
pub use shape::StructStructure;
pub use shape::StructType;
pub use shape::TypeDecl;
pub use value::TyShape;
pub use value::ValM;
pub use value::Value;
pub use parse::reconstruct;
pub use parse::reconstruct_at;
pub use tokens::render;
pub use value::tokenize;
pub use value::tokenize_record;

verus! {

} // verus!
