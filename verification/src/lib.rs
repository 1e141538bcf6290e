//! Compiles declarative annotation blocks into validated schema definitions.
//!
//! An annotation is a sequence of [`token::Token`]s. [`parsing`] reads it
//! into the typed [`value::Value`]s and ordered [`value::Object`]s, [`coerce`]
//! asks a value for the shape a consumer needs, [`api_def`] builds type and
//! parameter definitions from objects, and [`enums`] derives the schema of an
//! enum from its variants and writes the code that attaches it. Every
//! failure is a [`error::Diagnostic`] that points at a place in the source.
//! [`laws`] holds what is proved of all annotations.

pub mod api_def;
pub mod coerce;
pub mod enums;
pub mod error;
pub mod laws;
pub mod parsing;
pub mod quote;
pub mod span;
pub mod token;
pub mod value;
pub mod sys;
