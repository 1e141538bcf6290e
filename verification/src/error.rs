//! Diagnostics: every failure names its kind and the place it points at.

use vstd::prelude::*;
use crate::span::Span;

verus! {

/// The ways in which processing an annotation can fail.
#[derive(Clone, Copy, Debug, PartialEq, Eq, Structural)]
pub enum ErrorKind {
    /// The same key appears twice in one object.
    DuplicateKey,
    /// A value does not have the shape its consumer asked for.
    TypeMismatch,
    /// A key of a parameter definition is not one of the recognized ones.
    UnknownKey,
    /// A key was given that the generator derives by itself.
    ReservedKey,
    /// A required field is absent.
    MissingField,
    /// An enum variant carries fields.
    UnsupportedVariantShape,
    /// A `cli` value is none of the recognized shapes.
    InvalidCliMode,
    /// The tokens do not follow the annotation grammar.
    Syntax,
}

/// A failure: its kind, the place it points at, and the key, field or shape
/// it is about (empty where there is none).
#[derive(Clone, Debug, PartialEq, Eq)]
pub struct Diagnostic {
    pub kind: ErrorKind,
    pub span: Span,
    pub name: String,
}

/// What a [`Diagnostic`] stands for in contracts.
pub struct DiagnosticModel {
    pub kind: ErrorKind,
    pub span: Span,
    pub name: Seq<char>,
}

impl View for Diagnostic {
    type V = DiagnosticModel;

    open spec fn view(&self) -> DiagnosticModel {
        DiagnosticModel { kind: self.kind, span: self.span, name: self.name@ }
    }
}

/// The model of an optional value.
pub open spec fn view_option<T: View>(value: Option<T>) -> Option<T::V> {
    match value {
        Some(inner) => Some(inner@),
        None => None,
    }
}

/// The model of an outcome.
pub open spec fn view_result<T: View>(outcome: Result<T, Diagnostic>) -> Result<
    T::V,
    DiagnosticModel,
> {
    match outcome {
        Ok(value) => Ok(value@),
        Err(error) => Err(error@),
    }
}

impl ErrorKind {
    /// What a failure of this kind says before it names what it is about.
    pub open spec fn headline(self) -> Seq<char> {
        match self {
            ErrorKind::DuplicateKey => "duplicate entry: "@,
            ErrorKind::TypeMismatch => "expected "@,
            ErrorKind::UnknownKey => "invalid key in type definition: "@,
            ErrorKind::ReservedKey => "illegal key, will be autogenerated: "@,
            ErrorKind::MissingField => "missing field: "@,
            ErrorKind::UnsupportedVariantShape => "enums with fields are not supported: "@,
            ErrorKind::InvalidCliMode => "invalid value for: "@,
            ErrorKind::Syntax => "syntax error, expected "@,
        }
    }
}

impl DiagnosticModel {
    /// The text of the failure: what its kind says, then what it is about.
    pub open spec fn message(self) -> Seq<char> {
        self.kind.headline() + self.name
    }
}

impl Diagnostic {
    /// The text of the failure, for whoever reads the diagnostics.
    pub fn message(&self) -> (text: String)
        ensures
            text@ == self@.message(),
    {
        let headline = match self.kind {
            ErrorKind::DuplicateKey => "duplicate entry: ",
            ErrorKind::TypeMismatch => "expected ",
            ErrorKind::UnknownKey => "invalid key in type definition: ",
            ErrorKind::ReservedKey => "illegal key, will be autogenerated: ",
            ErrorKind::MissingField => "missing field: ",
            ErrorKind::UnsupportedVariantShape => "enums with fields are not supported: ",
            ErrorKind::InvalidCliMode => "invalid value for: ",
            ErrorKind::Syntax => "syntax error, expected ",
        };
        let mut text = String::from_str(headline);
        text.append(self.name.as_str());
        text
    }

    /// A failure of the given kind about `name`.
    pub fn new(kind: ErrorKind, span: Span, name: &str) -> (error: Diagnostic)
        ensures
            error@ == (DiagnosticModel { kind, span, name: name@ }),
    {
        Diagnostic { kind, span, name: String::from_str(name) }
    }
}

} // verus!
