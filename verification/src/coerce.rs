//! Coercions: asking a value for the shape a consumer needs.

use vstd::prelude::*;
use crate::error::{view_result, Diagnostic, DiagnosticModel, ErrorKind};
use crate::quote::push_separator;
use crate::span::Span;
use crate::token::{tokens_model, Ident, IdentModel, LitStr, LitStrModel, Token, TokenModel};
use crate::value::{Expr, ExprModel, LitBool, Object, ObjectModel, Path, PathModel, Value, ValueModel};

verus! {

/// The failure that reports a value of the wrong shape: it points at the
/// value and names the shape that was asked for.
pub open spec fn type_mismatch(span: Span, expected: Seq<char>) -> DiagnosticModel {
    DiagnosticModel { kind: ErrorKind::TypeMismatch, span, name: expected }
}

/// The two colons that separate the segments of a path.
pub open spec fn path_separator(span: Span) -> Seq<TokenModel> {
    seq![
        TokenModel::Punct { ch: ':', joint: true, span },
        TokenModel::Punct { ch: ':', joint: false, span },
    ]
}

/// The tokens of path segments, with a separator between neighbours.
pub open spec fn segments_tokens(segments: Seq<IdentModel>, span: Span) -> Seq<TokenModel>
    decreases segments.len(),
{
    if segments.len() == 0 {
        Seq::empty()
    } else if segments.len() == 1 {
        seq![TokenModel::Ident(segments[0])]
    } else {
        segments_tokens(segments.drop_last(), span) + path_separator(span) + seq![
            TokenModel::Ident(segments.last()),
        ]
    }
}

impl PathModel {
    /// The path written out as tokens.
    pub open spec fn tokens(self) -> Seq<TokenModel> {
        if self.leading_colon {
            path_separator(self.span) + segments_tokens(self.segments, self.span)
        } else {
            segments_tokens(self.segments, self.span)
        }
    }

    /// The path with one more segment at its end.
    pub open spec fn join(self, segment: IdentModel) -> PathModel {
        PathModel {
            leading_colon: self.leading_colon,
            segments: self.segments.push(segment),
            span: self.span,
        }
    }
}

impl LitBool {
    /// The word the literal is written as.
    pub open spec fn word(self) -> Seq<char> {
        if self.value {
            "true"@
        } else {
            "false"@
        }
    }
}

impl ValueModel {
    /// The value as a piece of code. An object is not code.
    pub open spec fn code(self) -> ExprModel
        recommends
            !(self is Object),
    {
        match self {
            ValueModel::StringLiteral(lit) => ExprModel {
                tokens: seq![TokenModel::Str(lit)],
                span: lit.span,
            },
            ValueModel::BoolLiteral(lit) => ExprModel {
                tokens: seq![TokenModel::Ident(IdentModel { name: lit.word(), span: lit.span })],
                span: lit.span,
            },
            ValueModel::Identifier(ident) => ExprModel {
                tokens: seq![TokenModel::Ident(ident)],
                span: ident.span,
            },
            ValueModel::Path(path) => ExprModel { tokens: path.tokens(), span: path.span },
            ValueModel::Expression(expr) => expr,
            ValueModel::Object(object) => ExprModel { tokens: Seq::empty(), span: object.span },
        }
    }

    /// The string literal that the value is, or a `TypeMismatch`.
    pub open spec fn expect_lit_str(self) -> Result<LitStrModel, DiagnosticModel> {
        match self {
            ValueModel::StringLiteral(lit) => Ok(lit),
            _ => Err(type_mismatch(self.span(), "string literal"@)),
        }
    }

    /// The identifier that the value is, or a `TypeMismatch`.
    pub open spec fn expect_ident(self) -> Result<IdentModel, DiagnosticModel> {
        match self {
            ValueModel::Identifier(ident) => Ok(ident),
            _ => Err(type_mismatch(self.span(), "identifier"@)),
        }
    }

    /// The path that the value is, a lone identifier being a path of one
    /// segment, or a `TypeMismatch`.
    pub open spec fn expect_path(self) -> Result<PathModel, DiagnosticModel> {
        match self {
            ValueModel::Path(path) => Ok(path),
            ValueModel::Identifier(ident) => Ok(
                PathModel { leading_colon: false, segments: seq![ident], span: ident.span },
            ),
            _ => Err(type_mismatch(self.span(), "path"@)),
        }
    }

    /// The value as code, or a `TypeMismatch` for an object.
    pub open spec fn expect_expr(self) -> Result<ExprModel, DiagnosticModel> {
        match self {
            ValueModel::Object(_) => Err(type_mismatch(self.span(), "expression"@)),
            _ => Ok(self.code()),
        }
    }

    /// The object that the value is, or a `TypeMismatch`.
    pub open spec fn expect_object(self) -> Result<ObjectModel, DiagnosticModel> {
        match self {
            ValueModel::Object(object) => Ok(object),
            _ => Err(type_mismatch(self.span(), "object"@)),
        }
    }

    /// Whether the value is the identifier `name`.
    pub open spec fn is_ident(self, name: Seq<char>) -> bool {
        self matches ValueModel::Identifier(ident) && ident.name == name
    }
}

/// Adding a token at the end adds its model at the end.
pub proof fn lemma_tokens_model_push(tokens: Seq<Token>, token: Token)
    ensures
        tokens_model(tokens.push(token)) == tokens_model(tokens).push(token@),
{
    assert(tokens_model(tokens.push(token)) =~= tokens_model(tokens).push(token@));
}

impl Path {
    /// A path of one segment.
    pub fn from_ident(ident: Ident) -> (path: Path)
        ensures
            path@ == (PathModel {
                leading_colon: false,
                segments: seq![ident@],
                span: ident@.span,
            }),
    {
        let span = ident.span;
        let mut segments: Vec<Ident> = Vec::new();
        segments.push(ident);
        let path = Path { leading_colon: false, segments, span };
        assert(path@.segments =~= seq![ident@]);
        path
    }

    /// Adds a segment at the end of the path.
    pub fn push(&mut self, segment: Ident)
        ensures
            final(self)@ == old(self)@.join(segment@),
    {
        let ghost before = self@;
        self.segments.push(segment);
        assert(self@.segments =~= before.segments.push(segment@));
    }

    /// A copy of this path.
    pub fn duplicate(&self) -> (copy: Path)
        ensures
            copy@ == self@,
    {
        let mut segments: Vec<Ident> = Vec::new();
        let mut i: usize = 0;
        while i < self.segments.len()
            invariant
                i <= self.segments.len(),
                segments@.len() == i,
                forall|j: int| 0 <= j < i ==> segments@[j]@ == self.segments@[j]@,
            decreases self.segments.len() - i,
        {
            segments.push(self.segments[i].duplicate());
            i += 1;
        }
        let copy = Path { leading_colon: self.leading_colon, segments, span: self.span };
        assert(copy@.segments =~= self@.segments);
        copy
    }

    /// The path written out as tokens.
    pub fn into_tokens(self) -> (tokens: Vec<Token>)
        ensures
            tokens_model(tokens@) == self@.tokens(),
    {
        let ghost model = self@;
        let span = self.span;
        let leading_colon = self.leading_colon;
        let mut segments = self.segments;
        let mut tokens: Vec<Token> = Vec::new();
        assert(tokens_model(tokens@) =~= Seq::empty());
        if leading_colon {
            push_separator(&mut tokens, span);
        }
        let ghost lead = tokens_model(tokens@);
        let total = segments.len();
        let mut done: usize = 0;
        assert(model.segments.take(0) =~= Seq::empty());
        while segments.len() > 0
            invariant
                model.segments.len() == total,
                0 <= done <= model.segments.len(),
                segments@.len() == model.segments.len() - done,
                forall|j: int|
                    0 <= j < segments@.len() ==> segments@[j]@ == model.segments[done + j],
                tokens_model(tokens@) == lead + segments_tokens(
                    model.segments.take(done as int),
                    span,
                ),
            decreases segments.len(),
        {
            let segment = segments.remove(0);
            if done > 0 {
                push_separator(&mut tokens, span);
            }
            proof {
                lemma_tokens_model_push(tokens@, Token::Ident(segment));
                assert(model.segments.take(done + 1).drop_last() =~= model.segments.take(
                    done as int,
                ));
                assert(model.segments.take(done + 1).last() == segment@);
            }
            tokens.push(Token::Ident(segment));
            done += 1;
            assert(tokens_model(tokens@) =~= lead + segments_tokens(
                model.segments.take(done as int),
                span,
            ));
        }
        assert(model.segments.take(done as int) =~= model.segments);
        tokens
    }
}

impl Value {
    /// The place the value was written.
    pub fn span(&self) -> (span: Span)
        ensures
            span == self@.span(),
    {
        match self {
            Value::StringLiteral(lit) => lit.span,
            Value::BoolLiteral(lit) => lit.span,
            Value::Identifier(ident) => ident.span,
            Value::Path(path) => path.span,
            Value::Object(object) => object.span(),
            Value::Expression(expr) => expr.span,
        }
    }

    /// Whether the value is the identifier `name`.
    pub fn is_ident(&self, name: &str) -> (same: bool)
        ensures
            same == self@.is_ident(name@),
    {
        match self {
            Value::Identifier(ident) => ident.is(name),
            _ => false,
        }
    }

    /// The string literal that the value is, or a `TypeMismatch` that points
    /// at the value.
    pub fn expect_lit_str(self) -> (res: Result<LitStr, Diagnostic>)
        ensures
            view_result(res) == self@.expect_lit_str(),
    {
        match self {
            Value::StringLiteral(lit) => Ok(lit),
            other => Err(Diagnostic::new(ErrorKind::TypeMismatch, other.span(), "string literal")),
        }
    }

    /// The identifier that the value is, or a `TypeMismatch` that points at
    /// the value.
    pub fn expect_ident(self) -> (res: Result<Ident, Diagnostic>)
        ensures
            view_result(res) == self@.expect_ident(),
    {
        match self {
            Value::Identifier(ident) => Ok(ident),
            other => Err(Diagnostic::new(ErrorKind::TypeMismatch, other.span(), "identifier")),
        }
    }

    /// The path that the value is, a lone identifier being a path of one
    /// segment, or a `TypeMismatch` that points at the value.
    pub fn expect_path(self) -> (res: Result<Path, Diagnostic>)
        ensures
            view_result(res) == self@.expect_path(),
    {
        match self {
            Value::Path(path) => Ok(path),
            Value::Identifier(ident) => Ok(Path::from_ident(ident)),
            other => Err(Diagnostic::new(ErrorKind::TypeMismatch, other.span(), "path")),
        }
    }

    /// The object that the value is, or a `TypeMismatch` that points at the
    /// value.
    pub fn expect_object(self) -> (res: Result<Object, Diagnostic>)
        ensures
            view_result(res) == self@.expect_object(),
    {
        match self {
            Value::Object(object) => Ok(object),
            other => Err(Diagnostic::new(ErrorKind::TypeMismatch, other.span(), "object")),
        }
    }

    /// The value as a piece of code, or a `TypeMismatch` that points at the
    /// value if it is an object.
    pub fn expect_expr(self) -> (res: Result<Expr, Diagnostic>)
        ensures
            view_result(res) == self@.expect_expr(),
    {
        match self {
            Value::Expression(expr) => Ok(expr),
            Value::StringLiteral(lit) => {
                let span = lit.span;
                let mut tokens: Vec<Token> = Vec::new();
                proof {
                    lemma_tokens_model_push(tokens@, Token::Str(lit));
                }
                tokens.push(Token::Str(lit));
                let expr = Expr { tokens, span };
                assert(expr@.tokens =~= seq![TokenModel::Str(lit@)]);
                Ok(expr)
            },
            Value::BoolLiteral(lit) => {
                let word = if lit.value {
                    Ident::new("true", lit.span)
                } else {
                    Ident::new("false", lit.span)
                };
                let mut tokens: Vec<Token> = Vec::new();
                proof {
                    lemma_tokens_model_push(tokens@, Token::Ident(word));
                }
                tokens.push(Token::Ident(word));
                let expr = Expr { tokens, span: lit.span };
                assert(expr@.tokens =~= seq![TokenModel::Ident(word@)]);
                Ok(expr)
            },
            Value::Identifier(ident) => {
                let span = ident.span;
                let mut tokens: Vec<Token> = Vec::new();
                proof {
                    lemma_tokens_model_push(tokens@, Token::Ident(ident));
                }
                tokens.push(Token::Ident(ident));
                let expr = Expr { tokens, span };
                assert(expr@.tokens =~= seq![TokenModel::Ident(ident@)]);
                Ok(expr)
            },
            Value::Path(path) => {
                let span = path.span;
                let tokens = path.into_tokens();
                Ok(Expr { tokens, span })
            },
            Value::Object(object) => Err(
                Diagnostic::new(ErrorKind::TypeMismatch, object.span(), "expression"),
            ),
        }
    }
}

} // verus!
