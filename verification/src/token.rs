//! The token trees that annotations are written in.

use vstd::prelude::*;
use crate::span::Span;

verus! {

/// The brackets around a group of tokens.
#[derive(Clone, Copy, Debug, PartialEq, Eq, Structural)]
pub enum Delimiter {
    /// `( .. )`
    Parenthesis,
    /// `{ .. }`
    Brace,
    /// `[ .. ]`
    Bracket,
    /// No brackets written: the tokens only belong together.
    Invisible,
}

/// An identifier together with the place it was written.
#[derive(Clone, Debug, PartialEq, Eq)]
pub struct Ident {
    pub name: String,
    pub span: Span,
}

/// What an [`Ident`] stands for in contracts.
pub struct IdentModel {
    pub name: Seq<char>,
    pub span: Span,
}

impl View for Ident {
    type V = IdentModel;

    open spec fn view(&self) -> IdentModel {
        IdentModel { name: self.name@, span: self.span }
    }
}

/// A string literal: the text it denotes and the place it was written.
#[derive(Clone, Debug, PartialEq, Eq)]
pub struct LitStr {
    pub value: String,
    pub span: Span,
}

/// What a [`LitStr`] stands for in contracts.
pub struct LitStrModel {
    pub value: Seq<char>,
    pub span: Span,
}

impl View for LitStr {
    type V = LitStrModel;

    open spec fn view(&self) -> LitStrModel {
        LitStrModel { value: self.value@, span: self.span }
    }
}

/// One token of an annotation, or a bracketed group of them.
#[derive(Debug, PartialEq, Eq)]
pub enum Token {
    /// A word: an identifier or a keyword.
    Ident(Ident),
    /// One punctuation character; `joint` says that it is glued to a
    /// punctuation character that follows it, as the first `:` of `::` is.
    Punct { ch: char, joint: bool, span: Span },
    /// A string literal, with the text it denotes.
    Str(LitStr),
    /// Any other literal, as it was written.
    Literal { text: String, span: Span },
    /// Tokens in brackets.
    Group { delimiter: Delimiter, tokens: Vec<Token>, span: Span },
}

/// What a [`Token`] stands for in contracts.
pub enum TokenModel {
    Ident(IdentModel),
    Punct { ch: char, joint: bool, span: Span },
    Str(LitStrModel),
    Literal { text: Seq<char>, span: Span },
    Group { delimiter: Delimiter, tokens: Seq<TokenModel>, span: Span },
}

/// The model of one token.
pub open spec fn token_model(token: Token) -> TokenModel
    decreases token,
{
    match token {
        Token::Ident(ident) => TokenModel::Ident(ident@),
        Token::Punct { ch, joint, span } => TokenModel::Punct { ch, joint, span },
        Token::Str(lit) => TokenModel::Str(lit@),
        Token::Literal { text, span } => TokenModel::Literal { text: text@, span },
        Token::Group { delimiter, tokens, span } => TokenModel::Group {
            delimiter,
            tokens: Seq::new(
                tokens@.len(),
                |i: int|
                    if 0 <= i < tokens@.len() {
                        token_model(tokens@[i])
                    } else {
                        arbitrary()
                    },
            ),
            span,
        },
    }
}

/// The models of a sequence of tokens, in order.
pub open spec fn tokens_model(tokens: Seq<Token>) -> Seq<TokenModel> {
    Seq::new(tokens.len(), |i: int| token_model(tokens[i]))
}

/// A group's model holds the models of the tokens inside it.
pub proof fn lemma_group_model(delimiter: Delimiter, tokens: Vec<Token>, span: Span)
    ensures
        token_model(Token::Group { delimiter, tokens, span }) == (TokenModel::Group {
            delimiter,
            tokens: tokens_model(tokens@),
            span,
        }),
{
    let inside = token_model(Token::Group { delimiter, tokens, span })->Group_tokens;
    assert(inside =~= tokens_model(tokens@));
}

impl View for Token {
    type V = TokenModel;

    open spec fn view(&self) -> TokenModel {
        token_model(*self)
    }
}

impl TokenModel {
    /// The place the token was written.
    pub open spec fn span(self) -> Span {
        match self {
            TokenModel::Ident(ident) => ident.span,
            TokenModel::Punct { span, .. } => span,
            TokenModel::Str(lit) => lit.span,
            TokenModel::Literal { span, .. } => span,
            TokenModel::Group { span, .. } => span,
        }
    }
}

impl Ident {
    /// An identifier with the given text.
    pub fn new(name: &str, span: Span) -> (ident: Ident)
        ensures
            ident@ == (IdentModel { name: name@, span }),
    {
        Ident { name: String::from_str(name), span }
    }

    /// A copy of this identifier.
    pub fn duplicate(&self) -> (copy: Ident)
        ensures
            copy@ == self@,
    {
        Ident { name: self.name.clone(), span: self.span }
    }

    /// Whether the identifier's text is `name`.
    pub fn is(&self, name: &str) -> (same: bool)
        ensures
            same == (self@.name == name@),
    {
        let other = String::from_str(name);
        self.name == other
    }
}

impl LitStr {
    /// A string literal that denotes `value`.
    pub fn new(value: &str, span: Span) -> (lit: LitStr)
        ensures
            lit@ == (LitStrModel { value: value@, span }),
    {
        LitStr { value: String::from_str(value), span }
    }

    /// A copy of this literal.
    pub fn duplicate(&self) -> (copy: LitStr)
        ensures
            copy@ == self@,
    {
        LitStr { value: self.value.clone(), span: self.span }
    }
}

impl Token {
    /// The place the token was written.
    pub fn span(&self) -> (span: Span)
        ensures
            span == self@.span(),
    {
        match self {
            Token::Ident(ident) => ident.span,
            Token::Punct { span, .. } => *span,
            Token::Str(lit) => lit.span,
            Token::Literal { span, .. } => *span,
            Token::Group { span, .. } => *span,
        }
    }

    /// A copy of this token and of everything inside it.
    pub fn duplicate(&self) -> (copy: Token)
        ensures
            copy@ == self@,
        decreases *self,
    {
        match self {
            Token::Ident(ident) => Token::Ident(ident.duplicate()),
            Token::Punct { ch, joint, span } => Token::Punct { ch: *ch, joint: *joint, span: *span },
            Token::Str(lit) => Token::Str(lit.duplicate()),
            Token::Literal { text, span } => Token::Literal { text: text.clone(), span: *span },
            Token::Group { delimiter, tokens, span } => {
                let inner = duplicate_tokens(tokens);
                proof {
                    lemma_group_model(*delimiter, *tokens, *span);
                    lemma_group_model(*delimiter, inner, *span);
                }
                Token::Group { delimiter: *delimiter, tokens: inner, span: *span }
            },
        }
    }
}

impl Clone for Token {
    fn clone(&self) -> (copy: Token)
        ensures
            copy@ == self@,
    {
        self.duplicate()
    }
}

/// A copy of `tokens`, token by token.
pub fn duplicate_tokens(tokens: &Vec<Token>) -> (copy: Vec<Token>)
    ensures
        tokens_model(copy@) == tokens_model(tokens@),
    decreases *tokens,
{
    let mut copy: Vec<Token> = Vec::new();
    let mut i: usize = 0;
    while i < tokens.len()
        invariant
            i <= tokens.len(),
            copy@.len() == i,
            forall|j: int| 0 <= j < i ==> copy@[j]@ == tokens@[j]@,
        decreases tokens.len() - i,
    {
        let token = tokens[i].duplicate();
        copy.push(token);
        i += 1;
    }
    assert(tokens_model(copy@) =~= tokens_model(tokens@));
    copy
}

} // verus!
