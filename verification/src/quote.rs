//! Writing code: the tokens of generated declarations.

use vstd::prelude::*;
use crate::coerce::{lemma_tokens_model_push, path_separator};
use crate::span::Span;
use crate::token::{
    lemma_group_model, tokens_model, Delimiter, Ident, IdentModel, Token, TokenModel,
};

verus! {

/// The identifier `name`, written at `span`.
pub open spec fn word(name: Seq<char>, span: Span) -> TokenModel {
    TokenModel::Ident(IdentModel { name, span })
}

/// The punctuation character `ch`, standing alone, written at `span`.
pub open spec fn punct(ch: char, span: Span) -> TokenModel {
    TokenModel::Punct { ch, joint: false, span }
}

/// The punctuation character `ch`, glued to what follows, written at `span`.
pub open spec fn joint(ch: char, span: Span) -> TokenModel {
    TokenModel::Punct { ch, joint: true, span }
}

/// The tokens `inside`, in brackets written at `span`.
pub open spec fn group(delimiter: Delimiter, inside: Seq<TokenModel>, span: Span) -> TokenModel {
    TokenModel::Group { delimiter, tokens: inside, span }
}

/// The path `::proxmox::api::<module>::<item>`, written at `span`.
pub open spec fn api_path(module: Seq<char>, item: Seq<char>, span: Span) -> Seq<TokenModel> {
    path_separator(span) + seq![word("proxmox"@, span)] + path_separator(span) + seq![
        word("api"@, span),
    ] + path_separator(span) + seq![word(module, span)] + path_separator(span) + seq![
        word(item, span),
    ]
}

/// Adds a token at the end.
pub fn push_token(tokens: &mut Vec<Token>, token: Token)
    ensures
        tokens_model(final(tokens)@) == tokens_model(old(tokens)@).push(token@),
{
    proof {
        lemma_tokens_model_push(tokens@, token);
    }
    tokens.push(token);
}

/// Adds the identifier `name` at the end.
pub fn push_word(tokens: &mut Vec<Token>, name: &str, span: Span)
    ensures
        tokens_model(final(tokens)@) == tokens_model(old(tokens)@).push(word(name@, span)),
{
    push_token(tokens, Token::Ident(Ident::new(name, span)));
}

/// Adds the punctuation character `ch`, standing alone, at the end.
pub fn push_punct(tokens: &mut Vec<Token>, ch: char, span: Span)
    ensures
        tokens_model(final(tokens)@) == tokens_model(old(tokens)@).push(punct(ch, span)),
{
    push_token(tokens, Token::Punct { ch, joint: false, span });
}

/// Adds the punctuation character `ch`, glued to what follows, at the end.
pub fn push_joint(tokens: &mut Vec<Token>, ch: char, span: Span)
    ensures
        tokens_model(final(tokens)@) == tokens_model(old(tokens)@).push(joint(ch, span)),
{
    push_token(tokens, Token::Punct { ch, joint: true, span });
}

/// Adds the tokens `inside`, in brackets, at the end.
pub fn push_group(tokens: &mut Vec<Token>, delimiter: Delimiter, inside: Vec<Token>, span: Span)
    ensures
        tokens_model(final(tokens)@) == tokens_model(old(tokens)@).push(
            group(delimiter, tokens_model(inside@), span),
        ),
{
    proof {
        lemma_group_model(delimiter, inside, span);
    }
    push_token(tokens, Token::Group { delimiter, tokens: inside, span });
}

/// Adds copies of the tokens `more` at the end.
pub fn push_all(tokens: &mut Vec<Token>, more: &Vec<Token>)
    ensures
        tokens_model(final(tokens)@) == tokens_model(old(tokens)@) + tokens_model(more@),
{
    let ghost before = tokens_model(tokens@);
    let mut at: usize = 0;
    assert(before + tokens_model(more@).take(0) =~= before);
    while at < more.len()
        invariant
            at <= more@.len(),
            tokens_model(tokens@) == before + tokens_model(more@).take(at as int),
        decreases more@.len() - at,
    {
        let ghost sofar = tokens_model(tokens@);
        push_token(tokens, more[at].duplicate());
        at += 1;
        assert(tokens_model(tokens@) =~= before + tokens_model(more@).take(at as int));
    }
    assert(tokens_model(more@).take(at as int) =~= tokens_model(more@));
}

/// Adds a path separator at the end.
pub fn push_separator(tokens: &mut Vec<Token>, span: Span)
    ensures
        tokens_model(final(tokens)@) == tokens_model(old(tokens)@) + path_separator(span),
{
    let ghost before = tokens_model(tokens@);
    push_joint(tokens, ':', span);
    push_punct(tokens, ':', span);
    assert(tokens_model(tokens@) =~= before + path_separator(span));
}

/// Adds the path `::proxmox::api::<module>::<item>` at the end.
pub fn push_api_path(tokens: &mut Vec<Token>, module: &str, item: &str, span: Span)
    ensures
        tokens_model(final(tokens)@) == tokens_model(old(tokens)@) + api_path(
            module@,
            item@,
            span,
        ),
{
    let ghost before = tokens_model(tokens@);
    push_separator(tokens, span);
    push_word(tokens, "proxmox", span);
    push_separator(tokens, span);
    push_word(tokens, "api", span);
    push_separator(tokens, span);
    push_word(tokens, module, span);
    push_separator(tokens, span);
    push_word(tokens, item, span);
    assert(tokens_model(tokens@) =~= before + api_path(module@, item@, span));
}

/// No tokens yet.
pub fn no_tokens() -> (tokens: Vec<Token>)
    ensures
        tokens@ == Seq::<Token>::empty(),
        tokens_model(tokens@) == Seq::<TokenModel>::empty(),
{
    let tokens: Vec<Token> = Vec::new();
    assert(tokens_model(tokens@) =~= Seq::<TokenModel>::empty());
    tokens
}

} // verus!
