//! Reading annotations: from tokens to objects and values.

use vstd::prelude::*;
use crate::error::{view_result, Diagnostic, DiagnosticModel, ErrorKind};
use crate::span::Span;
use crate::token::{
    lemma_group_model, tokens_model, Delimiter, Ident, IdentModel, Token, TokenModel,
};
use crate::value::{Expr, ExprModel, LitBool, Object, ObjectModel, Path, PathModel, Value, ValueModel};

verus! {

/// The failure that reports tokens that do not follow the grammar: it points
/// at the token that is out of place and names what was expected there.
pub open spec fn syntax_error(span: Span, expected: Seq<char>) -> DiagnosticModel {
    DiagnosticModel { kind: ErrorKind::Syntax, span, name: expected }
}

/// The failure that reports a key that was given before.
pub open spec fn duplicate_key(key: IdentModel) -> DiagnosticModel {
    DiagnosticModel { kind: ErrorKind::DuplicateKey, span: key.span, name: key.name }
}

impl TokenModel {
    /// Whether the token is the punctuation character `ch`.
    pub open spec fn is_punct(self, ch: char) -> bool {
        self matches TokenModel::Punct { ch: found, .. } && found == ch
    }

    /// Whether the token is the punctuation character `ch`, not glued to a
    /// punctuation character that follows it.
    pub open spec fn is_lone_punct(self, ch: char) -> bool {
        self matches TokenModel::Punct { ch: found, joint, .. } && found == ch && !joint
    }

    /// Whether the token is the punctuation character `ch`, glued to the
    /// punctuation character that follows it.
    pub open spec fn is_joint_punct(self, ch: char) -> bool {
        self matches TokenModel::Punct { ch: found, joint, .. } && found == ch && joint
    }

    /// Whether the token is the identifier `word`.
    pub open spec fn is_word(self, word: Seq<char>) -> bool {
        self matches TokenModel::Ident(ident) && ident.name == word
    }
}

/// The position of the first comma at or after `from`, or the number of
/// tokens if there is none.
pub open spec fn next_comma(tokens: Seq<TokenModel>, from: int) -> int
    decreases tokens.len() - from,
{
    if from < 0 || from >= tokens.len() {
        tokens.len() as int
    } else if tokens[from].is_punct(',') {
        from
    } else {
        next_comma(tokens, from + 1)
    }
}

/// `next_comma` is the first position at or after `from` that holds a comma.
pub proof fn lemma_next_comma(tokens: Seq<TokenModel>, from: int)
    requires
        0 <= from <= tokens.len(),
    ensures
        from <= next_comma(tokens, from) <= tokens.len(),
        next_comma(tokens, from) < tokens.len() ==> tokens[next_comma(tokens, from)].is_punct(','),
        forall|i: int| from <= i < next_comma(tokens, from) ==> !tokens[i].is_punct(','),
    decreases tokens.len() - from,
{
    if from < tokens.len() && !tokens[from].is_punct(',') {
        lemma_next_comma(tokens, from + 1);
    }
}

/// Whether a path separator, two colons of which the first is glued to the
/// second, stands at `at`.
pub open spec fn is_separator_at(tokens: Seq<TokenModel>, at: int) -> bool {
    &&& 0 <= at
    &&& at + 1 < tokens.len()
    &&& tokens[at].is_joint_punct(':')
    &&& tokens[at + 1].is_lone_punct(':')
}

/// Whether the tokens are identifiers with a path separator between
/// neighbours.
pub open spec fn is_path_body(body: Seq<TokenModel>) -> bool {
    &&& body.len() % 3 == 1
    &&& forall|i: int| 0 <= i < body.len() && i % 3 == 0 ==> (#[trigger] body[i]) is Ident
    &&& forall|i: int|
        0 <= i < body.len() && i % 3 == 1 ==> #[trigger] is_separator_at(body, i)
}

/// The part of a path's tokens that follows the leading separator.
pub open spec fn path_body(tokens: Seq<TokenModel>) -> Seq<TokenModel> {
    if is_separator_at(tokens, 0) {
        tokens.skip(2)
    } else {
        tokens
    }
}

/// Whether the tokens are a path: identifiers with separators between them,
/// perhaps after a leading separator, and more than a lone identifier.
pub open spec fn is_path(tokens: Seq<TokenModel>) -> bool {
    is_path_body(path_body(tokens)) && (is_separator_at(tokens, 0) || path_body(tokens).len()
        > 1)
}

/// The place that the tokens cover, from the first to the last.
pub open spec fn tokens_span(tokens: Seq<TokenModel>) -> Span
    recommends
        tokens.len() > 0,
{
    tokens.first().span().join_spec(tokens.last().span())
}

/// The path that the tokens are.
pub open spec fn path_of(tokens: Seq<TokenModel>) -> PathModel
    recommends
        is_path(tokens),
{
    let body = path_body(tokens);
    PathModel {
        leading_colon: is_separator_at(tokens, 0),
        segments: Seq::new(((body.len() + 2) / 3) as nat, |k: int| body[3 * k]->Ident_0),
        span: tokens_span(tokens),
    }
}

/// The value that one or more tokens are, unless they are an object: a
/// string literal, `true` or `false`, an identifier, a path, or else a piece
/// of code that is kept as it is.
pub open spec fn classify_tokens(tokens: Seq<TokenModel>) -> ValueModel
    recommends
        tokens.len() > 0,
{
    if tokens.len() == 1 && tokens[0] is Str {
        ValueModel::StringLiteral(tokens[0]->Str_0)
    } else if tokens.len() == 1 && tokens[0].is_word("true"@) {
        ValueModel::BoolLiteral(LitBool { value: true, span: tokens[0].span() })
    } else if tokens.len() == 1 && tokens[0].is_word("false"@) {
        ValueModel::BoolLiteral(LitBool { value: false, span: tokens[0].span() })
    } else if tokens.len() == 1 && tokens[0] is Ident {
        ValueModel::Identifier(tokens[0]->Ident_0)
    } else if is_path(tokens) {
        ValueModel::Path(path_of(tokens))
    } else {
        ValueModel::Expression(ExprModel { tokens, span: tokens_span(tokens) })
    }
}

/// Whether the token is a group in braces, which holds an object.
pub open spec fn is_braces(token: TokenModel) -> bool {
    token matches TokenModel::Group { delimiter, .. } && delimiter == Delimiter::Brace
}

/// The key of the entry that stands in `tokens[from..end]`, or what is wrong
/// with the way the entry is written: it must be an identifier, a colon that
/// stands alone, and at least one token for the value.
pub open spec fn entry_key(tokens: Seq<TokenModel>, from: int, end: int) -> Result<
    IdentModel,
    DiagnosticModel,
> {
    if !(tokens[from] is Ident) {
        Err(syntax_error(tokens[from].span(), "key"@))
    } else if end == from + 1 {
        Err(syntax_error(tokens[from].span(), ":"@))
    } else if !tokens[from + 1].is_lone_punct(':') {
        Err(syntax_error(tokens[from + 1].span(), ":"@))
    } else if end == from + 2 {
        Err(syntax_error(tokens[from + 1].span(), "value"@))
    } else {
        Ok(tokens[from]->Ident_0)
    }
}

/// The value of the entry that stands in `tokens[from..end]`: what follows
/// the key and the colon. A single group in braces is an object, read from
/// the tokens inside it; any other tokens are taken as they stand.
pub open spec fn entry_value(tokens: Seq<TokenModel>, from: int, end: int) -> Result<
    ValueModel,
    DiagnosticModel,
>
    decreases tokens, tokens.len() - from, 0int,
{
    let first = tokens[from + 2];
    if end == from + 3 && 0 <= from && from + 2 < tokens.len() && is_braces(first) {
        match parse_entries(
            first->Group_tokens,
            0,
            ObjectModel { entries: Seq::empty(), span: first->Group_span },
        ) {
            Ok(inner) => Ok(ValueModel::Object(inner)),
            Err(error) => Err(error),
        }
    } else {
        Ok(classify_tokens(tokens.subrange(from + 2, end)))
    }
}

/// What reading entries from position `from` on and adding them to `object`
/// gives. Entries are separated by commas, and a comma may follow the last
/// one. Every entry is `key: value`. The first entry that is not written
/// like this, or whose key was given before, decides the failure; what is
/// wrong with the value of an entry is reported before its key is found to
/// be given twice.
pub open spec fn parse_entries(tokens: Seq<TokenModel>, from: int, object: ObjectModel) -> Result<
    ObjectModel,
    DiagnosticModel,
>
    decreases tokens, tokens.len() - from, 1int,
{
    if from < 0 || from >= tokens.len() {
        Ok(object)
    } else {
        let end = next_comma(tokens, from);
        match entry_key(tokens, from, end) {
            Err(error) => Err(error),
            Ok(key) => match entry_value(tokens, from, end) {
                Err(error) => Err(error),
                Ok(value) => if object.contains_key(key.name) {
                    Err(duplicate_key(key))
                } else if from <= end < tokens.len() {
                    parse_entries(tokens, end + 1, object.push(key, value))
                } else {
                    Ok(object.push(key, value))
                },
            },
        }
    }
}

/// What reading an object from the tokens inside its braces gives. `span` is
/// the place of the whole object.
pub open spec fn parse_body_tokens(tokens: Seq<TokenModel>, span: Span) -> Result<
    ObjectModel,
    DiagnosticModel,
> {
    parse_entries(tokens, 0, ObjectModel { entries: Seq::empty(), span })
}

/// What reading an object from an annotation gives. The entries may stand
/// in braces, and then the group is the place of the object; or they may be
/// all there is, and then `span` is.
pub open spec fn parse_object_tokens(tokens: Seq<TokenModel>, span: Span) -> Result<
    ObjectModel,
    DiagnosticModel,
> {
    if tokens.len() == 1 && is_braces(tokens[0]) {
        parse_body_tokens(tokens[0]->Group_tokens, tokens[0]->Group_span)
    } else {
        parse_body_tokens(tokens, span)
    }
}

/// What reading an annotation gives: a single group in braces is an object;
/// any other tokens are one value; no tokens are refused, pointing at
/// `span`.
pub open spec fn parse_value_tokens(tokens: Seq<TokenModel>, span: Span) -> Result<
    ValueModel,
    DiagnosticModel,
> {
    if tokens.len() == 0 {
        Err(syntax_error(span, "value"@))
    } else if tokens.len() == 1 && is_braces(tokens[0]) {
        match parse_body_tokens(tokens[0]->Group_tokens, tokens[0]->Group_span) {
            Ok(object) => Ok(ValueModel::Object(object)),
            Err(error) => Err(error),
        }
    } else {
        Ok(classify_tokens(tokens))
    }
}

/// The position of the first comma at or after `from`.
pub(crate) fn find_comma(tokens: &Vec<Token>, from: usize) -> (end: usize)
    requires
        from <= tokens@.len(),
    ensures
        end == next_comma(tokens_model(tokens@), from as int),
        from <= end <= tokens@.len(),
{
    let ghost model = tokens_model(tokens@);
    let mut end: usize = from;
    while end < tokens.len()
        invariant
            from <= end <= tokens@.len(),
            model == tokens_model(tokens@),
            next_comma(model, end as int) == next_comma(model, from as int),
        decreases tokens@.len() - end,
    {
        match &tokens[end] {
            Token::Punct { ch, .. } => {
                if *ch == ',' {
                    return end;
                }
            },
            _ => {},
        }
        end += 1;
    }
    end
}

/// A copy of the tokens in `tokens[from..end]`.
pub(crate) fn duplicate_range(tokens: &Vec<Token>, from: usize, end: usize) -> (copy: Vec<Token>)
    requires
        from <= end <= tokens@.len(),
    ensures
        tokens_model(copy@) == tokens_model(tokens@).subrange(from as int, end as int),
{
    let mut copy: Vec<Token> = Vec::new();
    let mut at: usize = from;
    while at < end
        invariant
            from <= at <= end <= tokens@.len(),
            copy@.len() == at - from,
            forall|j: int| 0 <= j < copy@.len() ==> copy@[j]@ == tokens@[from + j]@,
        decreases end - at,
    {
        copy.push(tokens[at].duplicate());
        at += 1;
    }
    assert(tokens_model(copy@) =~= tokens_model(tokens@).subrange(from as int, end as int));
    copy
}

/// The place that `tokens[from..end]` cover.
pub(crate) fn range_span(tokens: &Vec<Token>, from: usize, end: usize) -> (span: Span)
    requires
        from < end <= tokens@.len(),
    ensures
        span == tokens_span(tokens_model(tokens@).subrange(from as int, end as int)),
{
    tokens[from].span().join(tokens[end - 1].span())
}

impl Token {
    /// Whether the token is the punctuation character `ch`, not glued to a
    /// punctuation character that follows it.
    pub fn is_lone_punct(&self, ch: char) -> (same: bool)
        ensures
            same == self@.is_lone_punct(ch),
    {
        match self {
            Token::Punct { ch: found, joint, .. } => *found == ch && !*joint,
            _ => false,
        }
    }

    /// Whether the token is the punctuation character `ch`, glued to the
    /// punctuation character that follows it.
    pub fn is_joint_punct(&self, ch: char) -> (same: bool)
        ensures
            same == self@.is_joint_punct(ch),
    {
        match self {
            Token::Punct { ch: found, joint, .. } => *found == ch && *joint,
            _ => false,
        }
    }
}

/// The path that `tokens[from..end]` are, if they are one.
fn parse_path(tokens: &Vec<Token>, from: usize, end: usize) -> (res: Option<Path>)
    requires
        from < end <= tokens@.len(),
    ensures
        match res {
            Some(path) => is_path(tokens_model(tokens@).subrange(from as int, end as int))
                && path@ == path_of(tokens_model(tokens@).subrange(from as int, end as int)),
            None => !is_path(tokens_model(tokens@).subrange(from as int, end as int)),
        },
{
    let ghost part = tokens_model(tokens@).subrange(from as int, end as int);
    let lead = end - from >= 2 && tokens[from].is_joint_punct(':') && tokens[from
        + 1].is_lone_punct(':');
    let start: usize = if lead {
        from + 2
    } else {
        from
    };
    let ghost body = path_body(part);
    proof {
        assert(lead == is_separator_at(part, 0));
        assert(body =~= tokens_model(tokens@).subrange(start as int, end as int));
    }
    let mut segments: Vec<Ident> = Vec::new();
    let mut at: usize = start;
    loop
        invariant
            from < end <= tokens@.len(),
            from <= start <= at <= end,
            (at - start) % 3 == 0,
            lead == is_separator_at(part, 0),
            !lead ==> start == from,
            part == tokens_model(tokens@).subrange(from as int, end as int),
            body == path_body(part),
            body == tokens_model(tokens@).subrange(start as int, end as int),
            body.len() == end - start,
            forall|i: int| 0 <= i < at - start && i % 3 == 0 ==> (#[trigger] body[i]) is Ident,
            forall|i: int|
                0 <= i < at - start && i % 3 == 1 ==> #[trigger] is_separator_at(body, i),
            segments@.len() == (at - start) / 3,
            forall|k: int| 0 <= k < segments@.len() ==> segments@[k]@ == body[3 * k]->Ident_0,
        decreases end - at,
    {
        if at >= end {
            return None;
        }
        assert(body[at - start] == tokens@[at as int]@);
        match &tokens[at] {
            Token::Ident(ident) => {
                segments.push(ident.duplicate());
            },
            _ => {
                assert(!(body[at - start] is Ident));
                return None;
            },
        }
        if end - at == 1 {
            if !lead && at == start {
                return None;
            }
            let path = Path { leading_colon: lead, segments, span: range_span(tokens, from, end) };
            proof {
                assert forall|i: int| 0 <= i < body.len() && i % 3 == 1 implies #[trigger] is_separator_at(
                    body,
                    i,
                ) by {
                    assert(i < at - start);
                }
                assert(is_path_body(body));
                assert(path@.segments =~= path_of(part).segments);
            }
            return Some(path);
        }
        if end - at == 2 {
            return None;
        }
        assert(body[at + 1 - start] == tokens@[at + 1]@);
        assert(body[at + 2 - start] == tokens@[at + 2]@);
        if !(tokens[at + 1].is_joint_punct(':') && tokens[at + 2].is_lone_punct(':')) {
            assert(!is_separator_at(body, at + 1 - start));
            return None;
        }
        proof {
            assert(is_separator_at(body, at + 1 - start));
        }
        at += 3;
    }
}

/// The value that `tokens[from..end]` are, taken as they stand.
fn classify(tokens: &Vec<Token>, from: usize, end: usize) -> (value: Value)
    requires
        from < end <= tokens@.len(),
    ensures
        value@ == classify_tokens(tokens_model(tokens@).subrange(from as int, end as int)),
{
    let ghost part = tokens_model(tokens@).subrange(from as int, end as int);
    assert(part[0] == tokens@[from as int]@);
    if end - from == 1 {
        match &tokens[from] {
            Token::Str(lit) => {
                return Value::StringLiteral(lit.duplicate());
            },
            Token::Ident(ident) => {
                if ident.is("true") {
                    return Value::BoolLiteral(LitBool { value: true, span: ident.span });
                }
                if ident.is("false") {
                    return Value::BoolLiteral(LitBool { value: false, span: ident.span });
                }
                return Value::Identifier(ident.duplicate());
            },
            _ => {},
        }
    }
    match parse_path(tokens, from, end) {
        Some(path) => Value::Path(path),
        None => Value::Expression(
            Expr { tokens: duplicate_range(tokens, from, end), span: range_span(tokens, from, end) },
        ),
    }
}

/// Reads an object from the tokens inside its braces. `span` is the place of
/// the whole object.
///
/// Entries are separated by commas, and a comma may follow the last one. The
/// entries of the result stand in the order in which they were written. The
/// first entry that is not written as `key: value`, or whose key was given
/// before, decides the failure.
pub fn parse_object_body(tokens: &Vec<Token>, span: Span) -> (res: Result<Object, Diagnostic>)
    ensures
        view_result(res) == parse_body_tokens(tokens_model(tokens@), span),
    decreases *tokens,
{
    let ghost model = tokens_model(tokens@);
    let mut object = Object::new(span);
    let mut from: usize = 0;
    while from < tokens.len()
        invariant
            model == tokens_model(tokens@),
            from <= tokens@.len(),
            parse_entries(model, from as int, object@) == parse_body_tokens(model, span),
        decreases tokens@.len() - from,
    {
        let end = find_comma(tokens, from);
        proof {
            lemma_next_comma(model, from as int);
            reveal_with_fuel(parse_entries, 2);
            reveal_with_fuel(entry_value, 2);
        }
        let key = match &tokens[from] {
            Token::Ident(ident) => ident.duplicate(),
            other => {
                return Err(Diagnostic::new(ErrorKind::Syntax, other.span(), "key"));
            },
        };
        if end - from == 1 {
            return Err(Diagnostic::new(ErrorKind::Syntax, tokens[from].span(), ":"));
        }
        if !tokens[from + 1].is_lone_punct(':') {
            return Err(Diagnostic::new(ErrorKind::Syntax, tokens[from + 1].span(), ":"));
        }
        if end - from == 2 {
            return Err(Diagnostic::new(ErrorKind::Syntax, tokens[from + 1].span(), "value"));
        }
        let mut nested: Option<Value> = None;
        if end - from == 3 {
            match &tokens[from + 2] {
                Token::Group { delimiter, tokens: inner, span: group_span } => {
                    if *delimiter == Delimiter::Brace {
                        proof {
                            lemma_group_model(*delimiter, *inner, *group_span);
                        }
                        match parse_object_body(inner, *group_span) {
                            Ok(found) => {
                                nested = Some(Value::Object(found));
                            },
                            Err(error) => {
                                return Err(error);
                            },
                        }
                    }
                },
                _ => {},
            }
        }
        let value = match nested {
            Some(found) => found,
            None => classify(tokens, from + 2, end),
        };
        match object.insert(key, value) {
            Ok(()) => {},
            Err(error) => {
                return Err(error);
            },
        }
        from = if end < tokens.len() {
            end + 1
        } else {
            end
        };
    }
    Ok(object)
}

/// Reads an object from an annotation, whose entries may stand in braces or
/// be all there is. `span` is the place of the annotation; an object in
/// braces has the place of its braces.
pub fn parse_object(tokens: &Vec<Token>, span: Span) -> (res: Result<Object, Diagnostic>)
    ensures
        view_result(res) == parse_object_tokens(tokens_model(tokens@), span),
{
    if tokens.len() == 1 {
        match &tokens[0] {
            Token::Group { delimiter, tokens: inner, span: group_span } => {
                if *delimiter == Delimiter::Brace {
                    proof {
                        lemma_group_model(*delimiter, *inner, *group_span);
                    }
                    return parse_object_body(inner, *group_span);
                }
            },
            _ => {},
        }
    }
    parse_object_body(tokens, span)
}

/// Reads an annotation: an object if the tokens are a single group in
/// braces, one value of another shape otherwise. Without any token there is
/// no value, which is reported at `span`.
pub fn parse_value(tokens: &Vec<Token>, span: Span) -> (res: Result<Value, Diagnostic>)
    ensures
        view_result(res) == parse_value_tokens(tokens_model(tokens@), span),
{
    if tokens.len() == 0 {
        return Err(Diagnostic::new(ErrorKind::Syntax, span, "value"));
    }
    if tokens.len() == 1 {
        match &tokens[0] {
            Token::Group { delimiter, tokens: inner, span: group_span } => {
                if *delimiter == Delimiter::Brace {
                    proof {
                        lemma_group_model(*delimiter, *inner, *group_span);
                    }
                    return match parse_object_body(inner, *group_span) {
                        Ok(found) => Ok(Value::Object(found)),
                        Err(error) => Err(error),
                    };
                }
            },
            _ => {},
        }
    }
    let value = classify(tokens, 0, tokens.len());
    assert(tokens_model(tokens@).subrange(0, tokens@.len() as int) =~= tokens_model(tokens@));
    Ok(value)
}


} // verus!
