//! The schema of an enum: a string that is one of the variants' names.

use vstd::prelude::*;
use crate::coerce::{path_separator, type_mismatch};
use crate::quote::{
    api_path, group, joint, no_tokens, punct, push_all, push_api_path, push_group, push_joint,
    push_punct, push_separator, push_token, push_word, word,
};
use crate::error::{view_option, view_result, Diagnostic, DiagnosticModel, ErrorKind};
use crate::parsing::{
    duplicate_range, find_comma, lemma_next_comma, next_comma, range_span, syntax_error, tokens_span,
};
use crate::span::Span;
use crate::token::{
    lemma_group_model, tokens_model, Delimiter, Ident, IdentModel, LitStr, LitStrModel, Token,
    TokenModel,
};
use crate::value::{Expr, ExprModel, Object, ObjectModel, Path, PathModel, Value, ValueModel};

verus! {

/// What a variant of an enum carries.
#[derive(Clone, Copy, Debug, PartialEq, Eq, Structural)]
pub enum Fields {
    /// Nothing: `Name`.
    Unit,
    /// Named fields: `Name { .. }`.
    Named,
    /// Unnamed fields: `Name(..)`.
    Unnamed,
}

/// An attribute `#[path tokens]`.
#[derive(Clone, Debug, PartialEq, Eq)]
pub struct Attribute {
    pub path: Path,
    pub tokens: Vec<Token>,
    pub span: Span,
}

/// What an [`Attribute`] stands for in contracts.
pub struct AttributeModel {
    pub path: PathModel,
    pub tokens: Seq<TokenModel>,
    pub span: Span,
}

impl View for Attribute {
    type V = AttributeModel;

    open spec fn view(&self) -> AttributeModel {
        AttributeModel { path: self.path@, tokens: tokens_model(self.tokens@), span: self.span }
    }
}

/// One variant of an enum.
#[derive(Clone, Debug, PartialEq, Eq)]
pub struct Variant {
    pub attrs: Vec<Attribute>,
    pub ident: Ident,
    pub fields: Fields,
    pub span: Span,
}

/// What a [`Variant`] stands for in contracts.
pub struct VariantModel {
    pub attrs: Seq<AttributeModel>,
    pub ident: IdentModel,
    pub fields: Fields,
    pub span: Span,
}

impl View for Variant {
    type V = VariantModel;

    open spec fn view(&self) -> VariantModel {
        VariantModel {
            attrs: self.attrs@.map_values(|attr: Attribute| attr@),
            ident: self.ident@,
            fields: self.fields,
            span: self.span,
        }
    }
}

/// The definition of an enum: what its schema depends on, and the tokens of
/// the whole definition as it was written.
#[derive(Clone, Debug, PartialEq, Eq)]
pub struct ItemEnum {
    /// The place of the word `enum`.
    pub enum_token: Span,
    pub ident: Ident,
    pub variants: Vec<Variant>,
    pub tokens: Vec<Token>,
}

/// What an [`ItemEnum`] stands for in contracts.
pub struct ItemEnumModel {
    pub enum_token: Span,
    pub ident: IdentModel,
    pub variants: Seq<VariantModel>,
    pub tokens: Seq<TokenModel>,
}

impl View for ItemEnum {
    type V = ItemEnumModel;

    open spec fn view(&self) -> ItemEnumModel {
        ItemEnumModel {
            enum_token: self.enum_token,
            ident: self.ident@,
            variants: self.variants@.map_values(|variant: Variant| variant@),
            tokens: tokens_model(self.tokens@),
        }
    }
}

/// One argument of an attribute.
#[derive(Clone, Debug, PartialEq, Eq)]
pub enum AttrArg {
    /// `name = value`, with the tokens written for the value and the place
    /// of the `=`.
    NameValue { name: Ident, value: Vec<Token>, eq_span: Span },
    /// Any other argument, as it was written.
    Other { tokens: Vec<Token> },
}

/// What an [`AttrArg`] stands for in contracts.
pub enum AttrArgModel {
    NameValue { name: IdentModel, value: Seq<TokenModel>, eq_span: Span },
    Other { tokens: Seq<TokenModel> },
}

impl View for AttrArg {
    type V = AttrArgModel;

    open spec fn view(&self) -> AttrArgModel {
        match self {
            AttrArg::NameValue { name, value, eq_span } => AttrArgModel::NameValue {
                name: name@,
                value: tokens_model(value@),
                eq_span: *eq_span,
            },
            AttrArg::Other { tokens } => AttrArgModel::Other { tokens: tokens_model(tokens@) },
        }
    }
}

/// The arguments of an attribute, written in parentheses and separated by
/// commas.
#[derive(Clone, Debug, PartialEq, Eq)]
pub struct AttrArgs {
    pub args: Vec<AttrArg>,
}

/// The models of a sequence of arguments, in order.
pub open spec fn args_model(args: Seq<AttrArg>) -> Seq<AttrArgModel> {
    args.map_values(|arg: AttrArg| arg@)
}

impl View for AttrArgs {
    type V = Seq<AttrArgModel>;

    open spec fn view(&self) -> Seq<AttrArgModel> {
        args_model(self.args@)
    }
}

/// The argument that the tokens between two commas are: `name = value` where
/// they start with an identifier and a `=` that stands alone, and otherwise
/// an argument that is kept as written.
pub open spec fn read_arg(part: Seq<TokenModel>) -> AttrArgModel {
    if part.len() >= 2 && part[0] is Ident && part[1].is_lone_punct('=') {
        AttrArgModel::NameValue {
            name: part[0]->Ident_0,
            value: part.skip(2),
            eq_span: part[1].span(),
        }
    } else {
        AttrArgModel::Other { tokens: part }
    }
}

/// What reading arguments from position `from` on gives, after `args`. A
/// comma may follow the last argument; a comma where an argument should
/// start is refused.
pub open spec fn parse_args(tokens: Seq<TokenModel>, from: int, args: Seq<AttrArgModel>) -> Result<
    Seq<AttrArgModel>,
    DiagnosticModel,
>
    decreases tokens.len() - from,
{
    if from < 0 || from >= tokens.len() {
        Ok(args)
    } else {
        let end = next_comma(tokens, from);
        if end == from {
            Err(syntax_error(tokens[from].span(), "argument"@))
        } else if from < end < tokens.len() {
            parse_args(tokens, end + 1, args.push(read_arg(tokens.subrange(from, end))))
        } else {
            Ok(args.push(read_arg(tokens.subrange(from, end))))
        }
    }
}

/// Whether the tokens are a single group in parentheses.
pub open spec fn is_parenthesized(tokens: Seq<TokenModel>) -> bool {
    &&& tokens.len() == 1
    &&& tokens[0] matches TokenModel::Group { delimiter, .. } && delimiter
        == Delimiter::Parenthesis
}

/// What reading the arguments of an attribute gives. The tokens of the
/// attribute must be one group in parentheses; anything else is refused,
/// pointing at the first token, or at `span` where there is none.
pub open spec fn parse_attr_args(tokens: Seq<TokenModel>, span: Span) -> Result<
    Seq<AttrArgModel>,
    DiagnosticModel,
> {
    if is_parenthesized(tokens) {
        parse_args(tokens[0]->Group_tokens, 0, Seq::empty())
    } else if tokens.len() == 0 {
        Err(syntax_error(span, "("@))
    } else {
        Err(syntax_error(tokens[0].span(), "("@))
    }
}

/// The new name that an argument gives, if it is `rename = ..`: the value
/// must be one string literal; any other value is a `TypeMismatch` that
/// points at the value, or at the `=` where nothing follows it.
pub open spec fn rename_of(arg: AttrArgModel) -> Option<Result<LitStrModel, DiagnosticModel>> {
    match arg {
        AttrArgModel::NameValue { name, value, eq_span } => if name.name == "rename"@ {
            if value.len() == 1 && value[0] is Str {
                Some(Ok(value[0]->Str_0))
            } else if value.len() == 0 {
                Some(Err(type_mismatch(eq_span, "string literal"@)))
            } else {
                Some(Err(type_mismatch(tokens_span(value), "string literal"@)))
            }
        } else {
            None
        },
        AttrArgModel::Other { .. } => None,
    }
}

/// The new name that the arguments from position `from` on give, where
/// `found` was given before: the first one given counts, and every `rename`
/// is held to the shape of its value.
pub open spec fn args_rename(args: Seq<AttrArgModel>, from: int, found: Option<LitStrModel>) -> Result<
    Option<LitStrModel>,
    DiagnosticModel,
>
    decreases args.len() - from,
{
    if from < 0 || from >= args.len() {
        Ok(found)
    } else {
        match rename_of(args[from]) {
            Some(Err(error)) => Err(error),
            Some(Ok(name)) => args_rename(
                args,
                from + 1,
                if found is Some {
                    found
                } else {
                    Some(name)
                },
            ),
            None => args_rename(args, from + 1, found),
        }
    }
}

impl PathModel {
    /// Whether the path is the lone identifier `name`.
    pub open spec fn is_ident(self, name: Seq<char>) -> bool {
        !self.leading_colon && self.segments.len() == 1 && self.segments[0].name == name
    }
}

/// Whether an attribute of this name may rename a variant.
pub open spec fn is_rename_tag(path: PathModel) -> bool {
    path.is_ident("serde"@) || path.is_ident("tagged"@)
}

/// The new name that the attributes from position `from` on give, where
/// `found` was given before. Only attributes that may rename are read.
pub open spec fn attrs_rename(
    attrs: Seq<AttributeModel>,
    from: int,
    found: Option<LitStrModel>,
) -> Result<Option<LitStrModel>, DiagnosticModel>
    decreases attrs.len() - from,
{
    if from < 0 || from >= attrs.len() {
        Ok(found)
    } else if is_rename_tag(attrs[from].path) {
        match parse_attr_args(attrs[from].tokens, attrs[from].span) {
            Err(error) => Err(error),
            Ok(args) => match args_rename(args, 0, found) {
                Err(error) => Err(error),
                Ok(next) => attrs_rename(attrs, from + 1, next),
            },
        }
    } else {
        attrs_rename(attrs, from + 1, found)
    }
}

/// The failure that reports a variant with fields.
pub open spec fn unsupported_variant(variant: VariantModel) -> DiagnosticModel {
    DiagnosticModel {
        kind: ErrorKind::UnsupportedVariantShape,
        span: variant.span,
        name: variant.ident.name,
    }
}

/// The name under which a variant appears in the schema: the one that a
/// `rename` gives it, or else its own identifier. A variant with fields has
/// none.
pub open spec fn variant_name(variant: VariantModel) -> Result<LitStrModel, DiagnosticModel> {
    if variant.fields != Fields::Unit {
        Err(unsupported_variant(variant))
    } else {
        match attrs_rename(variant.attrs, 0, None) {
            Err(error) => Err(error),
            Ok(Some(name)) => Ok(name),
            Ok(None) => Ok(LitStrModel { value: variant.ident.name, span: variant.ident.span }),
        }
    }
}

/// The position of the first variant that has no name, or the number of
/// variants if all have one.
pub open spec fn first_unnamed(variants: Seq<VariantModel>) -> int
    decreases variants.len(),
{
    if variants.len() == 0 {
        0
    } else if variant_name(variants[0]) is Err {
        0
    } else {
        1 + first_unnamed(variants.drop_first())
    }
}

/// `first_unnamed` is the first position at which a variant has no name.
pub proof fn lemma_first_unnamed(variants: Seq<VariantModel>, at: int)
    requires
        0 <= at <= variants.len(),
        forall|j: int| 0 <= j < at ==> variant_name(variants[j]) is Ok,
        at < variants.len() ==> variant_name(variants[at]) is Err,
    ensures
        first_unnamed(variants) == at,
    decreases at,
{
    if at > 0 {
        let rest = variants.drop_first();
        assert forall|j: int| 0 <= j < at - 1 implies variant_name(rest[j]) is Ok by {
            assert(rest[j] == variants[j + 1]);
        }
        lemma_first_unnamed(rest, at - 1);
    }
}

/// The names of the variants, one for each and in the order of the
/// variants; or the failure of the first variant that has none.
pub open spec fn variant_names(variants: Seq<VariantModel>) -> Result<
    Seq<LitStrModel>,
    DiagnosticModel,
> {
    let bad = first_unnamed(variants);
    if bad < variants.len() {
        Err(variant_name(variants[bad])->Err_0)
    } else {
        Ok(Seq::new(variants.len(), |i: int| variant_name(variants[i])->Ok_0))
    }
}

/// The models of a sequence of names, in order.
pub open spec fn names_model(names: Seq<LitStr>) -> Seq<LitStrModel> {
    names.map_values(|name: LitStr| name@)
}

/// The model of the outcome of looking for a new name.
pub open spec fn view_found(outcome: Result<Option<LitStr>, Diagnostic>) -> Result<
    Option<LitStrModel>,
    DiagnosticModel,
> {
    match outcome {
        Ok(found) => Ok(view_option(found)),
        Err(error) => Err(error@),
    }
}

/// The model of the outcome of naming the variants.
pub open spec fn view_names(outcome: Result<Vec<LitStr>, Diagnostic>) -> Result<
    Seq<LitStrModel>,
    DiagnosticModel,
> {
    match outcome {
        Ok(names) => Ok(names_model(names@)),
        Err(error) => Err(error@),
    }
}

impl Path {
    /// Whether the path is the lone identifier `name`.
    pub fn is_ident(&self, name: &str) -> (same: bool)
        ensures
            same == self@.is_ident(name@),
    {
        !self.leading_colon && self.segments.len() == 1 && self.segments[0].is(name)
    }
}

/// The argument that `tokens[from..end]` are.
fn read_argument(tokens: &Vec<Token>, from: usize, end: usize) -> (arg: AttrArg)
    requires
        from < end <= tokens@.len(),
    ensures
        arg@ == read_arg(tokens_model(tokens@).subrange(from as int, end as int)),
{
    let ghost part = tokens_model(tokens@).subrange(from as int, end as int);
    assert(part[0] == tokens@[from as int]@);
    if end - from >= 2 {
        assert(part[1] == tokens@[from + 1]@);
        match &tokens[from] {
            Token::Ident(name) => {
                if tokens[from + 1].is_lone_punct('=') {
                    assert(part.skip(2) =~= tokens_model(tokens@).subrange(
                        from + 2,
                        end as int,
                    ));
                    return AttrArg::NameValue {
                        name: name.duplicate(),
                        value: duplicate_range(tokens, from + 2, end),
                        eq_span: tokens[from + 1].span(),
                    };
                }
            },
            _ => {},
        }
    }
    AttrArg::Other { tokens: duplicate_range(tokens, from, end) }
}

/// Reads the arguments that stand between the parentheses.
fn parse_argument_list(tokens: &Vec<Token>) -> (res: Result<AttrArgs, Diagnostic>)
    ensures
        view_result(res) == parse_args(tokens_model(tokens@), 0, Seq::empty()),
{
    let ghost model = tokens_model(tokens@);
    let mut args: Vec<AttrArg> = Vec::new();
    let mut from: usize = 0;
    assert(args_model(args@) =~= Seq::empty());
    while from < tokens.len()
        invariant
            model == tokens_model(tokens@),
            from <= tokens@.len(),
            parse_args(model, from as int, args_model(args@)) == parse_args(
                model,
                0,
                Seq::empty(),
            ),
        decreases tokens@.len() - from,
    {
        let end = find_comma(tokens, from);
        proof {
            lemma_next_comma(model, from as int);
        }
        if end == from {
            return Err(Diagnostic::new(ErrorKind::Syntax, tokens[from].span(), "argument"));
        }
        let arg = read_argument(tokens, from, end);
        let ghost before = args_model(args@);
        args.push(arg);
        assert(args_model(args@) =~= before.push(arg@));
        from = if end < tokens.len() {
            end + 1
        } else {
            end
        };
    }
    Ok(AttrArgs { args })
}

impl AttrArgs {
    /// Reads the arguments of an attribute from its tokens, which must be one
    /// group in parentheses. A failure that comes from tokens of another
    /// kind points at the first of them, or at `span` where there is none.
    pub fn parse(tokens: &Vec<Token>, span: Span) -> (res: Result<AttrArgs, Diagnostic>)
        ensures
            view_result(res) == parse_attr_args(tokens_model(tokens@), span),
    {
        if tokens.len() == 0 {
            return Err(Diagnostic::new(ErrorKind::Syntax, span, "("));
        }
        if tokens.len() == 1 {
            match &tokens[0] {
                Token::Group { delimiter, tokens: inner, span: group_span } => {
                    if *delimiter == Delimiter::Parenthesis {
                        proof {
                            lemma_group_model(*delimiter, *inner, *group_span);
                        }
                        return parse_argument_list(inner);
                    }
                },
                _ => {},
            }
        }
        Err(Diagnostic::new(ErrorKind::Syntax, tokens[0].span(), "("))
    }
}

/// The new name that an argument gives, if it is `rename = ..`.
fn rename_of_argument(arg: &AttrArg) -> (res: Option<Result<LitStr, Diagnostic>>)
    ensures
        match res {
            Some(outcome) => rename_of(arg@) == Some(view_result(outcome)),
            None => rename_of(arg@) is None,
        },
{
    match arg {
        AttrArg::NameValue { name, value, eq_span } => {
            if !name.is("rename") {
                return None;
            }
            if value.len() == 1 {
                match &value[0] {
                    Token::Str(lit) => {
                        return Some(Ok(lit.duplicate()));
                    },
                    _ => {},
                }
            }
            let span = if value.len() == 0 {
                *eq_span
            } else {
                assert(tokens_model(value@).subrange(0, value@.len() as int) =~= tokens_model(
                    value@,
                ));
                range_span(value, 0, value.len())
            };
            Some(Err(Diagnostic::new(ErrorKind::TypeMismatch, span, "string literal")))
        },
        AttrArg::Other { .. } => None,
    }
}

/// The new name that the arguments give, where `found` was given before.
fn rename_in_args(args: &Vec<AttrArg>, found: Option<LitStr>) -> (res: Result<
    Option<LitStr>,
    Diagnostic,
>)
    ensures
        view_found(res) == args_rename(args_model(args@), 0, view_option(found)),
{
    let ghost model = args_model(args@);
    let mut current = found;
    let mut at: usize = 0;
    while at < args.len()
        invariant
            model == args_model(args@),
            at <= args@.len(),
            args_rename(model, at as int, view_option(current)) == args_rename(
                model,
                0,
                view_option(found),
            ),
        decreases args@.len() - at,
    {
        assert(model[at as int] == args@[at as int]@);
        match rename_of_argument(&args[at]) {
            Some(Err(error)) => {
                return Err(error);
            },
            Some(Ok(name)) => {
                current = match current {
                    Some(first) => Some(first),
                    None => Some(name),
                };
            },
            None => {},
        }
        at += 1;
    }
    Ok(current)
}

/// The new name that the attributes of a variant give.
fn rename_in_attrs(attrs: &Vec<Attribute>) -> (res: Result<Option<LitStr>, Diagnostic>)
    ensures
        view_found(res) == attrs_rename(attrs@.map_values(|attr: Attribute| attr@), 0, None),
{
    let ghost model = attrs@.map_values(|attr: Attribute| attr@);
    let mut found: Option<LitStr> = None;
    let mut at: usize = 0;
    while at < attrs.len()
        invariant
            model == attrs@.map_values(|attr: Attribute| attr@),
            at <= attrs@.len(),
            attrs_rename(model, at as int, view_option(found)) == attrs_rename(model, 0, None),
        decreases attrs@.len() - at,
    {
        assert(model[at as int] == attrs@[at as int]@);
        let attr = &attrs[at];
        if attr.path.is_ident("serde") || attr.path.is_ident("tagged") {
            match AttrArgs::parse(&attr.tokens, attr.span) {
                Err(error) => {
                    return Err(error);
                },
                Ok(args) => match rename_in_args(&args.args, found) {
                    Err(error) => {
                        return Err(error);
                    },
                    Ok(next) => {
                        found = next;
                    },
                },
            }
        }
        at += 1;
    }
    Ok(found)
}

/// The name under which `variant` appears in the schema: the one that a
/// `rename` gives it, or else its own identifier. A variant with fields is
/// refused with `UnsupportedVariantShape`.
pub fn resolve_variant_name(variant: &Variant) -> (res: Result<LitStr, Diagnostic>)
    ensures
        view_result(res) == variant_name(variant@),
{
    match variant.fields {
        Fields::Unit => {},
        _ => {
            return Err(
                Diagnostic {
                    kind: ErrorKind::UnsupportedVariantShape,
                    span: variant.span,
                    name: variant.ident.name.clone(),
                },
            );
        },
    }
    match rename_in_attrs(&variant.attrs) {
        Err(error) => Err(error),
        Ok(Some(name)) => Ok(name),
        Ok(None) => Ok(LitStr { value: variant.ident.name.clone(), span: variant.ident.span }),
    }
}

/// The names of the variants, one for each and in the order of the
/// variants; or the failure of the first variant that has none.
pub fn resolve_variant_names(variants: &Vec<Variant>) -> (res: Result<Vec<LitStr>, Diagnostic>)
    ensures
        view_names(res) == variant_names(variants@.map_values(|variant: Variant| variant@)),
{
    let ghost model = variants@.map_values(|variant: Variant| variant@);
    let mut names: Vec<LitStr> = Vec::new();
    let mut at: usize = 0;
    while at < variants.len()
        invariant
            model == variants@.map_values(|variant: Variant| variant@),
            at <= variants@.len(),
            names@.len() == at,
            forall|j: int| 0 <= j < at ==> variant_name(model[j]) == Ok::<
                LitStrModel,
                DiagnosticModel,
            >(#[trigger] names@[j]@),
        decreases variants@.len() - at,
    {
        assert(model[at as int] == variants@[at as int]@);
        match resolve_variant_name(&variants[at]) {
            Ok(name) => {
                names.push(name);
            },
            Err(error) => {
                proof {
                    assert forall|j: int| 0 <= j < at implies variant_name(model[j]) is Ok by {
                        assert(variant_name(model[j]) == Ok::<LitStrModel, DiagnosticModel>(
                            names@[j]@,
                        ));
                    }
                    lemma_first_unnamed(model, at as int);
                }
                return Err(error);
            },
        }
        at += 1;
    }
    proof {
        assert forall|j: int| 0 <= j < at implies variant_name(model[j]) is Ok by {
            assert(variant_name(model[j]) == Ok::<LitStrModel, DiagnosticModel>(names@[j]@));
        }
        lemma_first_unnamed(model, at as int);
        assert(names_model(names@) =~= Seq::new(
            model.len(),
            |i: int| variant_name(model[i])->Ok_0,
        ));
    }
    Ok(names)
}

/// The failure that reports a key that the generator derives by itself.
pub open spec fn reserved_key(span: Span, name: Seq<char>) -> DiagnosticModel {
    DiagnosticModel { kind: ErrorKind::ReservedKey, span, name }
}

/// The annotation of an enum, made ready for its schema: where no `type` is
/// given, `type: String` is added at the end, with the value pointing at the
/// word `enum`; and a `format` is refused, pointing at its value, because the
/// format of an enum is derived from its variants.
pub open spec fn prepared_attributes(attribs: ObjectModel, enum_token: Span) -> Result<
    ObjectModel,
    DiagnosticModel,
> {
    let typed = if attribs.contains_key("type"@) {
        attribs
    } else {
        attribs.push(
            IdentModel { name: "type"@, span: attribs.span },
            ValueModel::Identifier(IdentModel { name: "String"@, span: enum_token }),
        )
    };
    if typed.contains_key("format"@) {
        Err(reserved_key(typed.get("format"@).span(), "format"@))
    } else {
        Ok(typed)
    }
}

/// Makes the annotation of an enum ready for its schema.
pub fn prepare_enum_attributes(attribs: Object, enum_token: Span) -> (res: Result<
    Object,
    Diagnostic,
>)
    ensures
        view_result(res) == prepared_attributes(attribs@, enum_token),
{
    let mut attribs = attribs;
    if !attribs.contains_key("type") {
        let key = Ident::new("type", attribs.span());
        let value = Value::Identifier(Ident::new("String", enum_token));
        match attribs.insert(key, value) {
            Ok(()) => {},
            Err(error) => {
                return Err(error);
            },
        }
    }
    let reserved = match attribs.get("format") {
        Some(value) => Some(value.span()),
        None => None,
    };
    match reserved {
        Some(span) => Err(Diagnostic::new(ErrorKind::ReservedKey, span, "format")),
        None => Ok(attribs),
    }
}

/// The schema of an enum: the enum's name, the code of the base schema, and
/// the names of the variants, which are the strings that the schema allows.
#[derive(Clone, Debug, PartialEq, Eq)]
pub struct EnumSchema {
    pub name: Ident,
    pub schema: Expr,
    pub variants: Vec<LitStr>,
}

/// What an [`EnumSchema`] stands for in contracts.
pub struct EnumSchemaModel {
    pub name: IdentModel,
    pub schema: ExprModel,
    pub variants: Seq<LitStrModel>,
}

impl View for EnumSchema {
    type V = EnumSchemaModel;

    open spec fn view(&self) -> EnumSchemaModel {
        EnumSchemaModel {
            name: self.name@,
            schema: self.schema@,
            variants: names_model(self.variants@),
        }
    }
}

/// The schema of an enum, given what building the base schema came to: a
/// failure there is handed on, then the variants are named, and the first
/// variant that has no name decides the failure.
pub open spec fn enum_schema(
    item: ItemEnumModel,
    schema: Result<ExprModel, DiagnosticModel>,
) -> Result<EnumSchemaModel, DiagnosticModel> {
    match schema {
        Err(error) => Err(error),
        Ok(code) => match variant_names(item.variants) {
            Err(error) => Err(error),
            Ok(names) => Ok(EnumSchemaModel { name: item.ident, schema: code, variants: names }),
        },
    }
}

/// Finishes the schema of an enum once the base schema has been built, or
/// has failed to build.
pub fn finish_enum(enum_ty: &ItemEnum, schema: Result<Expr, Diagnostic>) -> (res: Result<
    EnumSchema,
    Diagnostic,
>)
    ensures
        view_result(res) == enum_schema(enum_ty@, view_result(schema)),
{
    let code = match schema {
        Ok(code) => code,
        Err(error) => {
            return Err(error);
        },
    };
    match resolve_variant_names(&enum_ty.variants) {
        Err(error) => Err(error),
        Ok(variants) => Ok(EnumSchema { name: enum_ty.ident.duplicate(), schema: code, variants }),
    }
}

/// The names, as string literals with commas between them.
pub open spec fn name_list(names: Seq<LitStrModel>, span: Span) -> Seq<TokenModel>
    decreases names.len(),
{
    if names.len() == 0 {
        Seq::empty()
    } else if names.len() == 1 {
        seq![TokenModel::Str(names[0])]
    } else {
        name_list(names.drop_last(), span) + seq![punct(',', span), TokenModel::Str(names.last())]
    }
}

impl EnumSchemaModel {
    /// The code of the format of the schema:
    /// `&::proxmox::api::schema::ApiStringFormat::Enum(&[..])` around the
    /// names of the variants.
    pub open spec fn format(self) -> Seq<TokenModel> {
        let span = self.name.span;
        seq![joint('&', span)] + api_path("schema"@, "ApiStringFormat"@, span) + path_separator(
            span,
        ) + seq![
            word("Enum"@, span),
            group(
                Delimiter::Parenthesis,
                seq![
                    punct('&', span),
                    group(Delimiter::Bracket, name_list(self.variants, span), span),
                ],
                span,
            ),
        ]
    }

    /// The code of the constant that holds the schema:
    /// `pub const API_SCHEMA: &'static ::proxmox::api::schema::Schema =
    /// &<base schema>.format(<format>).schema();`
    pub open spec fn constant(self) -> Seq<TokenModel> {
        let span = self.name.span;
        seq![
            word("pub"@, span),
            word("const"@, span),
            word("API_SCHEMA"@, span),
            punct(':', span),
            joint('&', span),
            joint('\'', span),
            word("static"@, span),
        ] + api_path("schema"@, "Schema"@, span) + seq![punct('=', span), punct('&', span)]
            + self.schema.tokens + seq![
            punct('.', span),
            word("format"@, span),
            group(Delimiter::Parenthesis, self.format(), span),
            punct('.', span),
            word("schema"@, span),
            group(Delimiter::Parenthesis, Seq::empty(), span),
            punct(';', span),
        ]
    }

    /// The code that attaches the schema to the enum: `impl <name> { .. }`
    /// around the constant. What is written here points at the name of the
    /// enum; the base schema and the names of the variants keep their places.
    pub open spec fn quote(self) -> Seq<TokenModel> {
        let span = self.name.span;
        seq![
            word("impl"@, span),
            TokenModel::Ident(self.name),
            group(Delimiter::Brace, self.constant(), span),
        ]
    }
}

/// Writes the names as string literals with commas between them.
fn quote_name_list(names: &Vec<LitStr>, span: Span) -> (tokens: Vec<Token>)
    ensures
        tokens_model(tokens@) == name_list(names_model(names@), span),
{
    let ghost model = names_model(names@);
    let mut tokens = no_tokens();
    let mut at: usize = 0;
    assert(model.take(0) =~= Seq::empty());
    while at < names.len()
        invariant
            model == names_model(names@),
            at <= names@.len(),
            tokens_model(tokens@) == name_list(model.take(at as int), span),
        decreases names@.len() - at,
    {
        let ghost before = tokens_model(tokens@);
        if at > 0 {
            push_punct(&mut tokens, ',', span);
        }
        push_token(&mut tokens, Token::Str(names[at].duplicate()));
        proof {
            assert(model.take(at + 1).drop_last() =~= model.take(at as int));
            assert(model.take(at + 1).last() == names@[at as int]@);
            if at > 0 {
                assert(tokens_model(tokens@) =~= before + seq![
                    punct(',', span),
                    TokenModel::Str(names@[at as int]@),
                ]);
            } else {
                assert(tokens_model(tokens@) =~= seq![TokenModel::Str(names@[at as int]@)]);
            }
        }
        at += 1;
    }
    assert(model.take(at as int) =~= model);
    tokens
}

impl EnumSchema {
    fn quote_format(&self) -> (tokens: Vec<Token>)
        ensures
            tokens_model(tokens@) == self@.format(),
    {
        let span = self.name.span;
        let list = quote_name_list(&self.variants, span);
        let mut slice = no_tokens();
        push_punct(&mut slice, '&', span);
        push_group(&mut slice, Delimiter::Bracket, list, span);
        assert(tokens_model(slice@) =~= seq![
            punct('&', span),
            group(Delimiter::Bracket, name_list(self@.variants, span), span),
        ]);
        let mut tokens = no_tokens();
        push_joint(&mut tokens, '&', span);
        push_api_path(&mut tokens, "schema", "ApiStringFormat", span);
        push_separator(&mut tokens, span);
        push_word(&mut tokens, "Enum", span);
        push_group(&mut tokens, Delimiter::Parenthesis, slice, span);
        assert(tokens_model(tokens@) =~= self@.format());
        tokens
    }

    fn quote_constant(&self) -> (tokens: Vec<Token>)
        ensures
            tokens_model(tokens@) == self@.constant(),
    {
        let span = self.name.span;
        let format = self.quote_format();
        let mut tokens = no_tokens();
        push_word(&mut tokens, "pub", span);
        push_word(&mut tokens, "const", span);
        push_word(&mut tokens, "API_SCHEMA", span);
        push_punct(&mut tokens, ':', span);
        push_joint(&mut tokens, '&', span);
        push_joint(&mut tokens, '\'', span);
        push_word(&mut tokens, "static", span);
        push_api_path(&mut tokens, "schema", "Schema", span);
        push_punct(&mut tokens, '=', span);
        push_punct(&mut tokens, '&', span);
        push_all(&mut tokens, &self.schema.tokens);
        push_punct(&mut tokens, '.', span);
        push_word(&mut tokens, "format", span);
        push_group(&mut tokens, Delimiter::Parenthesis, format, span);
        push_punct(&mut tokens, '.', span);
        push_word(&mut tokens, "schema", span);
        push_group(&mut tokens, Delimiter::Parenthesis, no_tokens(), span);
        push_punct(&mut tokens, ';', span);
        assert(tokens_model(tokens@) =~= self@.constant());
        tokens
    }

    /// Writes the code that attaches the schema to the enum.
    pub fn quote(&self) -> (tokens: Vec<Token>)
        ensures
            tokens_model(tokens@) == self@.quote(),
    {
        let span = self.name.span;
        let constant = self.quote_constant();
        let mut tokens = no_tokens();
        push_word(&mut tokens, "impl", span);
        push_token(&mut tokens, Token::Ident(self.name.duplicate()));
        push_group(&mut tokens, Delimiter::Brace, constant, span);
        assert(tokens_model(tokens@) =~= self@.quote());
        tokens
    }
}

/// The model of the outcome of writing code.
pub open spec fn view_tokens(outcome: Result<Vec<Token>, Diagnostic>) -> Result<
    Seq<TokenModel>,
    DiagnosticModel,
> {
    match outcome {
        Ok(tokens) => Ok(tokens_model(tokens@)),
        Err(error) => Err(error@),
    }
}

/// The code generated for an enum, given what building the base schema came
/// to: the definition of the enum as it was written, followed by the code
/// that attaches the schema to it.
pub open spec fn enum_code(
    item: ItemEnumModel,
    schema: Result<ExprModel, DiagnosticModel>,
) -> Result<Seq<TokenModel>, DiagnosticModel> {
    match enum_schema(item, schema) {
        Err(error) => Err(error),
        Ok(found) => Ok(item.tokens + found.quote()),
    }
}

/// Writes the code generated for an enum once the base schema has been
/// built, or has failed to build.
pub fn emit_enum(enum_ty: &ItemEnum, schema: Result<Expr, Diagnostic>) -> (res: Result<
    Vec<Token>,
    Diagnostic,
>)
    ensures
        view_tokens(res) == enum_code(enum_ty@, view_result(schema)),
{
    match finish_enum(enum_ty, schema) {
        Err(error) => Err(error),
        Ok(found) => {
            let mut tokens = no_tokens();
            push_all(&mut tokens, &enum_ty.tokens);
            push_all(&mut tokens, &found.quote());
            assert(tokens_model(tokens@) =~= enum_ty@.tokens + found@.quote());
            Ok(tokens)
        },
    }
}

/// Enums, provided they are simple enums, get a schema of a string that is
/// restricted to the names of their variants. The code generated is the
/// definition of the enum, unchanged, and after it the constant `API_SCHEMA`
/// on the enum.
///
/// The annotation is made ready first: a missing `type` is filled in and a
/// `format` is refused. Then `to_schema` builds the code of the base schema
/// from the annotation; whatever it returns decides how the code is
/// finished. The variants are looked at only after the base schema was
/// built.
pub fn handle_enum<F: FnOnce(Object) -> Result<Expr, Diagnostic>>(
    attribs: Object,
    enum_ty: &ItemEnum,
    to_schema: F,
) -> (res: Result<Vec<Token>, Diagnostic>)
    requires
        forall|prepared: Object|
            prepared_attributes(attribs@, enum_ty@.enum_token) == Ok::<
                ObjectModel,
                DiagnosticModel,
            >(prepared@) ==> call_requires(to_schema, (prepared,)),
    ensures
        match prepared_attributes(attribs@, enum_ty@.enum_token) {
            Err(error) => view_tokens(res) == Err::<Seq<TokenModel>, DiagnosticModel>(error),
            Ok(prepared) => exists|object: Object, schema: Result<Expr, Diagnostic>|
                #![trigger call_ensures(to_schema, (object,), schema)]
                {
                    &&& object@ == prepared
                    &&& call_ensures(to_schema, (object,), schema)
                    &&& view_tokens(res) == enum_code(enum_ty@, view_result(schema))
                },
        },
{
    let prepared = match prepare_enum_attributes(attribs, enum_ty.enum_token) {
        Ok(prepared) => prepared,
        Err(error) => {
            return Err(error);
        },
    };
    let ghost object = prepared;
    let schema = to_schema(prepared);
    let ghost outcome = schema;
    let res = emit_enum(enum_ty, schema);
    assert(call_ensures(to_schema, (object,), outcome));
    res
}

} // verus!
