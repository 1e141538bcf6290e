//! Type and parameter definitions built from annotation objects.

use vstd::prelude::*;
use crate::coerce::type_mismatch;
use crate::quote::{
    api_path, group, joint, no_tokens, punct, push_all, push_api_path, push_group, push_joint,
    push_punct, push_separator, push_token, push_word, word,
};
use crate::error::{view_option, view_result, Diagnostic, DiagnosticModel, ErrorKind};
use crate::span::Span;
use crate::coerce::path_separator;
use crate::token::{
    tokens_model, Delimiter, Ident, IdentModel, LitStr, LitStrModel, Token, TokenModel,
};
use crate::value::{
    entries_model, index_of_key, lemma_index_of_key_range, lemma_lookup_without, unique_keys, Entry, EntryModel, Expr,
    ExprModel, Object, ObjectModel, Path, PathModel, Value, ValueModel,
};

verus! {

/// How a value of a type is read from command line text.
#[derive(Clone, Debug, PartialEq, Eq)]
pub enum CliMode {
    /// The type cannot be read from the command line.
    Disabled,
    /// The type's own command line parser is used.
    ParseCli,
    /// The type is read with its `FromStr` implementation.
    FromStr,
    /// The given function is used.
    Function(Expr),
}

/// What a [`CliMode`] stands for in contracts.
pub enum CliModeModel {
    Disabled,
    ParseCli,
    FromStr,
    Function(ExprModel),
}

impl View for CliMode {
    type V = CliModeModel;

    open spec fn view(&self) -> CliModeModel {
        match self {
            CliMode::Disabled => CliModeModel::Disabled,
            CliMode::ParseCli => CliModeModel::ParseCli,
            CliMode::FromStr => CliModeModel::FromStr,
            CliMode::Function(function) => CliModeModel::Function(function@),
        }
    }
}

impl Default for CliMode {
    /// Unless told otherwise a type uses its own command line parser.
    fn default() -> (mode: CliMode)
        ensures
            mode@ == CliModeModel::ParseCli,
    {
        CliMode::ParseCli
    }
}

/// The failure that reports a `cli` value of no recognized shape.
pub open spec fn invalid_cli_mode(span: Span) -> DiagnosticModel {
    DiagnosticModel { kind: ErrorKind::InvalidCliMode, span, name: "cli"@ }
}

/// The mode that a `cli` value asks for: the identifier `FromStr` asks for
/// `FromStr`, `true` for `ParseCli`, `false` for `Disabled`, any other code
/// names the function to use, and an object is refused.
pub open spec fn resolve_cli_mode(value: ValueModel) -> Result<CliModeModel, DiagnosticModel> {
    if value.is_ident("FromStr"@) {
        Ok(CliModeModel::FromStr)
    } else {
        match value {
            ValueModel::BoolLiteral(lit) => Ok(
                if lit.value {
                    CliModeModel::ParseCli
                } else {
                    CliModeModel::Disabled
                },
            ),
            ValueModel::Object(object) => Err(invalid_cli_mode(object.span)),
            _ => Ok(CliModeModel::Function(value.code())),
        }
    }
}

/// The code `<name as ::proxmox::api::cli::<parser>>::parse_cli`, which names
/// the command line parser that a trait gives to the type `name`.
pub open spec fn trait_parser(name: IdentModel, parser: Seq<char>) -> Seq<TokenModel> {
    seq![punct('<', name.span), TokenModel::Ident(name), word("as"@, name.span)] + api_path(
        "cli"@,
        parser,
        name.span,
    ) + seq![joint('>', name.span)] + path_separator(name.span) + seq![
        word("parse_cli"@, name.span),
    ]
}

impl CliModeModel {
    /// The code that names the command line parser of the type `name`:
    /// `None` where there is none, and else `Some(..)` of the parser of the
    /// trait `ParseCli` or `ParseCliFromStr`, or of the function given.
    /// What is written here points at `name`; the function keeps its places.
    pub open spec fn quote(self, name: IdentModel) -> Seq<TokenModel> {
        match self {
            CliModeModel::Disabled => seq![word("None"@, name.span)],
            CliModeModel::ParseCli => seq![
                word("Some"@, name.span),
                group(Delimiter::Parenthesis, trait_parser(name, "ParseCli"@), name.span),
            ],
            CliModeModel::FromStr => seq![
                word("Some"@, name.span),
                group(Delimiter::Parenthesis, trait_parser(name, "ParseCliFromStr"@), name.span),
            ],
            CliModeModel::Function(function) => seq![
                word("Some"@, name.span),
                group(Delimiter::Parenthesis, function.tokens, name.span),
            ],
        }
    }
}

/// Writes `<name as ::proxmox::api::cli::<parser>>::parse_cli`.
fn quote_trait_parser(name: &Ident, parser: &str) -> (tokens: Vec<Token>)
    ensures
        tokens_model(tokens@) == trait_parser(name@, parser@),
{
    let span = name.span;
    let mut tokens = no_tokens();
    push_punct(&mut tokens, '<', span);
    push_token(&mut tokens, Token::Ident(name.duplicate()));
    push_word(&mut tokens, "as", span);
    push_api_path(&mut tokens, "cli", parser, span);
    push_joint(&mut tokens, '>', span);
    push_separator(&mut tokens, span);
    push_word(&mut tokens, "parse_cli", span);
    assert(tokens_model(tokens@) =~= trait_parser(name@, parser@));
    tokens
}

impl CliMode {
    /// Writes the code that names the command line parser of the type
    /// `name`.
    pub fn quote(&self, name: &Ident) -> (tokens: Vec<Token>)
        ensures
            tokens_model(tokens@) == self@.quote(name@),
    {
        let span = name.span;
        let mut tokens = no_tokens();
        match self {
            CliMode::Disabled => {
                push_word(&mut tokens, "None", span);
            },
            CliMode::ParseCli => {
                push_word(&mut tokens, "Some", span);
                let inside = quote_trait_parser(name, "ParseCli");
                push_group(&mut tokens, Delimiter::Parenthesis, inside, span);
            },
            CliMode::FromStr => {
                push_word(&mut tokens, "Some", span);
                let inside = quote_trait_parser(name, "ParseCliFromStr");
                push_group(&mut tokens, Delimiter::Parenthesis, inside, span);
            },
            CliMode::Function(function) => {
                push_word(&mut tokens, "Some", span);
                let mut inside = no_tokens();
                push_all(&mut inside, &function.tokens);
                assert(tokens_model(inside@) =~= function@.tokens);
                push_group(&mut tokens, Delimiter::Parenthesis, inside, span);
            },
        }
        assert(tokens_model(tokens@) =~= self@.quote(name@));
        tokens
    }

    /// Reads the mode that a `cli` value asks for.
    pub fn try_from(value: Value) -> (res: Result<CliMode, Diagnostic>)
        ensures
            view_result(res) == resolve_cli_mode(value@),
    {
        if value.is_ident("FromStr") {
            return Ok(CliMode::FromStr);
        }
        match value {
            Value::BoolLiteral(lit) => Ok(
                if lit.value {
                    CliMode::ParseCli
                } else {
                    CliMode::Disabled
                },
            ),
            Value::Object(object) => Err(
                Diagnostic::new(ErrorKind::InvalidCliMode, object.span(), "cli"),
            ),
            other => match other.expect_expr() {
                Ok(function) => Ok(CliMode::Function(function)),
                Err(error) => Err(error),
            },
        }
    }
}

/// What every type definition has: a description and a way to read it from
/// the command line.
#[derive(Clone, Debug, PartialEq, Eq)]
pub struct CommonTypeDefinition {
    pub description: LitStr,
    pub cli: CliMode,
}

/// What a [`CommonTypeDefinition`] stands for in contracts.
pub struct CommonTypeDefinitionModel {
    pub description: LitStrModel,
    pub cli: CliModeModel,
}

impl View for CommonTypeDefinition {
    type V = CommonTypeDefinitionModel;

    open spec fn view(&self) -> CommonTypeDefinitionModel {
        CommonTypeDefinitionModel { description: self.description@, cli: self.cli@ }
    }
}

/// A [`CommonTypeDefinition`] in the making.
#[derive(Clone, Debug, PartialEq, Eq)]
pub struct CommonTypeDefinitionBuilder {
    pub description: Option<LitStr>,
    pub cli: Option<CliMode>,
}

/// What a [`CommonTypeDefinitionBuilder`] stands for in contracts.
pub struct CommonTypeDefinitionBuilderModel {
    pub description: Option<LitStrModel>,
    pub cli: Option<CliModeModel>,
}

impl View for CommonTypeDefinitionBuilder {
    type V = CommonTypeDefinitionBuilderModel;

    open spec fn view(&self) -> CommonTypeDefinitionBuilderModel {
        CommonTypeDefinitionBuilderModel {
            description: view_option(self.description),
            cli: view_option(self.cli),
        }
    }
}

/// The failure that reports a required field that was not given.
pub open spec fn missing_field(span: Span, name: Seq<char>) -> DiagnosticModel {
    DiagnosticModel { kind: ErrorKind::MissingField, span, name }
}

impl CommonTypeDefinitionBuilderModel {
    /// The finished definition: the description is required, the command
    /// line mode is `ParseCli` where none was given. A missing description
    /// is reported at `span`.
    pub open spec fn build(self, span: Span) -> Result<CommonTypeDefinitionModel, DiagnosticModel> {
        match self.description {
            Some(description) => Ok(
                CommonTypeDefinitionModel {
                    description,
                    cli: match self.cli {
                        Some(cli) => cli,
                        None => CliModeModel::ParseCli,
                    },
                },
            ),
            None => Err(missing_field(span, "description"@)),
        }
    }
}

impl CommonTypeDefinitionBuilder {
    /// Sets the description.
    pub fn description(&mut self, value: LitStr)
        ensures
            final(self)@ == (CommonTypeDefinitionBuilderModel {
                description: Some(value@),
                ..old(self)@
            }),
    {
        self.description = Some(value);
    }

    /// Sets the command line mode.
    pub fn cli(&mut self, value: CliMode)
        ensures
            final(self)@ == (CommonTypeDefinitionBuilderModel { cli: Some(value@), ..old(self)@ }),
    {
        self.cli = Some(value);
    }

    /// Finishes the definition, or reports the missing description at `span`.
    pub fn build(self, span: Span) -> (res: Result<CommonTypeDefinition, Diagnostic>)
        ensures
            view_result(res) == self@.build(span),
    {
        match self.description {
            Some(description) => {
                let cli = match self.cli {
                    Some(cli) => cli,
                    None => CliMode::default(),
                };
                Ok(CommonTypeDefinition { description, cli })
            },
            None => Err(Diagnostic::new(ErrorKind::MissingField, span, "description")),
        }
    }
}

/// The description that `object` gives, coerced to a string literal.
pub open spec fn common_description(object: ObjectModel) -> Option<
    Result<LitStrModel, DiagnosticModel>,
> {
    match object.lookup("description"@) {
        Some(value) => Some(value.expect_lit_str()),
        None => None,
    }
}

/// The command line mode that `object` gives, resolved.
pub open spec fn common_cli(object: ObjectModel) -> Option<
    Result<CliModeModel, DiagnosticModel>,
> {
    match object.lookup("cli"@) {
        Some(value) => Some(resolve_cli_mode(value)),
        None => None,
    }
}

/// What reading a type definition from `object` gives: the entry
/// `description` must be a string literal, the entry `cli`, if there is one,
/// is resolved to a command line mode, and without a description there is no
/// definition. A `description` of the wrong shape is reported before `cli` is
/// looked at, and a `cli` that cannot be resolved before the missing
/// description.
pub open spec fn common_from_object(object: ObjectModel) -> Result<
    CommonTypeDefinitionModel,
    DiagnosticModel,
> {
    match common_description(object) {
        Some(Err(error)) => Err(error),
        description => match common_cli(object) {
            Some(Err(error)) => Err(error),
            cli => (CommonTypeDefinitionBuilderModel {
                description: match description {
                    Some(Ok(found)) => Some(found),
                    _ => None,
                },
                cli: match cli {
                    Some(Ok(found)) => Some(found),
                    _ => None,
                },
            }).build(object.span),
        },
    }
}

/// What reading a type definition leaves of `object`: the entries
/// `description` and `cli` are taken out, `cli` only if the description was
/// of the right shape.
pub open spec fn common_remainder(object: ObjectModel) -> ObjectModel {
    match common_description(object) {
        Some(Err(_)) => object.without("description"@),
        _ => object.without("description"@).without("cli"@),
    }
}

impl CommonTypeDefinition {
    fn builder() -> (builder: CommonTypeDefinitionBuilder)
        ensures
            builder@ == (CommonTypeDefinitionBuilderModel { description: None, cli: None }),
    {
        CommonTypeDefinitionBuilder { description: None, cli: None }
    }

    /// Reads a type definition from `obj`, taking the entries `description`
    /// and `cli` out of it. Other entries are left for the caller.
    pub fn from_object(obj: &mut Object) -> (res: Result<CommonTypeDefinition, Diagnostic>)
        ensures
            view_result(res) == common_from_object(old(obj)@),
            final(obj)@ == common_remainder(old(obj)@),
    {
        let mut def = Self::builder();
        let span = obj.span();
        proof {
            reveal_strlit("description");
            reveal_strlit("cli");
            assert("description"@.len() == 11);
            assert("cli"@.len() == 3);
            lemma_lookup_without(obj@, "description"@, "cli"@);
        }
        match obj.remove("description") {
            Some(value) => match value.expect_lit_str() {
                Ok(description) => def.description(description),
                Err(error) => {
                    return Err(error);
                },
            },
            None => {},
        }
        match obj.remove("cli") {
            Some(value) => match CliMode::try_from(value) {
                Ok(cli) => def.cli(cli),
                Err(error) => {
                    return Err(error);
                },
            },
            None => {},
        }
        def.build(span)
    }
}

/// The definition of one parameter. Every field is optional; a field that
/// was not given is `None`.
#[derive(Clone, Debug, PartialEq, Eq)]
pub struct ParameterDefinition {
    /// A default value.
    pub default: Option<Expr>,
    /// A description.
    pub description: Option<LitStr>,
    /// An upper bound.
    pub maximum: Option<Expr>,
    /// A lower bound.
    pub minimum: Option<Expr>,
    /// An upper bound on the length.
    pub maximum_length: Option<Expr>,
    /// A lower bound on the length.
    pub minimum_length: Option<Expr>,
    /// A validation function.
    pub validate: Option<Expr>,
    /// A format: the path of a module with a `verify` function and a `NAME`.
    pub format: Option<Path>,
    /// A pattern: a regular expression or a reference to a compiled one.
    pub pattern: Option<Expr>,
    /// A serialization function.
    pub serialize_with: Option<Path>,
    /// A deserialization function.
    pub deserialize_with: Option<Path>,
}

/// What a [`ParameterDefinition`] and its builder stand for in contracts.
pub struct ParameterDefinitionModel {
    pub default: Option<ExprModel>,
    pub description: Option<LitStrModel>,
    pub maximum: Option<ExprModel>,
    pub minimum: Option<ExprModel>,
    pub maximum_length: Option<ExprModel>,
    pub minimum_length: Option<ExprModel>,
    pub validate: Option<ExprModel>,
    pub format: Option<PathModel>,
    pub pattern: Option<ExprModel>,
    pub serialize_with: Option<PathModel>,
    pub deserialize_with: Option<PathModel>,
}

impl View for ParameterDefinition {
    type V = ParameterDefinitionModel;

    open spec fn view(&self) -> ParameterDefinitionModel {
        ParameterDefinitionModel {
            default: view_option(self.default),
            description: view_option(self.description),
            maximum: view_option(self.maximum),
            minimum: view_option(self.minimum),
            maximum_length: view_option(self.maximum_length),
            minimum_length: view_option(self.minimum_length),
            validate: view_option(self.validate),
            format: view_option(self.format),
            pattern: view_option(self.pattern),
            serialize_with: view_option(self.serialize_with),
            deserialize_with: view_option(self.deserialize_with),
        }
    }
}

/// A [`ParameterDefinition`] in the making.
#[derive(Clone, Debug, PartialEq, Eq)]
pub struct ParameterDefinitionBuilder {
    pub default: Option<Expr>,
    pub description: Option<LitStr>,
    pub maximum: Option<Expr>,
    pub minimum: Option<Expr>,
    pub maximum_length: Option<Expr>,
    pub minimum_length: Option<Expr>,
    pub validate: Option<Expr>,
    pub format: Option<Path>,
    pub pattern: Option<Expr>,
    pub serialize_with: Option<Path>,
    pub deserialize_with: Option<Path>,
}

impl View for ParameterDefinitionBuilder {
    type V = ParameterDefinitionModel;

    open spec fn view(&self) -> ParameterDefinitionModel {
        ParameterDefinitionModel {
            default: view_option(self.default),
            description: view_option(self.description),
            maximum: view_option(self.maximum),
            minimum: view_option(self.minimum),
            maximum_length: view_option(self.maximum_length),
            minimum_length: view_option(self.minimum_length),
            validate: view_option(self.validate),
            format: view_option(self.format),
            pattern: view_option(self.pattern),
            serialize_with: view_option(self.serialize_with),
            deserialize_with: view_option(self.deserialize_with),
        }
    }
}

impl ParameterDefinitionModel {
    /// The definition in which nothing is given.
    pub open spec fn empty() -> ParameterDefinitionModel {
        ParameterDefinitionModel {
            default: None,
            description: None,
            maximum: None,
            minimum: None,
            maximum_length: None,
            minimum_length: None,
            validate: None,
            format: None,
            pattern: None,
            serialize_with: None,
            deserialize_with: None,
        }
    }
}

impl ParameterDefinitionBuilder {
    /// Sets a default value, or takes it back with `None`.
    pub fn default(&mut self, value: Option<Expr>)
        ensures
            final(self)@ == (ParameterDefinitionModel { default: view_option(value), ..old(self)@ }),
    {
        self.default = value;
    }

    /// Sets a description, or takes it back with `None`.
    pub fn description(&mut self, value: Option<LitStr>)
        ensures
            final(self)@ == (ParameterDefinitionModel { description: view_option(value), ..old(self)@ }),
    {
        self.description = value;
    }

    /// Sets an upper bound, or takes it back with `None`.
    pub fn maximum(&mut self, value: Option<Expr>)
        ensures
            final(self)@ == (ParameterDefinitionModel { maximum: view_option(value), ..old(self)@ }),
    {
        self.maximum = value;
    }

    /// Sets a lower bound, or takes it back with `None`.
    pub fn minimum(&mut self, value: Option<Expr>)
        ensures
            final(self)@ == (ParameterDefinitionModel { minimum: view_option(value), ..old(self)@ }),
    {
        self.minimum = value;
    }

    /// Sets an upper bound on the length, or takes it back with `None`.
    pub fn maximum_length(&mut self, value: Option<Expr>)
        ensures
            final(self)@ == (ParameterDefinitionModel { maximum_length: view_option(value), ..old(self)@ }),
    {
        self.maximum_length = value;
    }

    /// Sets a lower bound on the length, or takes it back with `None`.
    pub fn minimum_length(&mut self, value: Option<Expr>)
        ensures
            final(self)@ == (ParameterDefinitionModel { minimum_length: view_option(value), ..old(self)@ }),
    {
        self.minimum_length = value;
    }

    /// Sets a validation function, or takes it back with `None`.
    pub fn validate(&mut self, value: Option<Expr>)
        ensures
            final(self)@ == (ParameterDefinitionModel { validate: view_option(value), ..old(self)@ }),
    {
        self.validate = value;
    }

    /// Sets a format, or takes it back with `None`.
    pub fn format(&mut self, value: Option<Path>)
        ensures
            final(self)@ == (ParameterDefinitionModel { format: view_option(value), ..old(self)@ }),
    {
        self.format = value;
    }

    /// Sets a pattern, or takes it back with `None`.
    pub fn pattern(&mut self, value: Option<Expr>)
        ensures
            final(self)@ == (ParameterDefinitionModel { pattern: view_option(value), ..old(self)@ }),
    {
        self.pattern = value;
    }

    /// Sets a serialization function, or takes it back with `None`.
    pub fn serialize_with(&mut self, value: Option<Path>)
        ensures
            final(self)@ == (ParameterDefinitionModel { serialize_with: view_option(value), ..old(self)@ }),
    {
        self.serialize_with = value;
    }

    /// Sets a deserialization function, or takes it back with `None`.
    pub fn deserialize_with(&mut self, value: Option<Path>)
        ensures
            final(self)@ == (ParameterDefinitionModel { deserialize_with: view_option(value), ..old(self)@ }),
    {
        self.deserialize_with = value;
    }

    /// Finishes the definition. No field is required, so this cannot fail.
    pub fn build(self) -> (res: Result<ParameterDefinition, Diagnostic>)
        ensures
            res is Ok,
            res->Ok_0@ == self@,
    {
        Ok(
            ParameterDefinition {
                default: self.default,
                description: self.description,
                maximum: self.maximum,
                minimum: self.minimum,
                maximum_length: self.maximum_length,
                minimum_length: self.minimum_length,
                validate: self.validate,
                format: self.format,
                pattern: self.pattern,
                serialize_with: self.serialize_with,
                deserialize_with: self.deserialize_with,
            },
        )
    }
}

/// The keys whose value is a piece of code.
pub open spec fn is_expr_key(name: Seq<char>) -> bool {
    ||| name == "default"@
    ||| name == "maximum"@
    ||| name == "minimum"@
    ||| name == "maximum_length"@
    ||| name == "minimum_length"@
    ||| name == "validate"@
    ||| name == "pattern"@
}

/// The keys whose value is a path.
pub open spec fn is_path_key(name: Seq<char>) -> bool {
    ||| name == "format"@
    ||| name == "serialize_with"@
    ||| name == "deserialize_with"@
    ||| name == "serialization"@
}

/// The keys of a parameter definition: the eleven fields and
/// `serialization`, which stands for both serializer functions.
pub open spec fn is_parameter_key(name: Seq<char>) -> bool {
    is_expr_key(name) || name == "description"@ || is_path_key(name)
}

/// The failure that reports a key that a parameter definition does not have.
pub open spec fn unknown_key(key: IdentModel) -> DiagnosticModel {
    DiagnosticModel { kind: ErrorKind::UnknownKey, span: key.span, name: key.name }
}

/// What is wrong with one entry of a parameter definition, if anything: its
/// key is not recognized, or its value is not of the shape the key asks for.
pub open spec fn entry_problem(entry: EntryModel) -> Option<DiagnosticModel> {
    if is_expr_key(entry.key.name) {
        match entry.value.expect_expr() {
            Err(error) => Some(error),
            Ok(_) => None,
        }
    } else if entry.key.name == "description"@ {
        match entry.value.expect_lit_str() {
            Err(error) => Some(error),
            Ok(_) => None,
        }
    } else if is_path_key(entry.key.name) {
        match entry.value.expect_path() {
            Err(error) => Some(error),
            Ok(_) => None,
        }
    } else {
        Some(unknown_key(entry.key))
    }
}

/// The position of the first entry with which something is wrong, or the
/// number of entries if all are in order.
pub open spec fn first_problem(entries: Seq<EntryModel>) -> int
    decreases entries.len(),
{
    if entries.len() == 0 {
        0
    } else if entry_problem(entries[0]) is Some {
        0
    } else {
        1 + first_problem(entries.drop_first())
    }
}

/// `first_problem` is the first position at which something is wrong.
pub proof fn lemma_first_problem(entries: Seq<EntryModel>, at: int)
    requires
        0 <= at <= entries.len(),
        forall|j: int| 0 <= j < at ==> entry_problem(entries[j]) is None,
        at < entries.len() ==> entry_problem(entries[at]) is Some,
    ensures
        first_problem(entries) == at,
    decreases at,
{
    if at > 0 {
        let rest = entries.drop_first();
        assert forall|j: int| 0 <= j < at - 1 implies entry_problem(rest[j]) is None by {
            assert(rest[j] == entries[j + 1]);
        }
        lemma_first_problem(rest, at - 1);
    }
}

/// The code given for the field `name`.
pub open spec fn expr_field(object: ObjectModel, name: Seq<char>) -> Option<ExprModel> {
    match object.lookup(name) {
        Some(value) => Some(value.code()),
        None => None,
    }
}

/// The string literal given for the field `name`.
pub open spec fn lit_field(object: ObjectModel, name: Seq<char>) -> Option<LitStrModel> {
    match object.lookup(name) {
        Some(value) => Some(value.expect_lit_str()->Ok_0),
        None => None,
    }
}

/// The path given for the field `name`.
pub open spec fn path_field(object: ObjectModel, name: Seq<char>) -> Option<PathModel> {
    match object.lookup(name) {
        Some(value) => Some(value.expect_path()->Ok_0),
        None => None,
    }
}

/// The fields as the entries of their own names give them.
pub open spec fn own_fields(object: ObjectModel) -> ParameterDefinitionModel {
    ParameterDefinitionModel {
        default: expr_field(object, "default"@),
        description: lit_field(object, "description"@),
        maximum: expr_field(object, "maximum"@),
        minimum: expr_field(object, "minimum"@),
        maximum_length: expr_field(object, "maximum_length"@),
        minimum_length: expr_field(object, "minimum_length"@),
        validate: expr_field(object, "validate"@),
        format: path_field(object, "format"@),
        pattern: expr_field(object, "pattern"@),
        serialize_with: path_field(object, "serialize_with"@),
        deserialize_with: path_field(object, "deserialize_with"@),
    }
}

/// The fields once `serialization = module` is taken into account: where it
/// is given, the serializer functions are `module::serialize` and
/// `module::deserialize`, whatever was given for them by name. The two added
/// segments point at `span`.
pub open spec fn with_serialization(
    fields: ParameterDefinitionModel,
    module: Option<PathModel>,
    span: Span,
) -> ParameterDefinitionModel {
    match module {
        Some(path) => ParameterDefinitionModel {
            serialize_with: Some(path.join(IdentModel { name: "serialize"@, span })),
            deserialize_with: Some(path.join(IdentModel { name: "deserialize"@, span })),
            ..fields
        },
        None => fields,
    }
}

/// What reading a parameter definition from `object` gives. If something is
/// wrong with an entry, the first such entry decides the failure. Otherwise
/// every field has the value of the entry of its name, coerced to the shape
/// of the field, or `None` where there is no such entry; and `serialization`
/// sets both serializer functions.
pub open spec fn parameter_from_object(object: ObjectModel) -> Result<
    ParameterDefinitionModel,
    DiagnosticModel,
> {
    let bad = first_problem(object.entries);
    if bad < object.entries.len() {
        Err(entry_problem(object.entries[bad])->Some_0)
    } else {
        Ok(
            with_serialization(
                own_fields(object),
                path_field(object, "serialization"@),
                object.span,
            ),
        )
    }
}

/// What reading a parameter definition from a value gives: a string literal
/// is the description of a definition with nothing else in it, an object is
/// read entry by entry, and anything else is refused.
pub open spec fn parameter_from_expression(value: ValueModel) -> Result<
    ParameterDefinitionModel,
    DiagnosticModel,
> {
    match value {
        ValueModel::StringLiteral(lit) => Ok(
            ParameterDefinitionModel {
                description: Some(lit),
                ..ParameterDefinitionModel::empty()
            },
        ),
        ValueModel::Object(object) => parameter_from_object(object),
        _ => Err(type_mismatch(value.span(), "description or field definition"@)),
    }
}

/// The twelve keys of a parameter definition are twelve different words.
pub proof fn lemma_parameter_keys_distinct()
    ensures
        "default"@ != "description"@,
        "default"@ != "maximum"@,
        "default"@ != "minimum"@,
        "default"@ != "maximum_length"@,
        "default"@ != "minimum_length"@,
        "default"@ != "validate"@,
        "default"@ != "format"@,
        "default"@ != "pattern"@,
        "default"@ != "serialize_with"@,
        "default"@ != "deserialize_with"@,
        "default"@ != "serialization"@,
        "description"@ != "maximum"@,
        "description"@ != "minimum"@,
        "description"@ != "maximum_length"@,
        "description"@ != "minimum_length"@,
        "description"@ != "validate"@,
        "description"@ != "format"@,
        "description"@ != "pattern"@,
        "description"@ != "serialize_with"@,
        "description"@ != "deserialize_with"@,
        "description"@ != "serialization"@,
        "maximum"@ != "minimum"@,
        "maximum"@ != "maximum_length"@,
        "maximum"@ != "minimum_length"@,
        "maximum"@ != "validate"@,
        "maximum"@ != "format"@,
        "maximum"@ != "pattern"@,
        "maximum"@ != "serialize_with"@,
        "maximum"@ != "deserialize_with"@,
        "maximum"@ != "serialization"@,
        "minimum"@ != "maximum_length"@,
        "minimum"@ != "minimum_length"@,
        "minimum"@ != "validate"@,
        "minimum"@ != "format"@,
        "minimum"@ != "pattern"@,
        "minimum"@ != "serialize_with"@,
        "minimum"@ != "deserialize_with"@,
        "minimum"@ != "serialization"@,
        "maximum_length"@ != "minimum_length"@,
        "maximum_length"@ != "validate"@,
        "maximum_length"@ != "format"@,
        "maximum_length"@ != "pattern"@,
        "maximum_length"@ != "serialize_with"@,
        "maximum_length"@ != "deserialize_with"@,
        "maximum_length"@ != "serialization"@,
        "minimum_length"@ != "validate"@,
        "minimum_length"@ != "format"@,
        "minimum_length"@ != "pattern"@,
        "minimum_length"@ != "serialize_with"@,
        "minimum_length"@ != "deserialize_with"@,
        "minimum_length"@ != "serialization"@,
        "validate"@ != "format"@,
        "validate"@ != "pattern"@,
        "validate"@ != "serialize_with"@,
        "validate"@ != "deserialize_with"@,
        "validate"@ != "serialization"@,
        "format"@ != "pattern"@,
        "format"@ != "serialize_with"@,
        "format"@ != "deserialize_with"@,
        "format"@ != "serialization"@,
        "pattern"@ != "serialize_with"@,
        "pattern"@ != "deserialize_with"@,
        "pattern"@ != "serialization"@,
        "serialize_with"@ != "deserialize_with"@,
        "serialize_with"@ != "serialization"@,
        "deserialize_with"@ != "serialization"@,
{
    reveal_strlit("default");
    reveal_strlit("description");
    reveal_strlit("maximum");
    reveal_strlit("minimum");
    reveal_strlit("maximum_length");
    reveal_strlit("minimum_length");
    reveal_strlit("validate");
    reveal_strlit("format");
    reveal_strlit("pattern");
    reveal_strlit("serialize_with");
    reveal_strlit("deserialize_with");
    reveal_strlit("serialization");
    assert("default"@.len() == 7);
    assert("description"@.len() == 11);
    assert("maximum"@.len() == 7);
    assert("minimum"@.len() == 7);
    assert("maximum_length"@.len() == 14);
    assert("minimum_length"@.len() == 14);
    assert("validate"@.len() == 8);
    assert("format"@.len() == 6);
    assert("pattern"@.len() == 7);
    assert("serialize_with"@.len() == 14);
    assert("deserialize_with"@.len() == 16);
    assert("serialization"@.len() == 13);
    assert("default"@[0] == 'd');
    assert("maximum"@[0] == 'm');
    assert("minimum"@[0] == 'm');
    assert("pattern"@[0] == 'p');
    assert("maximum"@[1] == 'a');
    assert("minimum"@[1] == 'i');
    assert("maximum_length"@[1] == 'a');
    assert("minimum_length"@[1] == 'i');
    assert("maximum_length"@[0] == 'm');
    assert("serialize_with"@[0] == 's');
    assert("minimum_length"@[0] == 'm');
}

/// Where a key stands once an entry is added at the end.
pub proof fn lemma_index_of_key_push(entries: Seq<EntryModel>, entry: EntryModel, name: Seq<char>)
    ensures
        index_of_key(entries.push(entry), name) == (if index_of_key(entries, name)
            < entries.len() {
            index_of_key(entries, name)
        } else if entry.key.name == name {
            entries.len() as int
        } else {
            entries.len() as int + 1
        }),
{
    lemma_index_of_key_range(entries, name);
    let found = index_of_key(entries, name);
    let longer = entries.push(entry);
    let at = if found < entries.len() {
        found
    } else if entry.key.name == name {
        entries.len() as int
    } else {
        entries.len() as int + 1
    };
    assert forall|j: int| 0 <= j < at implies longer[j].key.name != name by {
        if j < entries.len() {
            assert(longer[j] == entries[j]);
        }
    }
    crate::value::lemma_index_of_key(longer, name, at);
}

/// What is found under `name` once an entry with a new key is added.
pub proof fn lemma_lookup_push(
    object: ObjectModel,
    key: IdentModel,
    value: ValueModel,
    name: Seq<char>,
)
    requires
        !object.contains_key(key.name),
    ensures
        object.push(key, value).lookup(name) == (if name == key.name {
            Some(value)
        } else {
            object.lookup(name)
        }),
{
    lemma_index_of_key_push(object.entries, EntryModel { key, value }, name);
    lemma_index_of_key_range(object.entries, name);
}

proof fn lemma_fields_push(object: ObjectModel, key: IdentModel, value: ValueModel)
    requires
        !object.contains_key(key.name),
    ensures
        object.push(key, value).lookup("default"@) == (if key.name == "default"@ {
            Some(value)
        } else {
            object.lookup("default"@)
        }),
        object.push(key, value).lookup("description"@) == (if key.name == "description"@ {
            Some(value)
        } else {
            object.lookup("description"@)
        }),
        object.push(key, value).lookup("maximum"@) == (if key.name == "maximum"@ {
            Some(value)
        } else {
            object.lookup("maximum"@)
        }),
        object.push(key, value).lookup("minimum"@) == (if key.name == "minimum"@ {
            Some(value)
        } else {
            object.lookup("minimum"@)
        }),
        object.push(key, value).lookup("maximum_length"@) == (if key.name == "maximum_length"@ {
            Some(value)
        } else {
            object.lookup("maximum_length"@)
        }),
        object.push(key, value).lookup("minimum_length"@) == (if key.name == "minimum_length"@ {
            Some(value)
        } else {
            object.lookup("minimum_length"@)
        }),
        object.push(key, value).lookup("validate"@) == (if key.name == "validate"@ {
            Some(value)
        } else {
            object.lookup("validate"@)
        }),
        object.push(key, value).lookup("format"@) == (if key.name == "format"@ {
            Some(value)
        } else {
            object.lookup("format"@)
        }),
        object.push(key, value).lookup("pattern"@) == (if key.name == "pattern"@ {
            Some(value)
        } else {
            object.lookup("pattern"@)
        }),
        object.push(key, value).lookup("serialize_with"@) == (if key.name == "serialize_with"@ {
            Some(value)
        } else {
            object.lookup("serialize_with"@)
        }),
        object.push(key, value).lookup("deserialize_with"@) == (if key.name == "deserialize_with"@ {
            Some(value)
        } else {
            object.lookup("deserialize_with"@)
        }),
        object.push(key, value).lookup("serialization"@) == (if key.name == "serialization"@ {
            Some(value)
        } else {
            object.lookup("serialization"@)
        }),
{
    lemma_lookup_push(object, key, value, "default"@);
    lemma_lookup_push(object, key, value, "description"@);
    lemma_lookup_push(object, key, value, "maximum"@);
    lemma_lookup_push(object, key, value, "minimum"@);
    lemma_lookup_push(object, key, value, "maximum_length"@);
    lemma_lookup_push(object, key, value, "minimum_length"@);
    lemma_lookup_push(object, key, value, "validate"@);
    lemma_lookup_push(object, key, value, "format"@);
    lemma_lookup_push(object, key, value, "pattern"@);
    lemma_lookup_push(object, key, value, "serialize_with"@);
    lemma_lookup_push(object, key, value, "deserialize_with"@);
    lemma_lookup_push(object, key, value, "serialization"@);
}

fn apply_entry(
    def: &mut ParameterDefinitionBuilder,
    module: &mut Option<Path>,
    entry: Entry,
    Ghost(before): Ghost<ObjectModel>,
) -> (res: Result<(), Diagnostic>)
    requires
        !before.contains_key(entry@.key.name),
        old(def)@ == own_fields(before),
        view_option(*old(module)) == path_field(before, "serialization"@),
    ensures
        match entry_problem(entry@) {
            Some(problem) => res is Err && res->Err_0@ == problem,
            None => {
                &&& res is Ok
                &&& final(def)@ == own_fields(before.push(entry@.key, entry@.value))
                &&& view_option(*final(module)) == path_field(
                    before.push(entry@.key, entry@.value),
                    "serialization"@,
                )
            },
        },
{
    proof {
        lemma_parameter_keys_distinct();
        lemma_fields_push(before, entry@.key, entry@.value);
    }
    if entry.key.is("default") {
        match entry.value.expect_expr() {
            Ok(found) => def.default(Some(found)),
            Err(error) => {
                return Err(error);
            },
        }
    } else if entry.key.is("description") {
        match entry.value.expect_lit_str() {
            Ok(found) => def.description(Some(found)),
            Err(error) => {
                return Err(error);
            },
        }
    } else if entry.key.is("maximum") {
        match entry.value.expect_expr() {
            Ok(found) => def.maximum(Some(found)),
            Err(error) => {
                return Err(error);
            },
        }
    } else if entry.key.is("minimum") {
        match entry.value.expect_expr() {
            Ok(found) => def.minimum(Some(found)),
            Err(error) => {
                return Err(error);
            },
        }
    } else if entry.key.is("maximum_length") {
        match entry.value.expect_expr() {
            Ok(found) => def.maximum_length(Some(found)),
            Err(error) => {
                return Err(error);
            },
        }
    } else if entry.key.is("minimum_length") {
        match entry.value.expect_expr() {
            Ok(found) => def.minimum_length(Some(found)),
            Err(error) => {
                return Err(error);
            },
        }
    } else if entry.key.is("validate") {
        match entry.value.expect_expr() {
            Ok(found) => def.validate(Some(found)),
            Err(error) => {
                return Err(error);
            },
        }
    } else if entry.key.is("pattern") {
        match entry.value.expect_expr() {
            Ok(found) => def.pattern(Some(found)),
            Err(error) => {
                return Err(error);
            },
        }
    } else if entry.key.is("format") {
        match entry.value.expect_path() {
            Ok(found) => def.format(Some(found)),
            Err(error) => {
                return Err(error);
            },
        }
    } else if entry.key.is("serialize_with") {
        match entry.value.expect_path() {
            Ok(found) => def.serialize_with(Some(found)),
            Err(error) => {
                return Err(error);
            },
        }
    } else if entry.key.is("deserialize_with") {
        match entry.value.expect_path() {
            Ok(found) => def.deserialize_with(Some(found)),
            Err(error) => {
                return Err(error);
            },
        }
    } else if entry.key.is("serialization") {
        match entry.value.expect_path() {
            Ok(found) => {
                *module = Some(found);
            },
            Err(error) => {
                return Err(error);
            },
        }
    } else {
        let Entry { key, value } = entry;
        return Err(Diagnostic { kind: ErrorKind::UnknownKey, span: key.span, name: key.name });
    }
    Ok(())
}

impl ParameterDefinition {
    /// A builder in which nothing is given yet.
    pub fn builder() -> (builder: ParameterDefinitionBuilder)
        ensures
            builder@ == ParameterDefinitionModel::empty(),
    {
        ParameterDefinitionBuilder {
            default: None,
            description: None,
            maximum: None,
            minimum: None,
            maximum_length: None,
            minimum_length: None,
            validate: None,
            format: None,
            pattern: None,
            serialize_with: None,
            deserialize_with: None,
        }
    }

    /// Reads a parameter definition from `obj`. Every entry must have one of
    /// the recognized keys and a value of the shape that the key asks for;
    /// the first entry that does not decides the failure.
    pub fn from_object(obj: Object) -> (res: Result<ParameterDefinition, Diagnostic>)
        ensures
            view_result(res) == parameter_from_object(obj@),
    {
        let ghost object = obj@;
        let obj_span = obj.span();
        let mut entries = obj.into_entries();
        let mut def = ParameterDefinition::builder();
        let mut module: Option<Path> = None;
        let ghost mut done: int = 0;
        proof {
            assert(object.entries.take(0) =~= Seq::empty());
            assert(object.entries.skip(0) =~= object.entries);
            lemma_empty_fields(object.span);
        }
        while entries.len() > 0
            invariant
                object == obj@,
                unique_keys(object.entries),
                0 <= done <= object.entries.len(),
                entries_model(entries@) == object.entries.skip(done),
                forall|j: int| 0 <= j < done ==> entry_problem(object.entries[j]) is None,
                def@ == own_fields(
                    ObjectModel { entries: object.entries.take(done), span: object.span },
                ),
                view_option(module) == path_field(
                    ObjectModel { entries: object.entries.take(done), span: object.span },
                    "serialization"@,
                ),
            decreases entries.len(),
        {
            let ghost before = ObjectModel {
                entries: object.entries.take(done),
                span: object.span,
            };
            let ghost waiting = entries@;
            let entry = entries.remove(0);
            proof {
                assert(entries_model(waiting).len() == waiting.len());
                assert(entry@ == entries_model(waiting)[0]);
                assert(entry@ == object.entries.skip(done)[0]);
                assert(entry@ == object.entries[done]);
                lemma_index_of_key_range(before.entries, entry@.key.name);
                assert(before.push(entry@.key, entry@.value).entries =~= object.entries.take(
                    done + 1,
                ));
                assert forall|j: int| 0 <= j < entries@.len() implies entries_model(entries@)[j]
                    == object.entries.skip(done + 1)[j] by {
                    assert(entries@[j] == waiting[j + 1]);
                    assert(entries_model(waiting)[j + 1] == waiting[j + 1]@);
                    assert(object.entries.skip(done)[j + 1] == object.entries[done + j + 1]);
                }
                assert(entries_model(entries@) =~= object.entries.skip(done + 1));
            }
            let ghost current = entry@;
            match apply_entry(&mut def, &mut module, entry, Ghost(before)) {
                Ok(()) => {},
                Err(error) => {
                    proof {
                        assert(entry_problem(current) is Some);
                        assert(error@ == entry_problem(object.entries[done])->Some_0);
                        lemma_first_problem(object.entries, done);
                    }
                    return Err(error);
                },
            }
            proof {
                done = done + 1;
            }
        }
        proof {
            lemma_first_problem(object.entries, done);
            assert(object.entries.take(done) =~= object.entries);
        }
        match module {
            Some(path) => {
                let mut serialize = path.duplicate();
                serialize.push(Ident::new("serialize", obj_span));
                let mut deserialize = path;
                deserialize.push(Ident::new("deserialize", obj_span));
                def.deserialize_with(Some(deserialize));
                def.serialize_with(Some(serialize));
            },
            None => {},
        }
        def.build()
    }

    /// Reads a parameter definition from a value: either an object of
    /// fields, or a bare string literal, which is the description.
    pub fn from_expression(expr: Value) -> (res: Result<ParameterDefinition, Diagnostic>)
        ensures
            view_result(res) == parameter_from_expression(expr@),
    {
        match expr {
            Value::StringLiteral(description) => {
                let mut def = ParameterDefinition::builder();
                def.description(Some(description));
                def.build()
            },
            Value::Object(obj) => ParameterDefinition::from_object(obj),
            other => Err(
                Diagnostic::new(
                    ErrorKind::TypeMismatch,
                    other.span(),
                    "description or field definition",
                ),
            ),
        }
    }
}

/// An object without entries gives no field.
pub proof fn lemma_empty_fields(span: Span)
    ensures
        own_fields(ObjectModel { entries: Seq::empty(), span })
            == ParameterDefinitionModel::empty(),
        path_field(ObjectModel { entries: Seq::empty(), span }, "serialization"@) is None,
{
}

} // verus!
