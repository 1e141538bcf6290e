use proxmox_api_macro::api_def::{
    CliMode, CommonTypeDefinition, CommonTypeDefinitionBuilder, ParameterDefinition,
    ParameterDefinitionBuilder,
};
use proxmox_api_macro::error::{Diagnostic, ErrorKind};
use proxmox_api_macro::parsing::{parse_object, parse_value};
use proxmox_api_macro::span::Span;
use proxmox_api_macro::token::{Delimiter, Ident, LitStr, Token};
use proxmox_api_macro::value::{Expr, Object, Path, Value};

/// Takes two values to be the same only if they were written at the same
/// places too, which `==` does not look at.
fn exactly<A, B>(found: &A, wanted: &B)
where
    A: std::fmt::Debug + PartialEq<B> + ?Sized,
    B: std::fmt::Debug + ?Sized,
{
    assert_eq!(format!("{:?}", found), format!("{:?}", wanted));
}

#[allow(dead_code)]
fn exactly_in<A, B>(context: &str, found: &A, wanted: &B)
where
    A: std::fmt::Debug + PartialEq<B> + ?Sized,
    B: std::fmt::Debug + ?Sized,
{
    assert_eq!(format!("{:?}", found), format!("{:?}", wanted), "{}", context);
}

fn convert(stream: proc_macro2::TokenStream, next: &mut usize) -> Vec<Token> {
    let mut tokens = Vec::new();
    for tree in stream {
        let start = *next;
        *next += 1;
        let token = match tree {
            proc_macro2::TokenTree::Ident(ident) => Token::Ident(Ident {
                name: ident.to_string(),
                span: Span::new(start, start + 1),
            }),
            proc_macro2::TokenTree::Punct(punct) => Token::Punct {
                ch: punct.as_char(),
                joint: punct.spacing() == proc_macro2::Spacing::Joint,
                span: Span::new(start, start + 1),
            },
            proc_macro2::TokenTree::Literal(literal) => match syn::Lit::new(literal.clone()) {
                syn::Lit::Str(text) => Token::Str(LitStr {
                    value: text.value(),
                    span: Span::new(start, start + 1),
                }),
                _ => Token::Literal { text: literal.to_string(), span: Span::new(start, start + 1) },
            },
            proc_macro2::TokenTree::Group(group) => {
                let delimiter = match group.delimiter() {
                    proc_macro2::Delimiter::Parenthesis => Delimiter::Parenthesis,
                    proc_macro2::Delimiter::Brace => Delimiter::Brace,
                    proc_macro2::Delimiter::Bracket => Delimiter::Bracket,
                    proc_macro2::Delimiter::None => Delimiter::Invisible,
                };
                let inner = convert(group.stream(), next);
                *next += 1;
                Token::Group { delimiter, tokens: inner, span: Span::new(start, *next) }
            }
        };
        tokens.push(token);
    }
    tokens
}

fn lex(text: &str) -> Vec<Token> {
    let stream: proc_macro2::TokenStream = text.parse().unwrap();
    let mut next = 0;
    convert(stream, &mut next)
}

const WHOLE: Span = Span { start: 1000, end: 2000 };

fn object(text: &str) -> Object {
    parse_object(&lex(text), WHOLE).unwrap()
}

fn value(text: &str) -> Value {
    parse_value(&lex(text), WHOLE).unwrap()
}

fn ident(name: &str, start: usize) -> Ident {
    Ident { name: name.to_string(), span: Span::new(start, start + 1) }
}

fn code(text: &str) -> Expr {
    value(text).expect_expr().unwrap()
}

fn names(path: &Option<Path>) -> Option<Vec<String>> {
    path.as_ref().map(|path| path.segments.iter().map(|segment| segment.name.clone()).collect())
}

fn nothing() -> ParameterDefinition {
    ParameterDefinition::builder().build().unwrap()
}

#[test]
fn cli_true_asks_for_the_own_parser() {
    exactly(&CliMode::try_from(value("true")), &Ok(CliMode::ParseCli));
}

#[test]
fn cli_false_switches_parsing_off() {
    exactly(&CliMode::try_from(value("false")), &Ok(CliMode::Disabled));
}

#[test]
fn cli_from_str_asks_for_from_str() {
    exactly(&CliMode::try_from(value("FromStr")), &Ok(CliMode::FromStr));
}

#[test]
fn cli_names_a_function() {
    exactly(&CliMode::try_from(value("some_function")), &Ok(CliMode::Function(Expr {
            tokens: vec![Token::Ident(ident("some_function", 0))],
            span: Span::new(0, 1)
        })));
    exactly(&CliMode::try_from(value("my::module::parse")), &Ok(CliMode::Function(code("my::module::parse"))));
    exactly(&CliMode::try_from(value("|text| parse(text)")), &Ok(CliMode::Function(Expr { tokens: lex("|text| parse(text)"), span: Span::new(0, 7) })));
    exactly(&CliMode::try_from(value("\"FromStr\"")), &Ok(CliMode::Function(code("\"FromStr\""))));
    exactly(&CliMode::try_from(value("fromstr")), &Ok(CliMode::Function(code("fromstr"))));
}

#[test]
fn cli_refuses_an_object() {
    exactly(&CliMode::try_from(value("{ a: 1 }")), &Err(Diagnostic {
            kind: ErrorKind::InvalidCliMode,
            span: Span::new(0, 5),
            name: "cli".to_string()
        }));
}

#[test]
fn cli_defaults_to_the_own_parser() {
    exactly(&CliMode::default(), &CliMode::ParseCli);
    let mut given = object("description: \"text\"");
    let definition = CommonTypeDefinition::from_object(&mut given).unwrap();
    exactly(&definition.cli, &CliMode::ParseCli);
}

#[test]
fn a_type_definition_reads_description_and_cli() {
    let mut given = object("description: \"what it is\", cli: false");
    let definition = CommonTypeDefinition::from_object(&mut given).unwrap();
    exactly(&definition, &CommonTypeDefinition {
            description: LitStr { value: "what it is".to_string(), span: Span::new(2, 3) },
            cli: CliMode::Disabled,
        });
    exactly(&given.len(), &0);
    for (text, mode) in [
        ("cli: true, description: \"d\"", CliMode::ParseCli),
        ("cli: FromStr, description: \"d\"", CliMode::FromStr),
        ("cli: parse_it, description: \"d\"", CliMode::Function(code("parse_it"))),
    ] {
        let mut given = object(text);
        let definition = CommonTypeDefinition::from_object(&mut given).unwrap();
        match (&definition.cli, &mode) {
            (CliMode::Function(found), CliMode::Function(wanted)) => {
                exactly(&found.tokens.len(), &wanted.tokens.len())
            }
            (found, wanted) => exactly(&found, &wanted),
        }
        exactly(&definition.description.value, &"d");
    }
}

#[test]
fn a_type_definition_leaves_the_other_entries() {
    let mut given = object("first: 1, description: \"d\", second: 2, cli: true, third: 3");
    CommonTypeDefinition::from_object(&mut given).unwrap();
    exactly(&given.keys(), &vec!["first", "second", "third"]);
    exactly(&given.span(), &WHOLE);
}

#[test]
fn a_type_definition_needs_a_description() {
    let mut given = object("cli: true, other: 1");
    exactly(&CommonTypeDefinition::from_object(&mut given), &Err(Diagnostic {
            kind: ErrorKind::MissingField,
            span: WHOLE,
            name: "description".to_string()
        }));
    exactly(&given.keys(), &vec!["other"]);
    let mut given = object("");
    exactly(&CommonTypeDefinition::from_object(&mut given).unwrap_err().kind, &ErrorKind::MissingField);
}

#[test]
fn a_description_must_be_a_string_literal() {
    let mut given = object("cli: true, description: not_a_literal");
    exactly(&CommonTypeDefinition::from_object(&mut given), &Err(Diagnostic {
            kind: ErrorKind::TypeMismatch,
            span: Span::new(6, 7),
            name: "string literal".to_string()
        }));
    exactly(&given.keys(), &vec!["cli"]);
}

#[test]
fn a_bad_cli_is_reported_before_a_missing_description() {
    let mut given = object("cli: { }, x: 1");
    exactly(&CommonTypeDefinition::from_object(&mut given), &Err(Diagnostic {
            kind: ErrorKind::InvalidCliMode,
            span: Span::new(2, 4),
            name: "cli".to_string()
        }));
    exactly(&given.keys(), &vec!["x"]);
    let mut given = object("cli: { }, description: 5");
    exactly(&CommonTypeDefinition::from_object(&mut given).unwrap_err().kind, &ErrorKind::TypeMismatch);
}

#[test]
fn the_type_definition_builder_checks_the_description() {
    let mut builder = CommonTypeDefinitionBuilder { description: None, cli: None };
    builder.cli(CliMode::FromStr);
    exactly(&CommonTypeDefinitionBuilder { description: None, cli: Some(CliMode::FromStr) }
            .build(Span::new(3, 4)), &Err(Diagnostic {
            kind: ErrorKind::MissingField,
            span: Span::new(3, 4),
            name: "description".to_string()
        }));
    builder.description(LitStr::new("d", Span::new(1, 2)));
    exactly(&builder.build(Span::new(3, 4)), &Ok(CommonTypeDefinition {
            description: LitStr::new("d", Span::new(1, 2)),
            cli: CliMode::FromStr
        }));
    let mut builder = CommonTypeDefinitionBuilder { description: None, cli: None };
    builder.description(LitStr::new("d", Span::new(1, 2)));
    exactly(&builder.build(Span::new(3, 4)).unwrap().cli, &CliMode::ParseCli);
}

#[test]
fn an_empty_parameter_definition_has_nothing_set() {
    let definition = ParameterDefinition::from_object(object("")).unwrap();
    exactly(&definition, &nothing());
    exactly(&definition, &ParameterDefinition {
            default: None,
            description: None,
            maximum: None,
            minimum: None,
            maximum_length: None,
            minimum_length: None,
            validate: None,
            format: None,
            pattern: None,
            serialize_with: None,
            deserialize_with: None,
        });
}

#[test]
fn every_recognized_key_sets_its_field() {
    let text = "default: 5, description: \"a number\", maximum: 10, minimum: 1 - 1, \
                maximum_length: 64, minimum_length: 4, validate: my::check, \
                format: formats::number, pattern: \"^[0-9]+$\", \
                serialize_with: ser::to, deserialize_with: de::from";
    let definition = ParameterDefinition::from_object(object(text)).unwrap();
    let tokens = lex(text);
    let literal = |at: usize| match &tokens[at] {
        Token::Literal { text, span } => {
            Expr { tokens: vec![Token::Literal { text: text.clone(), span: *span }], span: *span }
        }
        other => panic!("no literal: {:?}", other),
    };
    exactly(&definition.default, &Some(literal(2)));
    exactly(&definition.description, &Some(LitStr { value: "a number".to_string(), span: Span::new(6, 7) }));
    exactly(&definition.maximum, &Some(literal(10)));
    exactly(&definition.minimum.as_ref().map(|found| found.tokens.len()), &Some(3));
    exactly(&definition.minimum.as_ref().map(|found| found.span), &Some(Span::new(14, 17)));
    exactly(&definition.maximum_length, &Some(literal(20)));
    exactly(&definition.minimum_length, &Some(literal(24)));
    exactly(&definition.validate.as_ref().map(|found| found.tokens.len()), &Some(4));
    exactly(&names(&definition.format), &Some(vec!["formats".to_string(), "number".to_string()]));
    exactly(&definition.pattern, &Some(Expr {
            tokens: vec![Token::Str(LitStr {
                value: "^[0-9]+$".to_string(),
                span: Span::new(42, 43)
            })],
            span: Span::new(42, 43)
        }));
    exactly(&names(&definition.serialize_with), &Some(vec!["ser".to_string(), "to".to_string()]));
    exactly(&names(&definition.deserialize_with), &Some(vec!["de".to_string(), "from".to_string()]));
}

#[test]
fn the_order_of_the_entries_does_not_matter() {
    let one = ParameterDefinition::from_object(object("minimum: 1, maximum: 9")).unwrap();
    let other = ParameterDefinition::from_object(object("maximum: 9, minimum: 1")).unwrap();
    exactly(&one.minimum.map(|found| found.tokens.len()), &Some(1));
    exactly(&other.minimum.map(|found| found.tokens.len()), &Some(1));
    exactly(&one.default, &None);
}

#[test]
fn an_unrecognized_key_is_refused_by_name() {
    exactly(&ParameterDefinition::from_object(object("foo: 1")), &Err(Diagnostic { kind: ErrorKind::UnknownKey, span: Span::new(0, 1), name: "foo".to_string() }));
    exactly(&ParameterDefinition::from_object(object("minimum: 1, description: \"d\", foo: { }")), &Err(Diagnostic { kind: ErrorKind::UnknownKey, span: Span::new(8, 9), name: "foo".to_string() }));
    for key in ["Default", "type", "cli", "serialise_with", "min", "descriptions", "formats"] {
        let text = format!("{}: 1", key);
        let error = ParameterDefinition::from_object(object(&text)).unwrap_err();
        exactly_in(key, &error.kind, &ErrorKind::UnknownKey);
        exactly(&error.name, &key);
    }
}

#[test]
fn the_first_entry_that_is_wrong_decides() {
    let error = ParameterDefinition::from_object(object("default: { }, foo: 1")).unwrap_err();
    exactly(&error, &Diagnostic {
            kind: ErrorKind::TypeMismatch,
            span: Span::new(2, 4),
            name: "expression".to_string()
        });
    let error = ParameterDefinition::from_object(object("foo: 1, default: { }")).unwrap_err();
    exactly(&error.kind, &ErrorKind::UnknownKey);
}

#[test]
fn values_are_held_to_the_shape_of_their_field() {
    for (text, expected) in [
        ("description: 5", "string literal"),
        ("description: name", "string literal"),
        ("format: \"text\"", "path"),
        ("format: 1 + 1", "path"),
        ("serialize_with: { }", "path"),
        ("deserialize_with: true", "path"),
        ("serialization: \"module\"", "path"),
        ("default: { a: 1 }", "expression"),
        ("maximum: { }", "expression"),
        ("minimum: { }", "expression"),
        ("maximum_length: { }", "expression"),
        ("minimum_length: { }", "expression"),
        ("validate: { }", "expression"),
        ("pattern: { }", "expression"),
    ] {
        let error = ParameterDefinition::from_object(object(text)).unwrap_err();
        exactly_in(text, &error.kind, &ErrorKind::TypeMismatch);
        exactly_in(text, &error.name, &expected);
    }
}

#[test]
fn serialization_stands_for_both_serializers() {
    let sugar = ParameterDefinition::from_object(object("serialization: mymod")).unwrap();
    let plain = ParameterDefinition::from_object(object(
        "serialize_with: mymod::serialize, deserialize_with: mymod::deserialize",
    ))
    .unwrap();
    exactly(&names(&sugar.serialize_with), &Some(vec!["mymod".to_string(), "serialize".to_string()]));
    exactly(&names(&sugar.deserialize_with), &Some(vec!["mymod".to_string(), "deserialize".to_string()]));
    exactly(&names(&sugar.serialize_with), &names(&plain.serialize_with));
    exactly(&names(&sugar.deserialize_with), &names(&plain.deserialize_with));
    exactly(&sugar.serialize_with.as_ref().map(|path| path.leading_colon), &plain.serialize_with.as_ref().map(|path| path.leading_colon));
    for definition in [sugar, plain] {
        exactly(&ParameterDefinition { serialize_with: None, deserialize_with: None, ..definition }, &nothing());
    }
}

#[test]
fn serialization_takes_a_path_of_any_length() {
    let sugar = ParameterDefinition::from_object(object("serialization: ::a::b")).unwrap();
    let serialize = sugar.serialize_with.unwrap();
    assert!(serialize.leading_colon);
    exactly(&serialize.segments, &vec![
            ident("a", 4),
            ident("b", 7),
            Ident { name: "serialize".to_string(), span: WHOLE }
        ]);
    let deserialize = sugar.deserialize_with.unwrap();
    exactly(&deserialize.segments.last().map(|s| s.name.as_str()), &Some("deserialize"));
    exactly(&deserialize.segments.len(), &3);
}

#[test]
fn serialization_wins_over_named_serializers_in_either_order() {
    let before = ParameterDefinition::from_object(object(
        "serialization: sugar, serialize_with: plain::ser, deserialize_with: plain::de",
    ))
    .unwrap();
    let after = ParameterDefinition::from_object(object(
        "serialize_with: plain::ser, deserialize_with: plain::de, serialization: sugar",
    ))
    .unwrap();
    let between = ParameterDefinition::from_object(object(
        "serialize_with: plain::ser, serialization: sugar, deserialize_with: plain::de",
    ))
    .unwrap();
    for definition in [before, after, between] {
        exactly(&names(&definition.serialize_with), &Some(vec!["sugar".to_string(), "serialize".to_string()]));
        exactly(&names(&definition.deserialize_with), &Some(vec!["sugar".to_string(), "deserialize".to_string()]));
    }
}

#[test]
fn a_named_serializer_stands_alone_without_serialization() {
    let definition = ParameterDefinition::from_object(object("serialize_with: only::ser")).unwrap();
    exactly(&names(&definition.serialize_with), &Some(vec!["only".to_string(), "ser".to_string()]));
    exactly(&definition.deserialize_with, &None);
}

#[test]
fn a_bare_string_is_the_description() {
    let bare = ParameterDefinition::from_expression(value("\"the description\"")).unwrap();
    let braced =
        ParameterDefinition::from_expression(value("{ description: \"the description\" }"))
            .unwrap();
    let direct =
        ParameterDefinition::from_object(object("description: \"the description\"")).unwrap();
    exactly(&bare, &ParameterDefinition {
            description: Some(LitStr {
                value: "the description".to_string(),
                span: Span::new(0, 1)
            }),
            ..nothing()
        });
    exactly(&bare.description.as_ref().map(|d| &d.value), &braced.description.as_ref().map(|d| &d.value));
    exactly(&braced.description.as_ref().map(|d| &d.value), &direct.description.as_ref().map(|d| &d.value));
    exactly(&ParameterDefinition { description: None, ..braced }, &nothing());
    exactly(&ParameterDefinition { description: None, ..direct }, &nothing());
}

#[test]
fn a_bare_string_equals_the_object_with_that_description() {
    let lit = Value::StringLiteral(LitStr::new("same", Span::new(5, 6)));
    let mut given = Object::new(WHOLE);
    given
        .insert(ident("description", 3), Value::StringLiteral(LitStr::new("same", Span::new(5, 6))))
        .unwrap();
    exactly(&ParameterDefinition::from_expression(lit), &ParameterDefinition::from_object(given));
}

#[test]
fn a_parameter_annotation_is_an_object_or_a_string() {
    exactly(&ParameterDefinition::from_expression(value("{ minimum: 1, foo: 2 }")).unwrap_err().kind, &ErrorKind::UnknownKey);
    for text in ["true", "name", "a::b", "1 + 1", "5"] {
        let given = value(text);
        let span = given.span();
        exactly_in(text, &ParameterDefinition::from_expression(given), &Err(Diagnostic {
                kind: ErrorKind::TypeMismatch,
                span,
                name: "description or field definition".to_string()
            }));
    }
}

#[test]
fn the_parameter_builder_sets_and_unsets_fields() {
    let mut builder: ParameterDefinitionBuilder = ParameterDefinition::builder();
    builder.default(Some(code("1")));
    builder.description(Some(LitStr::new("d", Span::new(0, 1))));
    builder.maximum(Some(code("2")));
    builder.minimum(Some(code("3")));
    builder.maximum_length(Some(code("4")));
    builder.minimum_length(Some(code("5")));
    builder.validate(Some(code("v")));
    builder.format(Some(Path::from_ident(ident("f", 0))));
    builder.pattern(Some(code("\"p\"")));
    builder.serialize_with(Some(Path::from_ident(ident("s", 0))));
    builder.deserialize_with(Some(Path::from_ident(ident("d", 0))));
    builder.validate(None);
    builder.maximum(Some(code("22")));
    let definition = builder.build().unwrap();
    exactly(&definition, &ParameterDefinition {
            default: Some(code("1")),
            description: Some(LitStr::new("d", Span::new(0, 1))),
            maximum: Some(code("22")),
            minimum: Some(code("3")),
            maximum_length: Some(code("4")),
            minimum_length: Some(code("5")),
            validate: None,
            format: Some(Path::from_ident(ident("f", 0))),
            pattern: Some(code("\"p\"")),
            serialize_with: Some(Path::from_ident(ident("s", 0))),
            deserialize_with: Some(Path::from_ident(ident("d", 0))),
        });
}

#[test]
fn places_take_no_part_in_equality() {
    assert!(Span::new(1, 2) == Span::new(30, 40));
    assert!(ident("a", 1) == ident("a", 9));
    assert!(ident("a", 1) != ident("b", 1));
    assert!(value("  a::b") == value("a ::  b"));
    assert!(value("a::b") != value("a::c"));
    assert!(code("f ( 1 )") == code("f(1)"));
    assert!(code("f(1)") != code("f(2)"));
    let early = parse_object(&lex("x: { y: \"z\" }"), Span::new(0, 5)).unwrap();
    let late = parse_object(&lex("{ x: { y: \"z\", }, }"), Span::new(70, 90)).unwrap();
    assert!(early == late);
    assert!(
        Diagnostic::new(ErrorKind::Syntax, Span::new(0, 1), "key")
            == Diagnostic::new(ErrorKind::Syntax, Span::new(5, 6), "key")
    );
    assert!(
        Diagnostic::new(ErrorKind::Syntax, Span::new(0, 1), "key")
            != Diagnostic::new(ErrorKind::Syntax, Span::new(0, 1), "value")
    );
}

#[test]
fn serialization_equals_both_serializers() {
    let sugar = ParameterDefinition::from_object(object("serialization: mymod")).unwrap();
    let plain = ParameterDefinition::from_object(object(
        "serialize_with: mymod::serialize, deserialize_with: mymod::deserialize",
    ))
    .unwrap();
    assert!(sugar == plain);
    let other = ParameterDefinition::from_object(object(
        "serialize_with: mymod::serialize, deserialize_with: other::deserialize",
    ))
    .unwrap();
    assert!(sugar != other);
    let longer = ParameterDefinition::from_object(object("serialization: ::a::b")).unwrap();
    let spelled = ParameterDefinition::from_object(object(
        "deserialize_with: ::a::b::deserialize, serialize_with: ::a::b::serialize",
    ))
    .unwrap();
    assert!(longer == spelled);
}

#[test]
fn a_bare_string_equals_the_braced_description() {
    let bare = ParameterDefinition::from_expression(value("\"the text\"")).unwrap();
    let braced =
        ParameterDefinition::from_expression(value("{ description: \"the text\" }")).unwrap();
    assert!(bare == braced);
    let other = ParameterDefinition::from_expression(value("{ description: \"other\" }")).unwrap();
    assert!(bare != other);
}
