use proxmox_api_macro::error::{Diagnostic, ErrorKind};
use proxmox_api_macro::parsing::{parse_object, parse_object_body, parse_value};
use proxmox_api_macro::span::Span;
use proxmox_api_macro::token::{duplicate_tokens, Delimiter, Ident, LitStr, Token};
use proxmox_api_macro::value::{Entry, Expr, LitBool, Object, Path, Value};

/// Takes two values to be the same only if they were written at the same
/// places too, which `==` does not look at.
fn exactly<A, B>(found: &A, wanted: &B)
where
    A: std::fmt::Debug + PartialEq<B> + ?Sized,
    B: std::fmt::Debug + ?Sized,
{
    assert_eq!(format!("{:?}", found), format!("{:?}", wanted));
}

#[allow(dead_code)]
fn exactly_in<A, B>(context: &str, found: &A, wanted: &B)
where
    A: std::fmt::Debug + PartialEq<B> + ?Sized,
    B: std::fmt::Debug + ?Sized,
{
    assert_eq!(format!("{:?}", found), format!("{:?}", wanted), "{}", context);
}

fn convert(stream: proc_macro2::TokenStream, next: &mut usize) -> Vec<Token> {
    let mut tokens = Vec::new();
    for tree in stream {
        let start = *next;
        *next += 1;
        let token = match tree {
            proc_macro2::TokenTree::Ident(ident) => Token::Ident(Ident {
                name: ident.to_string(),
                span: Span::new(start, start + 1),
            }),
            proc_macro2::TokenTree::Punct(punct) => Token::Punct {
                ch: punct.as_char(),
                joint: punct.spacing() == proc_macro2::Spacing::Joint,
                span: Span::new(start, start + 1),
            },
            proc_macro2::TokenTree::Literal(literal) => match syn::Lit::new(literal.clone()) {
                syn::Lit::Str(text) => Token::Str(LitStr {
                    value: text.value(),
                    span: Span::new(start, start + 1),
                }),
                _ => Token::Literal { text: literal.to_string(), span: Span::new(start, start + 1) },
            },
            proc_macro2::TokenTree::Group(group) => {
                let delimiter = match group.delimiter() {
                    proc_macro2::Delimiter::Parenthesis => Delimiter::Parenthesis,
                    proc_macro2::Delimiter::Brace => Delimiter::Brace,
                    proc_macro2::Delimiter::Bracket => Delimiter::Bracket,
                    proc_macro2::Delimiter::None => Delimiter::Invisible,
                };
                let inner = convert(group.stream(), next);
                *next += 1;
                Token::Group { delimiter, tokens: inner, span: Span::new(start, *next) }
            }
        };
        tokens.push(token);
    }
    tokens
}

fn lex(text: &str) -> Vec<Token> {
    let stream: proc_macro2::TokenStream = text.parse().unwrap();
    let mut next = 0;
    convert(stream, &mut next)
}

fn object(text: &str) -> Result<Object, Diagnostic> {
    let tokens = lex(text);
    let end = tokens.last().map(|token| token.span().end).unwrap_or(0);
    parse_object(&tokens, Span::new(0, end))
}

fn value(text: &str) -> Result<Value, Diagnostic> {
    let tokens = lex(text);
    let end = tokens.last().map(|token| token.span().end).unwrap_or(0);
    parse_value(&tokens, Span::new(0, end))
}

fn ident(name: &str, start: usize) -> Ident {
    Ident { name: name.to_string(), span: Span::new(start, start + 1) }
}

fn keys(text: &str) -> Vec<String> {
    object(text).unwrap().keys()
}

#[test]
fn lexing_gives_the_tokens_the_library_expects() {
    let tokens = lex("a: \"x\\n\", b::c");
    exactly(&tokens, &vec![
            Token::Ident(ident("a", 0)),
            Token::Punct { ch: ':', joint: false, span: Span::new(1, 2) },
            Token::Str(LitStr { value: "x\n".to_string(), span: Span::new(2, 3) }),
            Token::Punct { ch: ',', joint: false, span: Span::new(3, 4) },
            Token::Ident(ident("b", 4)),
            Token::Punct { ch: ':', joint: true, span: Span::new(5, 6) },
            Token::Punct { ch: ':', joint: false, span: Span::new(6, 7) },
            Token::Ident(ident("c", 7)),
        ]);
}

#[test]
fn an_empty_object_has_no_entries() {
    let parsed = object("").unwrap();
    exactly(&parsed.len(), &0);
    exactly(&parsed.keys(), &Vec::<String>::new());
}

#[test]
fn entries_keep_their_declaration_order() {
    exactly(&keys("b: 1, a: \"x\", c: true"), &vec!["b", "a", "c"]);
    exactly(&keys("zeta: 1, alpha: 2, mid: 3, beta: 4"), &vec!["zeta", "alpha", "mid", "beta"]);
}

#[test]
fn a_comma_may_follow_the_last_entry() {
    exactly(&keys("a: 1, b: 2,"), &vec!["a", "b"]);
    exactly(&object("a: 1, b: 2,").unwrap().into_entries(), &object("a: 1, b: 2").unwrap().into_entries());
}

#[test]
fn the_entries_of_an_object_may_stand_in_braces() {
    let braced = parse_object(&lex("{ a: 1, b: two }"), Span::new(50, 60)).unwrap();
    exactly(&braced.keys(), &vec!["a", "b"]);
    exactly(&braced.span(), &Span::new(0, 9));
    let bare = parse_object(&lex("a: 1, b: two"), Span::new(50, 60)).unwrap();
    exactly(&bare.keys(), &vec!["a", "b"]);
    exactly(&bare.span(), &Span::new(50, 60));
    exactly(&parse_object(&lex("{ }"), Span::new(50, 60)).unwrap().len(), &0);
    exactly(&parse_object(&lex("{ a: 1, a: 2 }"), Span::new(50, 60)).unwrap_err().kind, &ErrorKind::DuplicateKey);
}

#[test]
fn braces_are_taken_off_once_only() {
    for text in ["{ { a: 1 } }", "{ a: 1 } b: 2", "{ a: 1 }, b: 2", "( a: 1 )", "[ a: 1 ]"] {
        let error = parse_object(&lex(text), Span::new(50, 60)).unwrap_err();
        exactly_in(text, &error.kind, &ErrorKind::Syntax);
        exactly_in(text, &error.name, &"key");
    }
    let error = parse_object_body(&lex("{ a: 1 }"), Span::new(50, 60)).unwrap_err();
    exactly(&error, &Diagnostic { kind: ErrorKind::Syntax, span: Span::new(0, 5), name: "key".to_string() });
    exactly(&parse_object_body(&lex("a: 1"), Span::new(50, 60)).unwrap().keys(), &vec!["a"]);
}

#[test]
fn parsed_object_carries_its_span() {
    let parsed = parse_object(&lex("a: 1"), Span::new(7, 99)).unwrap();
    exactly(&parsed.span(), &Span::new(7, 99));
}

#[test]
fn a_string_literal_is_a_string_literal() {
    let parsed = object("description: \"some text\"").unwrap();
    exactly(&parsed.get("description"), &Some(&Value::StringLiteral(LitStr {
            value: "some text".to_string(),
            span: Span::new(2, 3)
        })));
}

#[test]
fn true_and_false_are_booleans() {
    let parsed = object("a: true, b: false").unwrap();
    exactly(&parsed.get("a"), &Some(&Value::BoolLiteral(LitBool { value: true, span: Span::new(2, 3) })));
    exactly(&parsed.get("b"), &Some(&Value::BoolLiteral(LitBool { value: false, span: Span::new(6, 7) })));
}

#[test]
fn a_bare_name_is_an_identifier() {
    let parsed = object("cli: FromStr").unwrap();
    exactly(&parsed.get("cli"), &Some(&Value::Identifier(ident("FromStr", 2))));
}

#[test]
fn names_joined_by_colons_are_a_path() {
    let parsed = object("format: my::format::module").unwrap();
    exactly(&parsed.get("format"), &Some(&Value::Path(Path {
            leading_colon: false,
            segments: vec![ident("my", 2), ident("format", 5), ident("module", 8)],
            span: Span::new(2, 9),
        })));
}

#[test]
fn a_path_may_start_with_colons() {
    let parsed = object("format: ::top::level").unwrap();
    exactly(&parsed.get("format"), &Some(&Value::Path(Path {
            leading_colon: true,
            segments: vec![ident("top", 4), ident("level", 7)],
            span: Span::new(2, 8),
        })));
    let parsed = object("format: ::alone").unwrap();
    exactly(&parsed.get("format"), &Some(&Value::Path(Path {
            leading_colon: true,
            segments: vec![ident("alone", 4)],
            span: Span::new(2, 5),
        })));
}

#[test]
fn braces_hold_a_nested_object() {
    let parsed = object("outer: { inner: 1, other: \"x\" }, last: true").unwrap();
    exactly(&parsed.keys(), &vec!["outer", "last"]);
    match parsed.get("outer") {
        Some(Value::Object(inner)) => {
            exactly(&inner.keys(), &vec!["inner", "other"]);
            exactly(&inner.span(), &Span::new(2, 11));
        }
        other => panic!("not an object: {:?}", other),
    }
}

#[test]
fn anything_else_is_code_kept_as_written() {
    let parsed = object("minimum: 1 + 2, validate: check(a, b), maximum: 10").unwrap();
    exactly(&parsed.keys(), &vec!["minimum", "validate", "maximum"]);
    let tokens = lex("minimum: 1 + 2, validate: check(a, b), maximum: 10");
    match parsed.get("minimum") {
        Some(Value::Expression(expr)) => {
            exactly(&expr.tokens, &duplicate_tokens(&tokens)[2..5].iter().map(Token::duplicate).collect::<Vec<_>>());
            exactly(&expr.span, &Span::new(2, 5));
        }
        other => panic!("not code: {:?}", other),
    }
    match parsed.get("validate") {
        Some(Value::Expression(expr)) => {
            exactly(&expr.tokens.len(), &2);
            exactly(&expr.tokens[0], &Token::Ident(ident("check", 8)));
            assert!(matches!(
                &expr.tokens[1],
                Token::Group { delimiter: Delimiter::Parenthesis, tokens, .. } if tokens.len() == 3
            ));
        }
        other => panic!("not code: {:?}", other),
    }
    match parsed.get("maximum") {
        Some(Value::Expression(expr)) => {
            exactly(&expr.tokens, &vec![Token::Literal { text: "10".to_string(), span: Span::new(17, 18) }]);
        }
        other => panic!("not code: {:?}", other),
    }
}

#[test]
fn a_dotted_name_is_code_not_a_path() {
    let parsed = object("validate: a.b").unwrap();
    assert!(matches!(parsed.get("validate"), Some(Value::Expression(_))));
    let parsed = object("validate: a: :b").unwrap();
    assert!(matches!(parsed.get("validate"), Some(Value::Expression(_))));
    let parsed = object("validate: a::").unwrap();
    assert!(matches!(parsed.get("validate"), Some(Value::Expression(_))));
}

#[test]
fn duplicate_keys_fail_whatever_the_value() {
    for text in [
        "a: 1, a: 2",
        "a: \"x\", b: 1, a: \"y\"",
        "a: true, a: { nested: 1 }",
        "a: { nested: 1 }, a: some::path",
        "a: x, a: f(1, 2) + 3,",
    ] {
        let error = object(text).unwrap_err();
        exactly_in(text, &error.kind, &ErrorKind::DuplicateKey);
        exactly_in(text, &error.name, &"a");
    }
}

#[test]
fn a_duplicate_key_points_at_the_second_occurrence() {
    let error = object("a: 1, b: 2, a: 3, a: 4").unwrap_err();
    exactly(&error, &Diagnostic { kind: ErrorKind::DuplicateKey, span: Span::new(8, 9), name: "a".to_string() });
}

#[test]
fn duplicate_keys_in_a_nested_object_fail() {
    let error = object("outer: { x: 1, x: 2 }").unwrap_err();
    exactly(&error.kind, &ErrorKind::DuplicateKey);
    exactly(&error.name, &"x");
    exactly(&error.span, &Span::new(7, 8));
}

#[test]
fn the_same_key_in_two_objects_is_no_duplicate() {
    let parsed = object("a: { a: 1 }, b: { a: 2 }").unwrap();
    exactly(&parsed.keys(), &vec!["a", "b"]);
}

#[test]
fn a_key_must_be_an_identifier() {
    let error = object("\"a\": 1").unwrap_err();
    exactly(&error, &Diagnostic { kind: ErrorKind::Syntax, span: Span::new(0, 1), name: "key".to_string() });
    let error = object("a: 1, , b: 2").unwrap_err();
    exactly(&error, &Diagnostic { kind: ErrorKind::Syntax, span: Span::new(4, 5), name: "key".to_string() });
    let error = object(", a: 1").unwrap_err();
    exactly(&error.kind, &ErrorKind::Syntax);
    exactly(&error.span, &Span::new(0, 1));
}

#[test]
fn a_colon_must_follow_the_key() {
    let error = object("a").unwrap_err();
    exactly(&error, &Diagnostic { kind: ErrorKind::Syntax, span: Span::new(0, 1), name: ":".to_string() });
    let error = object("a 1").unwrap_err();
    exactly(&error, &Diagnostic { kind: ErrorKind::Syntax, span: Span::new(1, 2), name: ":".to_string() });
    let error = object("a = 1").unwrap_err();
    exactly(&error.kind, &ErrorKind::Syntax);
    let error = object("a::b").unwrap_err();
    exactly(&error.kind, &ErrorKind::Syntax);
    exactly(&error.name, &":");
}

#[test]
fn a_value_must_follow_the_colon() {
    let error = object("a: , b: 1").unwrap_err();
    exactly(&error, &Diagnostic { kind: ErrorKind::Syntax, span: Span::new(1, 2), name: "value".to_string() });
    let error = object("a:").unwrap_err();
    exactly(&error.kind, &ErrorKind::Syntax);
    exactly(&error.name, &"value");
}

#[test]
fn the_first_failure_decides() {
    let error = object("a: 1, a: 2, b").unwrap_err();
    exactly(&error.kind, &ErrorKind::DuplicateKey);
    let error = object("a: 1, b, a: 2").unwrap_err();
    exactly(&error.kind, &ErrorKind::Syntax);
    let error = object("a: 1, a: { x: 1, x: 2 }").unwrap_err();
    exactly(&error.kind, &ErrorKind::DuplicateKey);
    exactly(&error.name, &"x");
}

#[test]
fn an_annotation_is_an_object_or_a_single_value() {
    match value("{ description: \"d\", cli: false }").unwrap() {
        Value::Object(parsed) => exactly(&parsed.keys(), &vec!["description", "cli"]),
        other => panic!("not an object: {:?}", other),
    }
    exactly(&value("\"just a description\"").unwrap(), &Value::StringLiteral(LitStr {
            value: "just a description".to_string(),
            span: Span::new(0, 1)
        }));
    exactly(&value("name").unwrap(), &Value::Identifier(ident("name", 0)));
    assert!(matches!(value("a::b").unwrap(), Value::Path(_)));
    assert!(matches!(value("1 + 1").unwrap(), Value::Expression(_)));
    assert!(matches!(value("{ a: 1 } + 1").unwrap(), Value::Expression(_)));
    assert!(matches!(value("(a)").unwrap(), Value::Expression(_)));
    exactly(&value("").unwrap_err(), &Diagnostic { kind: ErrorKind::Syntax, span: Span::new(0, 0), name: "value".to_string() });
    exactly(&value("{ a: 1, a: 2 }").unwrap_err().kind, &ErrorKind::DuplicateKey);
}

#[test]
fn insert_refuses_a_key_that_is_there() {
    let mut built = Object::new(Span::new(0, 0));
    exactly(&built.insert(ident("a", 1), Value::Identifier(ident("x", 2))), &Ok(()));
    exactly(&built.insert(ident("b", 3), Value::Identifier(ident("y", 4))), &Ok(()));
    let refused = built.insert(ident("a", 5), Value::BoolLiteral(LitBool { value: true, span: Span::new(6, 7) }));
    exactly(&refused, &Err(Diagnostic { kind: ErrorKind::DuplicateKey, span: Span::new(5, 6), name: "a".to_string() }));
    exactly(&built.len(), &2);
    exactly(&built.keys(), &vec!["a", "b"]);
    exactly(&built.get("a"), &Some(&Value::Identifier(ident("x", 2))));
    built.keys_are_unique();
}

#[test]
fn get_contains_and_remove_agree() {
    let mut parsed = object("a: 1, b: two, c: \"three\"").unwrap();
    assert!(parsed.contains_key("b"));
    assert!(!parsed.contains_key("d"));
    exactly(&parsed.get("d"), &None);
    exactly(&parsed.remove("d"), &None);
    exactly(&parsed.len(), &3);
    exactly(&parsed.remove("b"), &Some(Value::Identifier(ident("two", 6))));
    exactly(&parsed.keys(), &vec!["a", "c"]);
    assert!(!parsed.contains_key("b"));
    exactly(&parsed.remove("b"), &None);
    exactly(&parsed.remove("a").map(|found| found.span()), &Some(Span::new(2, 3)));
    exactly(&parsed.keys(), &vec!["c"]);
}

#[test]
fn entries_can_be_read_and_taken() {
    let parsed = object("a: x, b: y").unwrap();
    exactly(&parsed.entries().len(), &2);
    exactly(&parsed.entries()[1].key, &ident("b", 4));
    let entries = parsed.into_entries();
    exactly(&entries, &vec![
            Entry { key: ident("a", 0), value: Value::Identifier(ident("x", 2)) },
            Entry { key: ident("b", 4), value: Value::Identifier(ident("y", 6)) },
        ]);
}

#[test]
fn values_know_their_place() {
    let parsed = object("a: \"s\", b: true, c: name, d: x::y, e: { }, f: 1 + 2").unwrap();
    let spans: Vec<Span> = parsed.entries().iter().map(|entry| entry.value.span()).collect();
    exactly(&spans, &vec![
            Span::new(2, 3),
            Span::new(6, 7),
            Span::new(10, 11),
            Span::new(14, 18),
            Span::new(21, 23),
            Span::new(26, 29),
        ]);
}

#[test]
fn coercion_to_a_string_literal() {
    let lit = value("\"text\"").unwrap().expect_lit_str().unwrap();
    exactly(&lit, &LitStr { value: "text".to_string(), span: Span::new(0, 1) });
    for text in ["true", "name", "a::b", "{ a: 1 }", "1 + 1"] {
        let found = value(text).unwrap();
        let span = found.span();
        exactly_in(text, &found.expect_lit_str(), &Err(Diagnostic {
                kind: ErrorKind::TypeMismatch,
                span,
                name: "string literal".to_string()
            }));
    }
}

#[test]
fn coercion_to_an_identifier() {
    exactly(&value("name").unwrap().expect_ident(), &Ok(ident("name", 0)));
    for text in ["\"s\"", "true", "a::b", "{ }", "1"] {
        let found = value(text).unwrap();
        let span = found.span();
        exactly_in(text, &found.expect_ident(), &Err(Diagnostic { kind: ErrorKind::TypeMismatch, span, name: "identifier".to_string() }));
    }
}

#[test]
fn coercion_to_a_path() {
    exactly(&value("a::b").unwrap().expect_path(), &Ok(Path {
            leading_colon: false,
            segments: vec![ident("a", 0), ident("b", 3)],
            span: Span::new(0, 4)
        }));
    exactly(&value("alone").unwrap().expect_path(), &Ok(Path { leading_colon: false, segments: vec![ident("alone", 0)], span: Span::new(0, 1) }));
    for text in ["\"s\"", "true", "{ }", "a.b"] {
        let found = value(text).unwrap();
        let span = found.span();
        exactly_in(text, &found.expect_path(), &Err(Diagnostic { kind: ErrorKind::TypeMismatch, span, name: "path".to_string() }));
    }
}

#[test]
fn coercion_to_an_object() {
    exactly(&value("{ a: 1 }").unwrap().expect_object().unwrap().keys(), &vec!["a"]);
    let found = value("a::b").unwrap();
    exactly(&found.expect_object(), &Err(Diagnostic {
            kind: ErrorKind::TypeMismatch,
            span: Span::new(0, 4),
            name: "object".to_string()
        }));
}

#[test]
fn coercion_to_code() {
    exactly(&value("\"s\"").unwrap().expect_expr(), &Ok(Expr {
            tokens: vec![Token::Str(LitStr { value: "s".to_string(), span: Span::new(0, 1) })],
            span: Span::new(0, 1)
        }));
    exactly(&value("true").unwrap().expect_expr(), &Ok(Expr { tokens: vec![Token::Ident(ident("true", 0))], span: Span::new(0, 1) }));
    exactly(&value("false").unwrap().expect_expr(), &Ok(Expr { tokens: vec![Token::Ident(ident("false", 0))], span: Span::new(0, 1) }));
    exactly(&value("name").unwrap().expect_expr(), &Ok(Expr { tokens: vec![Token::Ident(ident("name", 0))], span: Span::new(0, 1) }));
    exactly(&value("1 + 2").unwrap().expect_expr(), &Ok(Expr { tokens: lex("1 + 2"), span: Span::new(0, 3) }));
    exactly(&value("{ a: 1 }").unwrap().expect_expr(), &Err(Diagnostic {
            kind: ErrorKind::TypeMismatch,
            span: Span::new(0, 5),
            name: "expression".to_string()
        }));
}

#[test]
fn a_path_is_written_out_with_separators() {
    let whole = Span::new(0, 7);
    let colons = |joint| Token::Punct { ch: ':', joint, span: whole };
    exactly(&value("a::b::c").unwrap().expect_expr(), &Ok(Expr {
            tokens: vec![
                Token::Ident(ident("a", 0)),
                colons(true),
                colons(false),
                Token::Ident(ident("b", 3)),
                colons(true),
                colons(false),
                Token::Ident(ident("c", 6)),
            ],
            span: whole
        }));
    let whole = Span::new(0, 3);
    let colons = |joint| Token::Punct { ch: ':', joint, span: whole };
    exactly(&value("::a").unwrap().expect_expr(), &Ok(Expr {
            tokens: vec![colons(true), colons(false), Token::Ident(ident("a", 2))],
            span: whole
        }));
    let mut path = Path::from_ident(ident("m", 4));
    path.push(ident("n", 9));
    assert!(!path.is_ident("m"));
    assert!(Path::from_ident(ident("m", 4)).is_ident("m"));
    assert!(!Path::from_ident(ident("m", 4)).is_ident("n"));
    exactly(&path.duplicate(), &path);
    let joined = path.into_tokens();
    exactly(&joined.len(), &4);
    exactly(&joined[3], &Token::Ident(ident("n", 9)));
    assert!(joined[1].is_joint_punct(':'));
    assert!(joined[2].is_lone_punct(':'));
    assert!(!joined[2].is_lone_punct(','));
}

#[test]
fn written_out_paths_are_read_back() {
    for text in ["a::b", "::a", "::a::b::c", "x::y::z"] {
        let path = value(text).unwrap().expect_path().unwrap();
        let names: Vec<String> = path.segments.iter().map(|s| s.name.clone()).collect();
        let leading = path.leading_colon;
        let tokens = path.into_tokens();
        let again = parse_value(&tokens, Span::new(0, 0)).unwrap().expect_path().unwrap();
        exactly(&again.leading_colon, &leading);
        exactly(&again.segments.iter().map(|s| s.name.clone()).collect::<Vec<_>>(), &names);
    }
}

#[test]
fn identifiers_compare_by_text() {
    assert!(ident("FromStr", 0).is("FromStr"));
    assert!(!ident("FromStr", 0).is("fromstr"));
    assert!(!ident("FromStr", 0).is("FromStr2"));
    assert!(value("FromStr").unwrap().is_ident("FromStr"));
    assert!(!value("FromStr::x").unwrap().is_ident("FromStr"));
    assert!(!value("\"FromStr\"").unwrap().is_ident("FromStr"));
    exactly(&Ident::new("abc", Span::new(1, 2)), &ident("abc", 1));
    exactly(&Ident::new("abc", Span::new(1, 2)).duplicate(), &ident("abc", 1));
    exactly(&LitStr::new("abc", Span::new(1, 2)).duplicate(), &LitStr { value: "abc".to_string(), span: Span::new(1, 2) });
}

#[test]
fn copies_of_tokens_are_equal_to_them() {
    let tokens = lex("a: { b: [1, (2, \"x\")], c: d::e }");
    exactly(&duplicate_tokens(&tokens), &tokens);
    exactly(&tokens[2].duplicate(), &tokens[2]);
    exactly(&tokens[2].span(), &Span::new(2, 22));
}

#[test]
fn copies_of_values_are_equal_to_them() {
    let parsed = object("a: \"s\", b: true, c: name, d: x::y, e: { f: 1 + 2, g: { } }").unwrap();
    let copy = parsed.clone();
    exactly(&copy, &parsed);
    exactly(&parsed.duplicate().into_entries(), &copy.into_entries());
    for entry in parsed.entries() {
        exactly(&entry.value.duplicate(), &entry.value);
        exactly(&entry.clone(), &*entry);
    }
    let code = value("f(1, [2, 3])").unwrap().expect_expr().unwrap();
    exactly(&code.duplicate(), &code);
    exactly(&code.tokens[1].clone(), &code.tokens[1]);
}

#[test]
fn spans_join_to_the_smallest_cover() {
    exactly(&Span::new(2, 5).join(Span::new(7, 9)), &Span::new(2, 9));
    exactly(&Span::new(7, 9).join(Span::new(2, 5)), &Span::new(2, 9));
    exactly(&Span::new(2, 9).join(Span::new(3, 4)), &Span::new(2, 9));
    exactly(&Span::new(3, 4).join(Span::new(3, 4)), &Span::new(3, 4));
}

#[test]
fn failures_have_a_text() {
    let message = |kind, name: &str| Diagnostic::new(kind, Span::new(0, 0), name).message();
    exactly(&message(ErrorKind::DuplicateKey, "a"), &"duplicate entry: a");
    exactly(&message(ErrorKind::TypeMismatch, "path"), &"expected path");
    exactly(&message(ErrorKind::UnknownKey, "foo"), &"invalid key in type definition: foo");
    exactly(&message(ErrorKind::ReservedKey, "format"), &"illegal key, will be autogenerated: format");
    exactly(&message(ErrorKind::MissingField, "description"), &"missing field: description");
    exactly(&message(ErrorKind::UnsupportedVariantShape, "B"), &"enums with fields are not supported: B");
    exactly(&message(ErrorKind::InvalidCliMode, "cli"), &"invalid value for: cli");
    exactly(&message(ErrorKind::Syntax, "key"), &"syntax error, expected key");
}
