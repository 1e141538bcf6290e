//! What holds of every annotation: the laws that the readers and builders
//! of this crate obey, each proved from their definitions.

use vstd::prelude::*;
use crate::api_def::{
    common_cli, common_description, common_from_object, entry_problem, first_problem,
    is_parameter_key, lemma_first_problem, lemma_lookup_push, lemma_parameter_keys_distinct,
    parameter_from_expression, parameter_from_object, resolve_cli_mode, unknown_key, CliModeModel,
    ParameterDefinitionModel,
};
use crate::enums::{
    args_rename, attrs_rename, enum_code, enum_schema, first_unnamed, is_rename_tag,
    lemma_first_unnamed, parse_args, prepared_attributes, read_arg, rename_of, reserved_key,
    unsupported_variant, variant_name, variant_names, AttrArgModel, AttributeModel,
    EnumSchemaModel, Fields, ItemEnumModel, VariantModel,
};
use crate::coerce::{path_separator, segments_tokens};
use crate::error::DiagnosticModel;
use crate::parsing::{
    duplicate_key, entry_key, entry_value, is_path, is_path_body, is_separator_at,
    lemma_next_comma, next_comma, parse_entries, parse_body_tokens, path_body, path_of,
};
use crate::span::Span;
use crate::token::{Delimiter, IdentModel, LitStrModel, TokenModel};
use crate::value::{
    lemma_index_of_key_range, unique_keys, EntryModel, ExprModel, LitBool, ObjectModel, PathModel,
    ValueModel,
};

verus! {

/// An object of a single entry.
pub open spec fn object_of_one(key: IdentModel, value: ValueModel, span: Span) -> ObjectModel {
    ObjectModel { entries: seq![EntryModel { key, value }], span }
}

/// An object of two entries.
pub open spec fn object_of_two(
    first_key: IdentModel,
    first_value: ValueModel,
    second_key: IdentModel,
    second_value: ValueModel,
    span: Span,
) -> ObjectModel {
    ObjectModel {
        entries: seq![
            EntryModel { key: first_key, value: first_value },
            EntryModel { key: second_key, value: second_value },
        ],
        span,
    }
}

/// A parameter definition with an unrecognized key is refused. The failure
/// is `UnknownKey`, naming the key and pointing at it, whenever nothing is
/// wrong with the entries that stand before it.
pub proof fn lemma_unknown_key_is_refused(object: ObjectModel, at: int)
    requires
        0 <= at < object.entries.len(),
        !is_parameter_key(object.entries[at].key.name),
    ensures
        parameter_from_object(object) is Err,
        (forall|j: int| 0 <= j < at ==> entry_problem(object.entries[j]) is None)
            ==> parameter_from_object(object) == Err::<ParameterDefinitionModel, DiagnosticModel>(
            unknown_key(object.entries[at].key),
        ),
{
    lemma_first_problem_range(object.entries);
    if forall|j: int| 0 <= j < at ==> entry_problem(object.entries[j]) is None {
        lemma_first_problem(object.entries, at);
    }
}

/// What `first_problem` returns is in range, something is wrong with the
/// entry there, and nothing is wrong with the entries before it.
pub proof fn lemma_first_problem_range(entries: Seq<EntryModel>)
    ensures
        0 <= first_problem(entries) <= entries.len(),
        first_problem(entries) < entries.len() ==> entry_problem(
            entries[first_problem(entries)],
        ) is Some,
        forall|j: int| 0 <= j < first_problem(entries) ==> entry_problem(entries[j]) is None,
    decreases entries.len(),
{
    if entries.len() > 0 && entry_problem(entries[0]) is None {
        let rest = entries.drop_first();
        lemma_first_problem_range(rest);
        assert forall|j: int| 0 <= j < first_problem(entries) implies entry_problem(entries[j])
            is None by {
            if j > 0 {
                assert(rest[j - 1] == entries[j]);
            }
        }
    }
}

/// A bare string literal is a parameter definition that says the same as
/// the object `{ description: <that literal> }`, wherever the two were
/// written.
pub proof fn lemma_bare_literal_is_description(lit: LitStrModel, key_span: Span, span: Span)
    ensures
        parameter_from_expression(ValueModel::StringLiteral(lit)) == parameter_from_object(
            object_of_one(
                IdentModel { name: "description"@, span: key_span },
                ValueModel::StringLiteral(lit),
                span,
            ),
        ),
{
    let key = IdentModel { name: "description"@, span: key_span };
    let object = object_of_one(key, ValueModel::StringLiteral(lit), span);
    let none = ObjectModel { entries: Seq::empty(), span };
    lemma_parameter_keys_distinct();
    assert(none.push(key, ValueModel::StringLiteral(lit)).entries =~= object.entries);
    lemma_all_fields_after_push(none, key, ValueModel::StringLiteral(lit));
    lemma_first_problem(object.entries, 1);
}

/// What every key gives once an entry with a new key is added.
proof fn lemma_all_fields_after_push(object: ObjectModel, key: IdentModel, value: ValueModel)
    requires
        !object.contains_key(key.name),
    ensures
        forall|name: Seq<char>| #[trigger]
            object.push(key, value).lookup(name) == (if name == key.name {
                Some(value)
            } else {
                object.lookup(name)
            }),
{
    assert forall|name: Seq<char>| #[trigger]
        object.push(key, value).lookup(name) == (if name == key.name {
            Some(value)
        } else {
            object.lookup(name)
        }) by {
        lemma_lookup_push(object, key, value, name);
    }
}

/// `serialization = module` says the same as `serialize_with =
/// module::serialize` together with `deserialize_with = module::deserialize`:
/// both give the same two serializer functions, name by name, and nothing
/// else.
pub proof fn lemma_serialization_is_both_serializers(
    module: ValueModel,
    serialize: PathModel,
    deserialize: PathModel,
    sugar_key: Span,
    serialize_key: Span,
    deserialize_key: Span,
    sugar_span: Span,
    plain_span: Span,
)
    requires
        module.expect_path() is Ok,
        serialize.leading_colon == module.expect_path()->Ok_0.leading_colon,
        deserialize.leading_colon == module.expect_path()->Ok_0.leading_colon,
        serialize.names() == module.expect_path()->Ok_0.names().push("serialize"@),
        deserialize.names() == module.expect_path()->Ok_0.names().push("deserialize"@),
    ensures
        ({
            let sugar = parameter_from_object(
                object_of_one(
                    IdentModel { name: "serialization"@, span: sugar_key },
                    module,
                    sugar_span,
                ),
            );
            let plain = parameter_from_object(
                object_of_two(
                    IdentModel { name: "serialize_with"@, span: serialize_key },
                    ValueModel::Path(serialize),
                    IdentModel { name: "deserialize_with"@, span: deserialize_key },
                    ValueModel::Path(deserialize),
                    plain_span,
                ),
            );
            &&& sugar matches Ok(short)
            &&& plain matches Ok(long)
            &&& short.serialize_with matches Some(short_serialize)
            &&& long.serialize_with matches Some(long_serialize)
            &&& short.deserialize_with matches Some(short_deserialize)
            &&& long.deserialize_with matches Some(long_deserialize)
            &&& short_serialize.names() == long_serialize.names()
            &&& short_serialize.leading_colon == long_serialize.leading_colon
            &&& short_deserialize.names() == long_deserialize.names()
            &&& short_deserialize.leading_colon == long_deserialize.leading_colon
            &&& short == ParameterDefinitionModel {
                serialize_with: short.serialize_with,
                deserialize_with: short.deserialize_with,
                ..ParameterDefinitionModel::empty()
            }
            &&& long == ParameterDefinitionModel {
                serialize_with: long.serialize_with,
                deserialize_with: long.deserialize_with,
                ..ParameterDefinitionModel::empty()
            }
        }),
{
    lemma_parameter_keys_distinct();
    let sugar_ident = IdentModel { name: "serialization"@, span: sugar_key };
    let serialize_ident = IdentModel { name: "serialize_with"@, span: serialize_key };
    let deserialize_ident = IdentModel { name: "deserialize_with"@, span: deserialize_key };
    let short_object = object_of_one(sugar_ident, module, sugar_span);
    let long_object = object_of_two(
        serialize_ident,
        ValueModel::Path(serialize),
        deserialize_ident,
        ValueModel::Path(deserialize),
        plain_span,
    );
    let none_short = ObjectModel { entries: Seq::empty(), span: sugar_span };
    assert(none_short.push(sugar_ident, module).entries =~= short_object.entries);
    lemma_all_fields_after_push(none_short, sugar_ident, module);
    lemma_first_problem(short_object.entries, 1);

    let none_long = ObjectModel { entries: Seq::empty(), span: plain_span };
    let one_long = none_long.push(serialize_ident, ValueModel::Path(serialize));
    lemma_all_fields_after_push(none_long, serialize_ident, ValueModel::Path(serialize));
    assert(one_long.push(deserialize_ident, ValueModel::Path(deserialize)).entries
        =~= long_object.entries);
    lemma_index_of_key_range(one_long.entries, "deserialize_with"@);
    lemma_all_fields_after_push(one_long, deserialize_ident, ValueModel::Path(deserialize));
    lemma_first_problem(long_object.entries, 2);

    let path = module.expect_path()->Ok_0;
    let short_serialize = path.join(IdentModel { name: "serialize"@, span: sugar_span });
    let short_deserialize = path.join(IdentModel { name: "deserialize"@, span: sugar_span });
    assert(short_serialize.names() =~= path.names().push("serialize"@));
    assert(short_deserialize.names() =~= path.names().push("deserialize"@));
}

/// What each way of writing `cli` asks for: `true` asks for the type's own
/// parser, `false` switches command line parsing off, the identifier
/// `FromStr` asks for `FromStr`, and any other identifier names a function.
pub proof fn lemma_cli_modes(span: Span, function: IdentModel)
    requires
        function.name != "FromStr"@,
    ensures
        resolve_cli_mode(ValueModel::BoolLiteral(LitBool { value: true, span })) == Ok::<
            CliModeModel,
            DiagnosticModel,
        >(CliModeModel::ParseCli),
        resolve_cli_mode(ValueModel::BoolLiteral(LitBool { value: false, span })) == Ok::<
            CliModeModel,
            DiagnosticModel,
        >(CliModeModel::Disabled),
        resolve_cli_mode(ValueModel::Identifier(IdentModel { name: "FromStr"@, span })) == Ok::<
            CliModeModel,
            DiagnosticModel,
        >(CliModeModel::FromStr),
        resolve_cli_mode(ValueModel::Identifier(function)) == Ok::<CliModeModel, DiagnosticModel>(
            CliModeModel::Function(ValueModel::Identifier(function).code()),
        ),
{
}

/// Without a `cli` entry a type uses its own command line parser.
pub proof fn lemma_cli_defaults_to_parse_cli(object: ObjectModel)
    requires
        common_description(object) matches Some(Ok(_)),
        common_cli(object) is None,
    ensures
        common_from_object(object) matches Ok(definition) && definition.cli
            == CliModeModel::ParseCli,
{
}

/// An annotation of an enum that gives a `format` is refused with
/// `ReservedKey`, pointing at the value given, whatever else it holds.
pub proof fn lemma_format_is_reserved(attribs: ObjectModel, enum_token: Span)
    requires
        attribs.contains_key("format"@),
    ensures
        prepared_attributes(attribs, enum_token) == Err::<ObjectModel, DiagnosticModel>(
            reserved_key(attribs.get("format"@).span(), "format"@),
        ),
{
    reveal_strlit("format");
    reveal_strlit("type");
    assert("format"@.len() == 6);
    assert("type"@.len() == 4);
    if !attribs.contains_key("type"@) {
        lemma_lookup_push(
            attribs,
            IdentModel { name: "type"@, span: attribs.span },
            ValueModel::Identifier(IdentModel { name: "String"@, span: enum_token }),
            "format"@,
        );
    }
}

/// Attributes of which none may rename give no new name.
pub proof fn lemma_no_rename_tag_no_rename(attrs: Seq<AttributeModel>, from: int)
    requires
        0 <= from,
        forall|a: int| 0 <= a < attrs.len() ==> !is_rename_tag(#[trigger] attrs[a].path),
    ensures
        attrs_rename(attrs, from, None) == Ok::<Option<LitStrModel>, DiagnosticModel>(None),
    decreases attrs.len() - from,
{
    if from < attrs.len() {
        lemma_no_rename_tag_no_rename(attrs, from + 1);
    }
}

/// What `first_unnamed` returns is in range, the variant there has no name,
/// and the variants before it have one.
pub proof fn lemma_first_unnamed_range(variants: Seq<VariantModel>)
    ensures
        0 <= first_unnamed(variants) <= variants.len(),
        first_unnamed(variants) < variants.len() ==> variant_name(
            variants[first_unnamed(variants)],
        ) is Err,
        forall|j: int| 0 <= j < first_unnamed(variants) ==> variant_name(variants[j]) is Ok,
    decreases variants.len(),
{
    if variants.len() > 0 && variant_name(variants[0]) is Ok {
        let rest = variants.drop_first();
        lemma_first_unnamed_range(rest);
        assert forall|j: int| 0 <= j < first_unnamed(variants) implies variant_name(variants[j])
            is Ok by {
            if j > 0 {
                assert(rest[j - 1] == variants[j]);
            }
        }
    }
}

/// An enum whose variants carry nothing, and no attribute that may rename
/// them, has a schema that lists the identifiers of the variants, one for
/// each and in the order in which they are declared.
pub proof fn lemma_names_are_the_identifiers(variants: Seq<VariantModel>)
    requires
        forall|i: int| 0 <= i < variants.len() ==> (#[trigger] variants[i]).fields == Fields::Unit,
        forall|i: int, a: int|
            0 <= i < variants.len() && 0 <= a < variants[i].attrs.len() ==> !is_rename_tag(
                #[trigger] variants[i].attrs[a].path,
            ),
    ensures
        variant_names(variants) == Ok::<Seq<LitStrModel>, DiagnosticModel>(
            Seq::new(
                variants.len(),
                |i: int|
                    LitStrModel { value: variants[i].ident.name, span: variants[i].ident.span },
            ),
        ),
{
    assert forall|i: int| 0 <= i < variants.len() implies variant_name(variants[i]) == Ok::<
        LitStrModel,
        DiagnosticModel,
    >(LitStrModel { value: variants[i].ident.name, span: variants[i].ident.span }) by {
        assert(variants[i].fields == Fields::Unit);
        lemma_no_rename_tag_no_rename(variants[i].attrs, 0);
    }
    lemma_first_unnamed(variants, variants.len() as int);
    assert(variant_names(variants)->Ok_0 =~= Seq::new(
        variants.len(),
        |i: int| LitStrModel { value: variants[i].ident.name, span: variants[i].ident.span },
    ));
}

/// The name of every variant depends on that variant alone: where all
/// variants have a name, the schema lists exactly the name of each, at the
/// position of the variant.
pub proof fn lemma_names_are_pointwise(variants: Seq<VariantModel>)
    ensures
        variant_names(variants) matches Ok(names) ==> names.len() == variants.len() && forall|
            i: int,
        |
            0 <= i < variants.len() ==> variant_name(#[trigger] variants[i]) == Ok::<
                LitStrModel,
                DiagnosticModel,
            >(names[i]),
{
    lemma_first_unnamed_range(variants);
}

/// The tokens of the attribute argument `(rename = "..")`.
pub open spec fn rename_tokens(
    rename: Span,
    eq_span: Span,
    name: LitStrModel,
    group: Span,
) -> Seq<TokenModel> {
    seq![
        TokenModel::Group {
            delimiter: Delimiter::Parenthesis,
            tokens: seq![
                TokenModel::Ident(IdentModel { name: "rename"@, span: rename }),
                TokenModel::Punct { ch: '=', joint: false, span: eq_span },
                TokenModel::Str(name),
            ],
            span: group,
        },
    ]
}

/// A variant that carries nothing and the single attribute
/// `#[tag(rename = "name")]`, where `tag` may rename, appears in the schema
/// under `name` in place of its identifier.
pub proof fn lemma_rename_replaces_the_identifier(
    variant: VariantModel,
    name: LitStrModel,
    rename: Span,
    eq_span: Span,
    group: Span,
)
    requires
        variant.fields == Fields::Unit,
        variant.attrs.len() == 1,
        is_rename_tag(variant.attrs[0].path),
        variant.attrs[0].tokens == rename_tokens(rename, eq_span, name, group),
    ensures
        variant_name(variant) == Ok::<LitStrModel, DiagnosticModel>(name),
{
    let inner = rename_tokens(rename, eq_span, name, group)[0]->Group_tokens;
    assert(inner.len() == 3);
    lemma_next_comma(inner, 0);
    assert(next_comma(inner, 0) == 3) by {
        reveal_with_fuel(next_comma, 5);
    }
    let part = inner.subrange(0, 3);
    assert(part =~= inner);
    assert(read_arg(part) == AttrArgModel::NameValue {
        name: IdentModel { name: "rename"@, span: rename },
        value: part.skip(2),
        eq_span,
    });
    assert(part.skip(2) =~= seq![TokenModel::Str(name)]);
    let args = seq![read_arg(part)];
    assert(Seq::<AttrArgModel>::empty().push(read_arg(part)) =~= args);
    assert(parse_args(inner, 0, Seq::empty()) == Ok::<Seq<AttrArgModel>, DiagnosticModel>(args));
    assert(rename_of(args[0]) == Some(Ok::<LitStrModel, DiagnosticModel>(name)));
    assert(args_rename(args, 0, None) == Ok::<Option<LitStrModel>, DiagnosticModel>(Some(name)))
        by {
        reveal_with_fuel(args_rename, 3);
    }
    assert(attrs_rename(variant.attrs, 0, None) == Ok::<Option<LitStrModel>, DiagnosticModel>(
        Some(name),
    )) by {
        reveal_with_fuel(attrs_rename, 3);
    }
}

/// An enum with a variant that carries fields has no schema, however many
/// of its variants carry none. The failure is `UnsupportedVariantShape`,
/// pointing at that variant, whenever the variants before it have a name.
pub proof fn lemma_variant_with_fields_is_refused(variants: Seq<VariantModel>, at: int)
    requires
        0 <= at < variants.len(),
        variants[at].fields != Fields::Unit,
    ensures
        variant_names(variants) is Err,
        (forall|j: int| 0 <= j < at ==> variant_name(variants[j]) is Ok) ==> variant_names(variants)
            == Err::<Seq<LitStrModel>, DiagnosticModel>(unsupported_variant(variants[at])),
{
    lemma_first_unnamed_range(variants);
    if forall|j: int| 0 <= j < at ==> variant_name(variants[j]) is Ok {
        lemma_first_unnamed(variants, at);
    }
}

/// An enum with a variant that carries fields gets no schema and no code,
/// whatever the base schema came to.
pub proof fn lemma_enum_with_fields_has_no_schema(
    item: ItemEnumModel,
    schema: Result<ExprModel, DiagnosticModel>,
    at: int,
)
    requires
        0 <= at < item.variants.len(),
        item.variants[at].fields != Fields::Unit,
    ensures
        enum_schema(item, schema) is Err,
        enum_code(item, schema) is Err,
        schema is Ok && (forall|j: int| 0 <= j < at ==> variant_name(item.variants[j]) is Ok)
            ==> enum_schema(item, schema) == Err::<EnumSchemaModel, DiagnosticModel>(
            unsupported_variant(item.variants[at]),
        ),
{
    lemma_variant_with_fields_is_refused(item.variants, at);
}

/// The schema of an enum lists exactly one name for each variant, in the
/// order of the variants.
pub proof fn lemma_schema_lists_every_variant(
    item: ItemEnumModel,
    schema: Result<ExprModel, DiagnosticModel>,
)
    ensures
        enum_schema(item, schema) matches Ok(found) ==> {
            &&& found.name == item.ident
            &&& schema == Ok::<ExprModel, DiagnosticModel>(found.schema)
            &&& found.variants.len() == item.variants.len()
            &&& forall|i: int|
                0 <= i < item.variants.len() ==> variant_name(#[trigger] item.variants[i]) == Ok::<
                    LitStrModel,
                    DiagnosticModel,
                >(found.variants[i])
        },
{
    lemma_names_are_pointwise(item.variants);
}

/// The keys that are declared from position `from` on: the identifier at
/// the start of each piece between commas.
pub open spec fn declared_keys(tokens: Seq<TokenModel>, from: int) -> Seq<Seq<char>>
    decreases tokens.len() - from,
{
    if from < 0 || from >= tokens.len() {
        Seq::empty()
    } else {
        let end = next_comma(tokens, from);
        let key = seq![tokens[from]->Ident_0.name];
        if from <= end < tokens.len() {
            key + declared_keys(tokens, end + 1)
        } else {
            key
        }
    }
}

/// Reading entries keeps the order in which they are declared, and never
/// lets a key in twice: the keys of the object read are the keys it had,
/// followed by the declared keys in their order, and they differ from one
/// another if they did before.
pub proof fn lemma_entries_keep_their_order(tokens: Seq<TokenModel>, from: int, object: ObjectModel)
    requires
        0 <= from,
    ensures
        parse_entries(tokens, from, object) matches Ok(read) ==> {
            &&& read.keys() == object.keys() + declared_keys(tokens, from)
            &&& read.span == object.span
            &&& unique_keys(object.entries) ==> unique_keys(read.entries)
        },
    decreases tokens.len() - from,
{
    if from < tokens.len() {
        lemma_next_comma(tokens, from);
        let end = next_comma(tokens, from);
        if parse_entries(tokens, from, object) is Ok {
            let read = parse_entries(tokens, from, object)->Ok_0;
            let key = entry_key(tokens, from, end)->Ok_0;
            let value = entry_value(tokens, from, end)->Ok_0;
            let longer = object.push(key, value);
            assert(longer.keys() =~= object.keys().push(key.name));
            if unique_keys(object.entries) {
                lemma_index_of_key_range(object.entries, key.name);
                assert(unique_keys(longer.entries));
            }
            if end < tokens.len() {
                lemma_entries_keep_their_order(tokens, end + 1, longer);
            }
            assert(read.keys() =~= object.keys() + declared_keys(tokens, from));
        }
    } else {
        assert(object.keys() + declared_keys(tokens, from) =~= object.keys());
    }
}

/// Reading an object keeps the declaration order: the keys of the object
/// read are the declared keys, in the order in which they were written.
pub proof fn lemma_object_keeps_declaration_order(tokens: Seq<TokenModel>, span: Span)
    ensures
        parse_body_tokens(tokens, span) matches Ok(read) ==> read.keys() == declared_keys(
            tokens,
            0,
        ),
{
    let none = ObjectModel { entries: Seq::empty(), span };
    lemma_entries_keep_their_order(tokens, 0, none);
    assert(none.keys() =~= Seq::empty());
    assert(none.keys() + declared_keys(tokens, 0) =~= declared_keys(tokens, 0));
}

/// No object is read from tokens that declare a key twice: in every object
/// read the keys differ from one another.
pub proof fn lemma_object_read_has_unique_keys(tokens: Seq<TokenModel>, span: Span)
    ensures
        parse_body_tokens(tokens, span) matches Ok(read) ==> unique_keys(read.entries)
            && declared_keys(tokens, 0).no_duplicates(),
{
    let none = ObjectModel { entries: Seq::empty(), span };
    lemma_entries_keep_their_order(tokens, 0, none);
    lemma_object_keeps_declaration_order(tokens, span);
    if parse_body_tokens(tokens, span) is Ok {
        let read = parse_body_tokens(tokens, span)->Ok_0;
        let keys = read.keys();
        assert forall|i: int, j: int| 0 <= i < keys.len() && 0 <= j < keys.len() && i != j implies keys[i]
            != keys[j] by {
            if i < j {
                assert(read.entries[i].key.name != read.entries[j].key.name);
            } else {
                assert(read.entries[j].key.name != read.entries[i].key.name);
            }
        }
    }
}

/// An entry whose key was given before is refused with `DuplicateKey`,
/// pointing at the second occurrence, whatever value is written for it.
pub proof fn lemma_duplicate_key_is_refused(
    tokens: Seq<TokenModel>,
    from: int,
    object: ObjectModel,
)
    requires
        0 <= from < tokens.len(),
        entry_key(tokens, from, next_comma(tokens, from)) matches Ok(key) && object.contains_key(
            key.name,
        ),
        entry_value(tokens, from, next_comma(tokens, from)) is Ok,
    ensures
        parse_entries(tokens, from, object) == Err::<ObjectModel, DiagnosticModel>(
            duplicate_key(entry_key(tokens, from, next_comma(tokens, from))->Ok_0),
        ),
{
}


/// How the tokens of path segments are laid out: every third token is a
/// segment, and a separator stands between two segments.
pub proof fn lemma_segments_layout(segments: Seq<IdentModel>, span: Span)
    requires
        segments.len() >= 1,
    ensures
        segments_tokens(segments, span).len() == 3 * segments.len() - 2,
        forall|k: int|
            0 <= k < segments.len() ==> #[trigger] segments_tokens(segments, span)[3 * k]
                == TokenModel::Ident(segments[k]),
        forall|k: int|
            0 <= k < segments.len() - 1 ==> #[trigger] is_separator_at(
                segments_tokens(segments, span),
                3 * k + 1,
            ),
    decreases segments.len(),
{
    let tokens = segments_tokens(segments, span);
    if segments.len() > 1 {
        let shorter = segments.drop_last();
        let before = segments_tokens(shorter, span);
        lemma_segments_layout(shorter, span);
        let n = segments.len() as int;
        assert(tokens =~= before + path_separator(span) + seq![
            TokenModel::Ident(segments.last()),
        ]);
        assert(before.len() == 3 * n - 5);
        assert forall|k: int| 0 <= k < n implies #[trigger] tokens[3 * k] == TokenModel::Ident(
            segments[k],
        ) by {
            if k < n - 1 {
                assert(tokens[3 * k] == before[3 * k]);
                assert(shorter[k] == segments[k]);
            }
        }
        assert forall|k: int| 0 <= k < n - 1 implies #[trigger] is_separator_at(
            tokens,
            3 * k + 1,
        ) by {
            if k < n - 2 {
                assert(is_separator_at(before, 3 * k + 1));
                assert(tokens[3 * k + 1] == before[3 * k + 1]);
                assert(tokens[3 * k + 2] == before[3 * k + 2]);
            } else {
                assert(tokens[3 * k + 1] == path_separator(span)[0]);
                assert(tokens[3 * k + 2] == path_separator(span)[1]);
            }
        }
    }
}

/// A path that is written out as tokens is read back as it was: the tokens
/// are a path as soon as they are more than a lone identifier, and that path
/// has the same segments and the same leading separator.
pub proof fn lemma_written_path_is_read_back(path: PathModel)
    requires
        path.segments.len() >= 1,
    ensures
        is_path(path.tokens()) <==> path.leading_colon || path.segments.len() >= 2,
        path_of(path.tokens()).leading_colon == path.leading_colon,
        path_of(path.tokens()).segments == path.segments,
{
    let body = segments_tokens(path.segments, path.span);
    let tokens = path.tokens();
    lemma_segments_layout(path.segments, path.span);
    assert(body[3 * 0int] == TokenModel::Ident(path.segments[0]));
    if path.leading_colon {
        assert(tokens[0] == path_separator(path.span)[0]);
        assert(tokens[1] == path_separator(path.span)[1]);
        assert(is_separator_at(tokens, 0));
        assert(tokens.skip(2) =~= body);
    } else {
        assert(tokens[0] is Ident);
        assert(!is_separator_at(tokens, 0));
    }
    assert(path_body(tokens) == body);
    assert forall|i: int| 0 <= i < body.len() && i % 3 == 0 implies (#[trigger] body[i])
        is Ident by {
        let k = i / 3;
        assert(body[3 * k] == TokenModel::Ident(path.segments[k]));
    }
    assert forall|i: int| 0 <= i < body.len() && i % 3 == 1 implies #[trigger] is_separator_at(
        body,
        i,
    ) by {
        let k = i / 3;
        assert(is_separator_at(body, 3 * k + 1));
    }
    assert(is_path_body(body));
    assert forall|k: int| 0 <= k < path.segments.len() implies body[3 * k]->Ident_0
        == path.segments[k] by {
        assert(body[3 * k] == TokenModel::Ident(path.segments[k]));
    }
    assert(path_of(tokens).segments =~= path.segments);
}


} // verus!
