//! The document conversion: from the older-format model to the
//! newer-format model.  The conversion is total: unrecognized shapes
//! degrade to documented fallbacks instead of failing.

use vstd::prelude::*;
use vstd::string::StringExecFns;
use crate::schema::{
    clone_opt_string, ext_pairs_v, insert_str_v, lemma_strings_v_insert, lit_v, opt_lit_v,
    opt_str_v, schema_v, str_set_insert, strings_v, clone_opt_literal, clone_extensions,
    clone_strings, DataType, DataTypeFormat, Literal, Schema,
};
use crate::operation::ItemsDesc;
use crate::text::{rewrite_ref, rewritten_ref};
use crate::v3::{
    lemma_v3_props_view, lemma_v3_refs_view, opt_v3_ref_v, str_format_field_v, v3_kind_view,
    v3_props_view, v3_ref_view, v3_refs_view, v3_schema_view, IntFormat, NumFormat, StrFormat,
    StrFormatField, StrFormatFieldV, V3KindV, V3RefV, V3Schema, V3SchemaKind, V3SchemaOrRef,
    V3SchemaV,
};

verus! {

/// The textual token of a format, as the older format writes it.
pub open spec fn format_token_v(f: DataTypeFormat) -> Seq<char> {
    match f {
        DataTypeFormat::Int32 => "int32"@,
        DataTypeFormat::Int64 => "int64"@,
        DataTypeFormat::Float => "float"@,
        DataTypeFormat::Double => "double"@,
        DataTypeFormat::Byte => "byte"@,
        DataTypeFormat::Binary => "binary"@,
        DataTypeFormat::Date => "date"@,
        DataTypeFormat::DateTime => "date-time"@,
        DataTypeFormat::Password => "password"@,
        DataTypeFormat::Url => "url"@,
        DataTypeFormat::Uuid => "uuid"@,
        DataTypeFormat::Ip => "ip"@,
        DataTypeFormat::IpV4 => "ipv4"@,
        DataTypeFormat::IpV6 => "ipv6"@,
        DataTypeFormat::Other => "other"@,
    }
}

/// The textual token of a format.
pub fn format_token(f: DataTypeFormat) -> (r: &'static str)
    ensures
        r@ == format_token_v(f),
{
    match f {
        DataTypeFormat::Int32 => "int32",
        DataTypeFormat::Int64 => "int64",
        DataTypeFormat::Float => "float",
        DataTypeFormat::Double => "double",
        DataTypeFormat::Byte => "byte",
        DataTypeFormat::Binary => "binary",
        DataTypeFormat::Date => "date",
        DataTypeFormat::DateTime => "date-time",
        DataTypeFormat::Password => "password",
        DataTypeFormat::Url => "url",
        DataTypeFormat::Uuid => "uuid",
        DataTypeFormat::Ip => "ip",
        DataTypeFormat::IpV4 => "ipv4",
        DataTypeFormat::IpV6 => "ipv6",
        DataTypeFormat::Other => "other",
    }
}

/// The textual token of a data kind, as the older format writes it.
pub open spec fn data_type_token_v(dt: DataType) -> Seq<char> {
    match dt {
        DataType::Integer => "integer"@,
        DataType::Number => "number"@,
        DataType::Text => "string"@,
        DataType::Boolean => "boolean"@,
        DataType::Array => "array"@,
        DataType::Object => "object"@,
        DataType::File => "file"@,
    }
}

/// The textual token of a data kind.
pub fn data_type_token(dt: DataType) -> (r: &'static str)
    ensures
        r@ == data_type_token_v(dt),
{
    match dt {
        DataType::Integer => "integer",
        DataType::Number => "number",
        DataType::Text => "string",
        DataType::Boolean => "boolean",
        DataType::Array => "array",
        DataType::Object => "object",
        DataType::File => "file",
    }
}

/// An integer kind's refinement: only the two integer formats survive;
/// any other refinement degrades to absent.
pub open spec fn conv_int_format(f: Option<DataTypeFormat>) -> Option<IntFormat> {
    match f {
        Some(DataTypeFormat::Int32) => Some(IntFormat::Int32),
        Some(DataTypeFormat::Int64) => Some(IntFormat::Int64),
        _ => None,
    }
}

/// A number kind's refinement: only the two number formats survive; any
/// other refinement degrades to absent.
pub open spec fn conv_num_format(f: Option<DataTypeFormat>) -> Option<NumFormat> {
    match f {
        Some(DataTypeFormat::Float) => Some(NumFormat::Float),
        Some(DataTypeFormat::Double) => Some(NumFormat::Double),
        _ => None,
    }
}

/// A string kind's refinement: the five string formats survive; any other
/// refinement is kept as an unknown token, preserving its text.
pub open spec fn conv_str_format(f: Option<DataTypeFormat>) -> StrFormatFieldV {
    match f {
        None => StrFormatFieldV::Empty,
        Some(DataTypeFormat::Byte) => StrFormatFieldV::Known(StrFormat::Byte),
        Some(DataTypeFormat::Binary) => StrFormatFieldV::Known(StrFormat::Binary),
        Some(DataTypeFormat::Date) => StrFormatFieldV::Known(StrFormat::Date),
        Some(DataTypeFormat::DateTime) => StrFormatFieldV::Known(StrFormat::DateTime),
        Some(DataTypeFormat::Password) => StrFormatFieldV::Known(StrFormat::Password),
        Some(other) => StrFormatFieldV::Unknown(format_token_v(other)),
    }
}

/// A string kind's refinement.
fn str_format_of(f: Option<DataTypeFormat>) -> (r: StrFormatField)
    ensures
        str_format_field_v(r) == conv_str_format(f),
{
    match f {
        None => StrFormatField::Empty,
        Some(DataTypeFormat::Byte) => StrFormatField::Known(StrFormat::Byte),
        Some(DataTypeFormat::Binary) => StrFormatField::Known(StrFormat::Binary),
        Some(DataTypeFormat::Date) => StrFormatField::Known(StrFormat::Date),
        Some(DataTypeFormat::DateTime) => StrFormatField::Known(StrFormat::DateTime),
        Some(DataTypeFormat::Password) => StrFormatField::Known(StrFormat::Password),
        Some(other) => StrFormatField::Unknown(format_token(other).to_owned()),
    }
}

/// An integer kind's refinement.
fn int_format_of(f: Option<DataTypeFormat>) -> (r: Option<IntFormat>)
    ensures
        r == conv_int_format(f),
{
    match f {
        Some(DataTypeFormat::Int32) => Some(IntFormat::Int32),
        Some(DataTypeFormat::Int64) => Some(IntFormat::Int64),
        _ => None,
    }
}

/// A number kind's refinement.
fn num_format_of(f: Option<DataTypeFormat>) -> (r: Option<NumFormat>)
    ensures
        r == conv_num_format(f),
{
    match f {
        Some(DataTypeFormat::Float) => Some(NumFormat::Float),
        Some(DataTypeFormat::Double) => Some(NumFormat::Double),
        _ => None,
    }
}

/// A literal read as an enumeration member of an integer kind: integers
/// survive; anything else degrades to an absent member.
pub open spec fn lit_int_opt(l: Literal) -> Option<i64> {
    match l {
        Literal::Int(i) => Some(i),
        _ => None,
    }
}

/// A literal read as an enumeration member of a string kind: text
/// survives; anything else degrades to an absent member.
pub open spec fn lit_str_opt_v(l: Literal) -> Option<Seq<char>> {
    match l {
        Literal::Str(s) => Some(s@),
        _ => None,
    }
}

/// The enumeration of an integer or number kind.
pub open spec fn int_enum_v(ls: Seq<Literal>) -> Seq<Option<i64>> {
    ls.map_values(|l: Literal| lit_int_opt(l))
}

/// The enumeration of a string kind.
pub open spec fn str_enum_v(ls: Seq<Literal>) -> Seq<Option<Seq<char>>> {
    ls.map_values(|l: Literal| lit_str_opt_v(l))
}

/// The enumeration of an integer or number kind.
fn int_enum(ls: &Vec<Literal>) -> (r: Vec<Option<i64>>)
    ensures
        r@ == int_enum_v(ls@),
{
    let mut r: Vec<Option<i64>> = Vec::new();
    let mut i: usize = 0;
    while i < ls.len()
        invariant
            i <= ls@.len(),
            r@.len() == i,
            forall|j: int| 0 <= j < i ==> r@[j] == lit_int_opt(ls@[j]),
        decreases ls.len() - i,
    {
        let e = match &ls[i] {
            Literal::Int(v) => Some(*v),
            _ => None,
        };
        r.push(e);
        i += 1;
    }
    proof {
        assert(r@ =~= int_enum_v(ls@));
    }
    r
}

/// The enumeration of a string kind.
fn str_enum(ls: &Vec<Literal>) -> (r: Vec<Option<String>>)
    ensures
        r@.map_values(|e: Option<String>| opt_str_v(e)) == str_enum_v(ls@),
{
    let mut r: Vec<Option<String>> = Vec::new();
    let mut i: usize = 0;
    while i < ls.len()
        invariant
            i <= ls@.len(),
            r@.len() == i,
            forall|j: int| 0 <= j < i ==> opt_str_v(#[trigger] r@[j]) == lit_str_opt_v(ls@[j]),
        decreases ls.len() - i,
    {
        let e = match &ls[i] {
            Literal::Str(s) => Some(s.clone()),
            _ => None,
        };
        r.push(e);
        i += 1;
    }
    proof {
        assert(r@.map_values(|e: Option<String>| opt_str_v(e)) =~= str_enum_v(ls@));
    }
    r
}

/// The placeholder schema a malformed construct degrades to: an empty
/// object carrying the human-readable message as its description, so that
/// one bad type cannot poison the rest of the document.
pub open spec fn invalid_ref_v(msg: Seq<char>) -> V3RefV {
    V3RefV::Item(
        Box::new(
            V3SchemaV {
                description: Some(msg),
                example: None,
                extensions: Seq::empty(),
                kind: V3KindV::ObjectKind { properties: Seq::empty(), required: Seq::empty() },
            },
        ),
    )
}

/// The placeholder schema a malformed construct degrades to.
fn invalid_ref(msg: String) -> (r: V3SchemaOrRef)
    ensures
        r@ == invalid_ref_v(msg@),
{
    let inner = V3Schema {
        description: Some(msg),
        example: None,
        extensions: Vec::new(),
        kind: V3SchemaKind::ObjectKind { properties: Vec::new(), required: Vec::new() },
    };
    let ghost ginner = inner;
    let ghost gmsg = inner.description->0;
    let r = V3SchemaOrRef::Item(Box::new(inner));
    proof {
        broadcast use lemma_v3_props_view, crate::v3::lemma_v3_kind_view_unfold,
            crate::v3::lemma_v3_ref_view_unfold, crate::v3::lemma_v3_schema_view_unfold;

        assert(v3_schema_view(ginner).extensions.len() == 0);
        assert(v3_schema_view(ginner).kind =~~= (V3KindV::ObjectKind {
            properties: Seq::empty(),
            required: Seq::empty(),
        }));
        assert(v3_schema_view(ginner) =~~= (V3SchemaV {
            description: Some(gmsg@),
            example: None,
            extensions: Seq::empty(),
            kind: V3KindV::ObjectKind { properties: Seq::empty(), required: Seq::empty() },
        }));
        assert(r@ == invalid_ref_v(gmsg@));
    }
    r
}

/// The newer-format shape of an older-format schema that declares a data
/// kind, as the kind dictates.  Unrecognized refinements degrade rather
/// than fail; a file kind becomes a binary string.
pub open spec fn spec_data_kind(s: Schema) -> V3KindV
    decreases s, 0nat,
{
    match s.data_type->0 {
        DataType::Integer => V3KindV::IntegerKind {
            int_format: conv_int_format(s.format),
            multiple_of: None,
            exclusive_minimum: false,
            exclusive_maximum: false,
            minimum: None,
            maximum: None,
            enumeration: int_enum_v(s.enum_@),
        },
        DataType::Number => V3KindV::NumberKind {
            num_format: conv_num_format(s.format),
            multiple_of: None,
            exclusive_minimum: false,
            exclusive_maximum: false,
            minimum: None,
            maximum: None,
            enumeration: int_enum_v(s.enum_@),
        },
        DataType::Text => V3KindV::StringKind {
            str_format: conv_str_format(s.format),
            pattern: None,
            str_enumeration: str_enum_v(s.enum_@),
            min_length: None,
            max_length: None,
        },
        DataType::Boolean => V3KindV::BooleanKind,
        DataType::Array => V3KindV::ArrayKind {
            items: match s.items {
                Some(b) => Some(Box::new(spec_schema_to_v3(*b))),
                None => None,
            },
            min_items: None,
            max_items: None,
            unique_items: false,
        },
        DataType::Object => V3KindV::ObjectKind {
            properties: spec_props_to_v3(s.properties@),
            required: strings_v(s.required@),
        },
        DataType::File => V3KindV::StringKind {
            str_format: StrFormatFieldV::Known(StrFormat::Binary),
            pattern: None,
            str_enumeration: Seq::empty(),
            min_length: None,
            max_length: None,
        },
    }
}

/// The newer-format shape of an older-format schema: its declared data
/// kind first; else its composition (`any_of`, then `all_of`); else a
/// single string constant becomes a one-member string enumeration; else
/// an empty object.
pub open spec fn spec_kind_of(s: Schema) -> V3KindV
    decreases s, 1nat,
{
    if s.data_type is Some {
        spec_data_kind(s)
    } else if s.any_of@.len() > 0 {
        V3KindV::AnyOfKind { any_of: spec_schemas_to_v3(s.any_of@) }
    } else if s.all_of@.len() > 0 {
        V3KindV::AllOfKind { all_of: spec_schemas_to_v3(s.all_of@) }
    } else {
        match s.const_ {
            Some(Literal::Str(c)) => V3KindV::StringKind {
                str_format: StrFormatFieldV::Empty,
                pattern: None,
                str_enumeration: seq![Some(c@)],
                min_length: None,
                max_length: None,
            },
            _ => V3KindV::ObjectKind { properties: Seq::empty(), required: Seq::empty() },
        }
    }
}

/// The newer-format property list of an older-format one, converted
/// pointwise.
pub open spec fn spec_props_to_v3(ps: Seq<(String, Schema)>) -> Seq<(Seq<char>, V3RefV)>
    decreases ps,
{
    if ps.len() == 0 {
        Seq::empty()
    } else {
        spec_props_to_v3(ps.drop_last()).push(
            (ps.last().0@, spec_schema_to_v3(ps.last().1)),
        )
    }
}

/// The newer-format schema list of an older-format one, converted
/// pointwise.
pub open spec fn spec_schemas_to_v3(ss: Seq<Schema>) -> Seq<V3RefV>
    decreases ss,
{
    if ss.len() == 0 {
        Seq::empty()
    } else {
        spec_schemas_to_v3(ss.drop_last()).push(spec_schema_to_v3(ss.last()))
    }
}

/// What an older-format schema converts to.
///
/// A schema bearing a reference becomes a pure reference node with the
/// path moved to the newer format; anything else becomes an inline schema
/// carrying the description, example and extensions, shaped by
/// `spec_kind_of`.
pub open spec fn spec_schema_to_v3(s: Schema) -> V3RefV
    decreases s, 2nat,
{
    match s.reference {
        Some(r) => V3RefV::Reference { reference: rewritten_ref(r@) },
        None => V3RefV::Item(
            Box::new(
                V3SchemaV {
                    description: opt_str_v(s.description),
                    example: opt_lit_v(s.example),
                    extensions: ext_pairs_v(s.extensions@),
                    kind: spec_kind_of(s),
                },
            ),
        ),
    }
}

/// The pointwise conversion of a property list, spelled out.
pub broadcast proof fn lemma_spec_props_to_v3(ps: Seq<(String, Schema)>)
    ensures
        (#[trigger] spec_props_to_v3(ps)).len() == ps.len(),
        forall|i: int|
            0 <= i < ps.len() ==> spec_props_to_v3(ps)[i] == (
            ps[i].0@,
            spec_schema_to_v3(ps[i].1),
            ),
    decreases ps,
{
    if ps.len() > 0 {
        lemma_spec_props_to_v3(ps.drop_last());
    }
}

/// The pointwise conversion of a schema list, spelled out.
pub broadcast proof fn lemma_spec_schemas_to_v3(ss: Seq<Schema>)
    ensures
        (#[trigger] spec_schemas_to_v3(ss)).len() == ss.len(),
        forall|i: int| 0 <= i < ss.len() ==> spec_schemas_to_v3(ss)[i] == spec_schema_to_v3(ss[i]),
    decreases ss,
{
    if ss.len() > 0 {
        lemma_spec_schemas_to_v3(ss.drop_last());
    }
}

/// Converts an older-format property list.
fn props_to_v3(ps: &Vec<(String, Schema)>) -> (r: Vec<(String, V3SchemaOrRef)>)
    ensures
        v3_props_view(r@) == spec_props_to_v3(ps@),
    decreases ps@,
{
    let mut r: Vec<(String, V3SchemaOrRef)> = Vec::new();
    let mut i: usize = 0;
    while i < ps.len()
        invariant
            i <= ps@.len(),
            r@.len() == i,
            forall|j: int|
                0 <= j < i ==> r@[j].0 == ps@[j].0 && v3_ref_view(#[trigger] r@[j].1)
                    == spec_schema_to_v3(ps@[j].1),
        decreases ps.len() - i,
    {
        proof {
            assert(decreases_to!(ps@ => ps@[i as int]));
            assert(decreases_to!(ps@[i as int] => ps@[i as int].1));
        }
        let c = schema_to_v3(&ps[i].1);
        r.push((ps[i].0.clone(), c));
        i += 1;
    }
    proof {
        broadcast use lemma_v3_props_view, lemma_spec_props_to_v3;

        assert(v3_props_view(r@) =~= spec_props_to_v3(ps@));
    }
    r
}

/// Converts an older-format schema list.
fn schemas_to_v3(ss: &Vec<Schema>) -> (r: Vec<V3SchemaOrRef>)
    ensures
        v3_refs_view(r@) == spec_schemas_to_v3(ss@),
    decreases ss@,
{
    let mut r: Vec<V3SchemaOrRef> = Vec::new();
    let mut i: usize = 0;
    while i < ss.len()
        invariant
            i <= ss@.len(),
            r@.len() == i,
            forall|j: int|
                0 <= j < i ==> v3_ref_view(#[trigger] r@[j]) == spec_schema_to_v3(ss@[j]),
        decreases ss.len() - i,
    {
        proof {
            assert(decreases_to!(ss@ => ss@[i as int]));
        }
        let c = schema_to_v3(&ss[i]);
        r.push(c);
        i += 1;
    }
    proof {
        broadcast use lemma_v3_refs_view, lemma_spec_schemas_to_v3;

        assert(v3_refs_view(r@) =~= spec_schemas_to_v3(ss@));
    }
    r
}

/// Converts an older-format schema to the newer format.
pub fn schema_to_v3(s: &Schema) -> (r: V3SchemaOrRef)
    ensures
        r@ == spec_schema_to_v3(*s),
    decreases *s, 3nat,
{
    if let Some(reference) = &s.reference {
        let r = V3SchemaOrRef::Reference { reference: rewrite_ref(reference.as_str()) };
        proof {
            assert(r@ =~~= spec_schema_to_v3(*s));
        }
        return r;
    }
    let kind: V3SchemaKind = if let Some(dt) = s.data_type {
        match dt {
            DataType::Integer => V3SchemaKind::IntegerKind {
                int_format: int_format_of(s.format),
                multiple_of: None,
                exclusive_minimum: false,
                exclusive_maximum: false,
                minimum: None,
                maximum: None,
                enumeration: int_enum(&s.enum_),
            },
            DataType::Number => V3SchemaKind::NumberKind {
                num_format: num_format_of(s.format),
                multiple_of: None,
                exclusive_minimum: false,
                exclusive_maximum: false,
                minimum: None,
                maximum: None,
                enumeration: int_enum(&s.enum_),
            },
            DataType::Text => V3SchemaKind::StringKind {
                str_format: str_format_of(s.format),
                pattern: None,
                str_enumeration: str_enum(&s.enum_),
                min_length: None,
                max_length: None,
            },
            DataType::Boolean => V3SchemaKind::BooleanKind,
            DataType::Array => {
                let items = match &s.items {
                    Some(b) => {
                        proof {
                            assert(decreases_to!(*s => s.items));
                        }
                        let c = schema_to_v3(&**b);
                        Some(Box::new(c))
                    },
                    None => None,
                };
                V3SchemaKind::ArrayKind { items, min_items: None, max_items: None, unique_items: false }
            },
            DataType::Object => {
                proof {
                    assert(decreases_to!(*s => s.properties@));
                }
                V3SchemaKind::ObjectKind {
                    properties: props_to_v3(&s.properties),
                    required: clone_strings(&s.required),
                }
            },
            DataType::File => V3SchemaKind::StringKind {
                str_format: StrFormatField::Known(StrFormat::Binary),
                pattern: None,
                str_enumeration: Vec::new(),
                min_length: None,
                max_length: None,
            },
        }
    } else if s.any_of.len() > 0 {
        proof {
            assert(decreases_to!(*s => s.any_of@));
        }
        V3SchemaKind::AnyOfKind { any_of: schemas_to_v3(&s.any_of) }
    } else if s.all_of.len() > 0 {
        proof {
            assert(decreases_to!(*s => s.all_of@));
        }
        V3SchemaKind::AllOfKind { all_of: schemas_to_v3(&s.all_of) }
    } else {
        match &s.const_ {
            Some(Literal::Str(c)) => V3SchemaKind::StringKind {
                str_format: StrFormatField::Empty,
                pattern: None,
                str_enumeration: vec![Some(c.clone())],
                min_length: None,
                max_length: None,
            },
            _ => V3SchemaKind::ObjectKind { properties: Vec::new(), required: Vec::new() },
        }
    };
    let ghost gkind = kind;
    let inner = V3Schema {
        description: clone_opt_string(&s.description),
        example: clone_opt_literal(&s.example),
        extensions: clone_extensions(&s.extensions),
        kind,
    };
    let ghost ginner = inner;
    let r = V3SchemaOrRef::Item(Box::new(inner));
    proof {
        broadcast use lemma_v3_props_view, crate::v3::lemma_v3_kind_view_unfold,
            crate::v3::lemma_v3_ref_view_unfold, crate::v3::lemma_v3_schema_view_unfold;

        assert(v3_kind_view(gkind) =~~= spec_kind_of(*s));
        assert(v3_schema_view(ginner) =~~= (V3SchemaV {
            description: opt_str_v(s.description),
            example: opt_lit_v(s.example),
            extensions: ext_pairs_v(s.extensions@),
            kind: spec_kind_of(*s),
        }));
        assert(r@ == spec_schema_to_v3(*s));
    }
    r
}

/// The message of the placeholder for an item type with no data kind.
pub open spec fn msg_no_data_type_v() -> Seq<char> {
    "Invalid Item, should have a data type"@
}

/// The message of the placeholder for an item type with a refinement
/// foreign to its kind.
pub open spec fn msg_bad_format_v(f: DataTypeFormat) -> Seq<char> {
    "Invalid data type format: "@ + format_token_v(f)
}

/// The message of the placeholder for a data kind an item type cannot
/// have.
pub open spec fn msg_bad_item_kind_v(dt: DataType) -> Seq<char> {
    "Invalid Item data_type: "@ + data_type_token_v(dt)
}

/// A well-formed converted item type: an inline schema with no
/// annotations, shaped by `kind`.
pub open spec fn item_schema_v(kind: V3KindV) -> V3RefV {
    V3RefV::Item(
        Box::new(
            V3SchemaV { description: None, example: None, extensions: Seq::empty(), kind },
        ),
    )
}

/// What an older-format item type converts to.
///
/// An item type must declare a primitive or array kind, with a refinement
/// belonging to that kind; numeric bounds, patterns, lengths and
/// enumerations carry over.  A missing kind, a foreign refinement, or an
/// object or file kind yields the explicit placeholder schema carrying
/// the error message instead of failing.
pub open spec fn spec_items_to_v3(it: ItemsDesc) -> V3RefV
    decreases it,
{
    match it.data_type {
        None => invalid_ref_v(msg_no_data_type_v()),
        Some(dt) => match dt {
            DataType::Integer => match it.format {
                None | Some(DataTypeFormat::Int32) | Some(DataTypeFormat::Int64) => item_schema_v(
                    V3KindV::IntegerKind {
                        int_format: conv_int_format(it.format),
                        multiple_of: it.multiple_of,
                        exclusive_minimum: opt_bool(it.exclusive_minimum),
                        exclusive_maximum: opt_bool(it.exclusive_maximum),
                        minimum: it.minimum,
                        maximum: it.maximum,
                        enumeration: int_enum_v(it.enum_@),
                    },
                ),
                Some(f) => invalid_ref_v(msg_bad_format_v(f)),
            },
            DataType::Number => match it.format {
                None | Some(DataTypeFormat::Float) | Some(DataTypeFormat::Double) => item_schema_v(
                    V3KindV::NumberKind {
                        num_format: conv_num_format(it.format),
                        multiple_of: it.multiple_of,
                        exclusive_minimum: opt_bool(it.exclusive_minimum),
                        exclusive_maximum: opt_bool(it.exclusive_maximum),
                        minimum: it.minimum,
                        maximum: it.maximum,
                        enumeration: int_enum_v(it.enum_@),
                    },
                ),
                Some(f) => invalid_ref_v(msg_bad_format_v(f)),
            },
            DataType::Text => match it.format {
                None | Some(DataTypeFormat::Byte) | Some(DataTypeFormat::Binary)
                    | Some(DataTypeFormat::Date) | Some(DataTypeFormat::DateTime)
                    | Some(DataTypeFormat::Password) => item_schema_v(
                    V3KindV::StringKind {
                        str_format: conv_str_format(it.format),
                        pattern: opt_str_v(it.pattern),
                        str_enumeration: str_enum_v(it.enum_@),
                        min_length: it.min_length,
                        max_length: it.max_length,
                    },
                ),
                Some(f) => invalid_ref_v(msg_bad_format_v(f)),
            },
            DataType::Boolean => item_schema_v(V3KindV::BooleanKind),
            DataType::Array => item_schema_v(
                V3KindV::ArrayKind {
                    items: match it.items {
                        Some(b) => Some(Box::new(spec_items_to_v3(*b))),
                        None => None,
                    },
                    min_items: it.min_items,
                    max_items: it.max_items,
                    unique_items: opt_bool(it.unique_items),
                },
            ),
            _ => invalid_ref_v(msg_bad_item_kind_v(dt)),
        },
    }
}

/// An optional flag read with `false` for absent.
pub open spec fn opt_bool(o: Option<bool>) -> bool {
    match o {
        Some(b) => b,
        None => false,
    }
}

/// Converts an older-format item type to the newer format.
pub fn items_to_v3(it: &ItemsDesc) -> (r: V3SchemaOrRef)
    ensures
        r@ == spec_items_to_v3(*it),
    decreases *it,
{
    let dt = match it.data_type {
        None => {
            return invalid_ref(String::from_str("Invalid Item, should have a data type"));
        },
        Some(dt) => dt,
    };
    let bad_format = |f: DataTypeFormat| -> (m: String)
        ensures
            m@ == msg_bad_format_v(f),
        {
            let mut m = String::from_str("Invalid data type format: ");
            m.append(format_token(f));
            m
        };
    let kind: V3SchemaKind = match dt {
        DataType::Integer => {
            match it.format {
                None | Some(DataTypeFormat::Int32) | Some(DataTypeFormat::Int64) => V3SchemaKind::IntegerKind {
                    int_format: int_format_of(it.format),
                    multiple_of: it.multiple_of,
                    exclusive_minimum: it.exclusive_minimum.unwrap_or(false),
                    exclusive_maximum: it.exclusive_maximum.unwrap_or(false),
                    minimum: it.minimum,
                    maximum: it.maximum,
                    enumeration: int_enum(&it.enum_),
                },
                Some(f) => {
                    return invalid_ref(bad_format(f));
                },
            }
        },
        DataType::Number => {
            match it.format {
                None | Some(DataTypeFormat::Float) | Some(DataTypeFormat::Double) => V3SchemaKind::NumberKind {
                    num_format: num_format_of(it.format),
                    multiple_of: it.multiple_of,
                    exclusive_minimum: it.exclusive_minimum.unwrap_or(false),
                    exclusive_maximum: it.exclusive_maximum.unwrap_or(false),
                    minimum: it.minimum,
                    maximum: it.maximum,
                    enumeration: int_enum(&it.enum_),
                },
                Some(f) => {
                    return invalid_ref(bad_format(f));
                },
            }
        },
        DataType::Text => {
            match it.format {
                None | Some(DataTypeFormat::Byte) | Some(DataTypeFormat::Binary)
                    | Some(DataTypeFormat::Date) | Some(DataTypeFormat::DateTime)
                    | Some(DataTypeFormat::Password) => V3SchemaKind::StringKind {
                    str_format: str_format_of(it.format),
                    pattern: clone_opt_string(&it.pattern),
                    str_enumeration: str_enum(&it.enum_),
                    min_length: it.min_length,
                    max_length: it.max_length,
                },
                Some(f) => {
                    return invalid_ref(bad_format(f));
                },
            }
        },
        DataType::Boolean => V3SchemaKind::BooleanKind,
        DataType::Array => {
            let items = match &it.items {
                Some(b) => {
                    proof {
                        assert(decreases_to!(*it => it.items));
                    }
                    let c = items_to_v3(&**b);
                    Some(Box::new(c))
                },
                None => None,
            };
            V3SchemaKind::ArrayKind {
                items,
                min_items: it.min_items,
                max_items: it.max_items,
                unique_items: it.unique_items.unwrap_or(false),
            }
        },
        _ => {
            let mut m = String::from_str("Invalid Item data_type: ");
            m.append(data_type_token(dt));
            return invalid_ref(m);
        },
    };
    let ghost gkind = kind;
    let inner = V3Schema { description: None, example: None, extensions: Vec::new(), kind };
    let ghost ginner = inner;
    let r = V3SchemaOrRef::Item(Box::new(inner));
    proof {
        broadcast use lemma_v3_props_view, crate::v3::lemma_v3_kind_view_unfold,
            crate::v3::lemma_v3_ref_view_unfold, crate::v3::lemma_v3_schema_view_unfold;

        assert(v3_kind_view(gkind) =~~= spec_items_to_v3(*it)->Item_0.kind);
        assert(v3_schema_view(ginner).extensions.len() == 0);
        assert(v3_schema_view(ginner) =~~= (V3SchemaV {
            description: None,
            example: None,
            extensions: Seq::empty(),
            kind: v3_kind_view(gkind),
        }));
        assert(r@ == spec_items_to_v3(*it));
    }
    r
}

/// What the type of a non-body parameter converts to: a file upload
/// becomes a binary string schema; anything else converts as an item
/// type.
pub open spec fn spec_param_type_to_v3(it: ItemsDesc) -> V3RefV {
    if it.data_type == Some(DataType::File) {
        item_schema_v(
            V3KindV::StringKind {
                str_format: StrFormatFieldV::Known(StrFormat::Binary),
                pattern: None,
                str_enumeration: Seq::empty(),
                min_length: None,
                max_length: None,
            },
        )
    } else {
        spec_items_to_v3(it)
    }
}

/// Converts the type of a non-body parameter.
pub fn param_type_to_v3(it: &ItemsDesc) -> (r: V3SchemaOrRef)
    ensures
        r@ == spec_param_type_to_v3(*it),
{
    if it.data_type == Some(DataType::File) {
        let inner = V3Schema {
            description: None,
            example: None,
            extensions: Vec::new(),
            kind: V3SchemaKind::StringKind {
                str_format: StrFormatField::Known(StrFormat::Binary),
                pattern: None,
                str_enumeration: Vec::new(),
                min_length: None,
                max_length: None,
            },
        };
        let ghost ginner = inner;
        let r = V3SchemaOrRef::Item(Box::new(inner));
        proof {
            broadcast use lemma_v3_props_view, crate::v3::lemma_v3_kind_view_unfold,
                crate::v3::lemma_v3_ref_view_unfold, crate::v3::lemma_v3_schema_view_unfold;

            assert(v3_schema_view(ginner).extensions.len() == 0);
            assert(v3_kind_view(ginner.kind) =~~= (V3KindV::StringKind {
                str_format: StrFormatFieldV::Known(StrFormat::Binary),
                pattern: None,
                str_enumeration: Seq::empty(),
                min_length: None,
                max_length: None,
            }));
            assert(v3_schema_view(ginner) =~~= (V3SchemaV {
                description: None,
                example: None,
                extensions: Seq::empty(),
                kind: V3KindV::StringKind {
                    str_format: StrFormatFieldV::Known(StrFormat::Binary),
                    pattern: None,
                    str_enumeration: Seq::empty(),
                    min_length: None,
                    max_length: None,
                },
            }));
            assert(r@ == spec_param_type_to_v3(*it));
        }
        r
    } else {
        items_to_v3(it)
    }
}

/// Copy of a list of optional integers, equal to the original.
fn clone_opt_i64s(v: &Vec<Option<i64>>) -> (r: Vec<Option<i64>>)
    ensures
        r@ == v@,
{
    let mut r: Vec<Option<i64>> = Vec::new();
    let mut i: usize = 0;
    while i < v.len()
        invariant
            i <= v@.len(),
            r@ == v@.subrange(0, i as int),
        decreases v.len() - i,
    {
        r.push(v[i]);
        i += 1;
        proof {
            assert(r@ =~= v@.subrange(0, i as int));
        }
    }
    proof {
        assert(r@ =~= v@);
    }
    r
}

/// Copy of a list of optional strings whose view equals the original's.
fn clone_opt_strings(v: &Vec<Option<String>>) -> (r: Vec<Option<String>>)
    ensures
        r@.map_values(|e: Option<String>| opt_str_v(e)) == v@.map_values(
            |e: Option<String>| opt_str_v(e),
        ),
{
    let mut r: Vec<Option<String>> = Vec::new();
    let mut i: usize = 0;
    while i < v.len()
        invariant
            i <= v@.len(),
            r@.len() == i,
            forall|j: int| 0 <= j < i ==> opt_str_v(#[trigger] r@[j]) == opt_str_v(v@[j]),
        decreases v.len() - i,
    {
        r.push(clone_opt_string(&v[i]));
        i += 1;
    }
    proof {
        assert(r@.map_values(|e: Option<String>| opt_str_v(e)) =~= v@.map_values(
            |e: Option<String>| opt_str_v(e),
        ));
    }
    r
}

/// Copy of a newer-format property list whose view equals the original's.
fn clone_v3_props(v: &Vec<(String, V3SchemaOrRef)>) -> (r: Vec<(String, V3SchemaOrRef)>)
    ensures
        v3_props_view(r@) == v3_props_view(v@),
    decreases v@,
{
    let mut r: Vec<(String, V3SchemaOrRef)> = Vec::new();
    let mut i: usize = 0;
    while i < v.len()
        invariant
            i <= v@.len(),
            r@.len() == i,
            forall|j: int|
                0 <= j < i ==> r@[j].0 == v@[j].0 && v3_ref_view(#[trigger] r@[j].1)
                    == v3_ref_view(v@[j].1),
        decreases v.len() - i,
    {
        proof {
            assert(decreases_to!(v@ => v@[i as int]));
            assert(decreases_to!(v@[i as int] => v@[i as int].1));
        }
        let c = clone_v3_ref(&v[i].1);
        r.push((v[i].0.clone(), c));
        i += 1;
    }
    proof {
        broadcast use lemma_v3_props_view;

        assert(v3_props_view(r@) =~= v3_props_view(v@));
    }
    r
}

/// Copy of a newer-format schema list whose view equals the original's.
fn clone_v3_refs(v: &Vec<V3SchemaOrRef>) -> (r: Vec<V3SchemaOrRef>)
    ensures
        v3_refs_view(r@) == v3_refs_view(v@),
    decreases v@,
{
    let mut r: Vec<V3SchemaOrRef> = Vec::new();
    let mut i: usize = 0;
    while i < v.len()
        invariant
            i <= v@.len(),
            r@.len() == i,
            forall|j: int|
                0 <= j < i ==> v3_ref_view(#[trigger] r@[j]) == v3_ref_view(v@[j]),
        decreases v.len() - i,
    {
        proof {
            assert(decreases_to!(v@ => v@[i as int]));
        }
        let c = clone_v3_ref(&v[i]);
        r.push(c);
        i += 1;
    }
    proof {
        broadcast use lemma_v3_refs_view;

        assert(v3_refs_view(r@) =~= v3_refs_view(v@));
    }
    r
}

/// Copy of a newer-format shape whose view equals the original's.
fn clone_v3_kind(k: &V3SchemaKind) -> (r: V3SchemaKind)
    ensures
        v3_kind_view(r) == v3_kind_view(*k),
    decreases *k,
{
    broadcast use crate::v3::lemma_v3_kind_view_unfold;

    match k {
        V3SchemaKind::IntegerKind {
            int_format,
            multiple_of,
            exclusive_minimum,
            exclusive_maximum,
            minimum,
            maximum,
            enumeration,
        } => V3SchemaKind::IntegerKind {
            int_format: *int_format,
            multiple_of: *multiple_of,
            exclusive_minimum: *exclusive_minimum,
            exclusive_maximum: *exclusive_maximum,
            minimum: *minimum,
            maximum: *maximum,
            enumeration: clone_opt_i64s(enumeration),
        },
        V3SchemaKind::NumberKind {
            num_format,
            multiple_of,
            exclusive_minimum,
            exclusive_maximum,
            minimum,
            maximum,
            enumeration,
        } => V3SchemaKind::NumberKind {
            num_format: *num_format,
            multiple_of: *multiple_of,
            exclusive_minimum: *exclusive_minimum,
            exclusive_maximum: *exclusive_maximum,
            minimum: *minimum,
            maximum: *maximum,
            enumeration: clone_opt_i64s(enumeration),
        },
        V3SchemaKind::StringKind { str_format, pattern, str_enumeration, min_length, max_length } => {
            let sf = match str_format {
                StrFormatField::Empty => StrFormatField::Empty,
                StrFormatField::Known(x) => StrFormatField::Known(*x),
                StrFormatField::Unknown(s) => StrFormatField::Unknown(s.clone()),
            };
            let r = V3SchemaKind::StringKind {
                str_format: sf,
                pattern: clone_opt_string(pattern),
                str_enumeration: clone_opt_strings(str_enumeration),
                min_length: *min_length,
                max_length: *max_length,
            };
            proof {
                assert(v3_kind_view(r) =~~= v3_kind_view(*k));
            }
            r
        },
        V3SchemaKind::BooleanKind => V3SchemaKind::BooleanKind,
        V3SchemaKind::ArrayKind { items, min_items, max_items, unique_items } => {
            let ci = match items {
                Some(b) => {
                    proof {
                        assert(decreases_to!(*k => k->ArrayKind_items));
                    }
                    let c = clone_v3_ref(&**b);
                    Some(Box::new(c))
                },
                None => None,
            };
            V3SchemaKind::ArrayKind {
                items: ci,
                min_items: *min_items,
                max_items: *max_items,
                unique_items: *unique_items,
            }
        },
        V3SchemaKind::ObjectKind { properties, required } => {
            proof {
                assert(decreases_to!(*k => k->ObjectKind_properties));
            }
            V3SchemaKind::ObjectKind {
                properties: clone_v3_props(properties),
                required: clone_strings(required),
            }
        },
        V3SchemaKind::AnyOfKind { any_of } => {
            proof {
                assert(decreases_to!(*k => k->any_of));
            }
            V3SchemaKind::AnyOfKind { any_of: clone_v3_refs(any_of) }
        },
        V3SchemaKind::AllOfKind { all_of } => {
            proof {
                assert(decreases_to!(*k => k->all_of));
            }
            V3SchemaKind::AllOfKind { all_of: clone_v3_refs(all_of) }
        },
        V3SchemaKind::AnyKind { properties, required } => {
            proof {
                assert(decreases_to!(*k => k->AnyKind_properties));
            }
            V3SchemaKind::AnyKind {
                properties: clone_v3_props(properties),
                required: clone_strings(required),
            }
        },
    }
}

/// Copy of a newer-format schema-or-reference whose view equals the
/// original's.
pub fn clone_v3_ref(s: &V3SchemaOrRef) -> (r: V3SchemaOrRef)
    ensures
        r@ == s@,
    decreases *s,
{
    broadcast use crate::v3::lemma_v3_ref_view_unfold, crate::v3::lemma_v3_schema_view_unfold;

    match s {
        V3SchemaOrRef::Reference { reference } => V3SchemaOrRef::Reference {
            reference: reference.clone(),
        },
        V3SchemaOrRef::Item(b) => {
            proof {
                assert(decreases_to!(*s => s->Item_0));
                assert(decreases_to!(s->Item_0 => (*s->Item_0).kind));
            }
            let inner = V3Schema {
                description: clone_opt_string(&b.description),
                example: clone_opt_literal(&b.example),
                extensions: clone_extensions(&b.extensions),
                kind: clone_v3_kind(&b.kind),
            };
            let ghost ginner = inner;
            let r = V3SchemaOrRef::Item(Box::new(inner));
            proof {
                assert(v3_schema_view(ginner) =~~= v3_schema_view(*s->Item_0));
            }
            r
        },
    }
}

/// The location of a passthrough parameter in the newer format.
pub open spec fn loc_of(p: crate::operation::ParameterIn) -> crate::v3::V3ParamLocation {
    match p {
        crate::operation::ParameterIn::Path => crate::v3::V3ParamLocation::Path,
        crate::operation::ParameterIn::Query => crate::v3::V3ParamLocation::Query,
        _ => crate::v3::V3ParamLocation::Header,
    }
}

/// The content map of a request payload: one entry per accepted media
/// type, each carrying the payload schema; equal media types collapse to
/// one entry.
pub open spec fn content_fold_v(
    ms: Seq<String>,
    mt: crate::v3::V3MediaTypeV,
) -> Seq<(Seq<char>, crate::v3::V3MediaTypeV)>
    decreases ms,
{
    if ms.len() == 0 {
        Seq::empty()
    } else {
        crate::schema::insert_key_v(content_fold_v(ms.drop_last(), mt), ms.last()@, mt)
    }
}

/// Inserting into a content map and then viewing it is viewing it and
/// then inserting the viewed pair.
proof fn lemma_content_v_insert(
    cs: Seq<(String, crate::v3::V3MediaType)>,
    k: String,
    v: crate::v3::V3MediaType,
)
    ensures
        crate::v3::v3_content_view(crate::schema::assoc_inserted(cs, k, v))
            == crate::schema::insert_key_v(
            crate::v3::v3_content_view(cs),
            k@,
            crate::v3::v3_media_view(v),
        ),
{
    assert(crate::v3::v3_content_view(cs).len() == cs.len());
    assert(forall|i: int|
        0 <= i < cs.len() ==> crate::v3::v3_content_view(cs)[i] == (
        #[trigger] cs[i].0@,
        crate::v3::v3_media_view(cs[i].1),
        ));
    crate::schema::lemma_find_key_correspond(cs, crate::v3::v3_content_view(cs), k@);
    let i = crate::schema::find_assoc(cs, k@);
    if i < 0 {
        assert(crate::v3::v3_content_view(cs.push((k, v))) =~= crate::v3::v3_content_view(
            cs,
        ).push((k@, crate::v3::v3_media_view(v))));
    } else {
        crate::schema::lemma_find_assoc(cs, k@);
        assert(crate::v3::v3_content_view(cs.update(i, (k, v))) =~= crate::v3::v3_content_view(
            cs,
        ).update(i, (k@, crate::v3::v3_media_view(v))));
    }
}

/// Builds the content map: one entry per accepted media type, each
/// carrying a copy of the payload schema.
fn content_for(ms: &Vec<String>, schema: &Option<V3SchemaOrRef>) -> (r: Vec<
    (String, crate::v3::V3MediaType),
>)
    ensures
        crate::v3::v3_content_view(r@) == content_fold_v(
            ms@,
            (crate::v3::V3MediaTypeV { schema: opt_v3_ref_v(*schema) }),
        ),
{
    let ghost mt = crate::v3::V3MediaTypeV { schema: opt_v3_ref_v(*schema) };
    let mut r: Vec<(String, crate::v3::V3MediaType)> = Vec::new();
    let mut i: usize = 0;
    while i < ms.len()
        invariant
            i <= ms@.len(),
            mt == (crate::v3::V3MediaTypeV { schema: opt_v3_ref_v(*schema) }),
            crate::v3::v3_content_view(r@) == content_fold_v(ms@.subrange(0, i as int), mt),
        decreases ms.len() - i,
    {
        proof {
            assert(ms@.subrange(0, i + 1).drop_last() =~= ms@.subrange(0, i as int));
            assert(ms@.subrange(0, i + 1).last() == ms@[i as int]);
        }
        let copy = match schema {
            Some(s) => {
                let c = clone_v3_ref(s);
                proof {
                    assert(opt_v3_ref_v(Some(c)) == opt_v3_ref_v(*schema));
                }
                Some(c)
            },
            None => None,
        };
        let ghost gcopy = copy;
        let media = crate::v3::V3MediaType { schema: copy };
        let key = ms[i].clone();
        let ghost cs = r@;
        let ghost gkey = key;
        let ghost gmedia = media;
        crate::schema::assoc_insert(&mut r, key, media);
        proof {
            lemma_content_v_insert(cs, gkey, gmedia);
            assert(gmedia.schema == gcopy);
            assert(opt_v3_ref_v(gcopy) == opt_v3_ref_v(*schema));
            assert(crate::v3::v3_media_view(gmedia).schema == opt_v3_ref_v(gcopy));
            assert(crate::v3::v3_media_view(gmedia) =~~= mt);
        }
        i += 1;
    }
    proof {
        assert(ms@.subrange(0, ms@.len() as int) =~= ms@);
    }
    r
}

/// Index of the first pair keyed by the status code `k`, or `-1`.
pub open spec fn find_code_v<T>(ps: Seq<(u16, T)>, k: u16) -> int
    decreases ps,
{
    if ps.len() == 0 {
        -1
    } else if ps[0].0 == k {
        0
    } else {
        let r = find_code_v(ps.drop_first(), k);
        if r < 0 {
            -1
        } else {
            r + 1
        }
    }
}

/// Map-style insertion into a code-keyed pair sequence.
pub open spec fn insert_code_v<T>(ps: Seq<(u16, T)>, k: u16, v: T) -> Seq<(u16, T)> {
    let i = find_code_v(ps, k);
    if i < 0 {
        ps.push((k, v))
    } else {
        ps.update(i, (k, v))
    }
}

/// When two code-keyed sequences carry the same codes position by
/// position, the two searches land on the same index.
proof fn lemma_find_code_correspond<A, B>(ps: Seq<(u16, A)>, qs: Seq<(u16, B)>, k: u16)
    requires
        qs.len() == ps.len(),
        forall|i: int| 0 <= i < ps.len() ==> qs[i].0 == #[trigger] ps[i].0,
    ensures
        find_code_v(qs, k) == find_code_v(ps, k),
    decreases ps,
{
    if ps.len() > 0 && ps[0].0 != k {
        assert(forall|i: int|
            0 <= i < ps.drop_first().len() ==> qs.drop_first()[i].0
                == #[trigger] ps.drop_first()[i].0);
        lemma_find_code_correspond(ps.drop_first(), qs.drop_first(), k);
    }
}

/// `find_code_v` lands on a pair keyed by the code exactly when one
/// exists.
proof fn lemma_find_code_v<T>(ps: Seq<(u16, T)>, k: u16)
    ensures
        find_code_v(ps, k) < 0 ==> forall|i: int| 0 <= i < ps.len() ==> ps[i].0 != k,
        find_code_v(ps, k) >= 0 ==> 0 <= find_code_v(ps, k) < ps.len() && ps[find_code_v(ps, k)].0
            == k,
    decreases ps,
{
    if ps.len() > 0 && ps[0].0 != k {
        lemma_find_code_v(ps.drop_first(), k);
        assert(forall|i: int| 1 <= i < ps.len() ==> ps[i] == ps.drop_first()[i - 1]);
    }
}

/// If the first `i` codes differ from `k` and `ps[i]` is keyed by `k`,
/// then `find_code_v` lands on `i`.
proof fn lemma_find_code_prefix<T>(ps: Seq<(u16, T)>, k: u16, i: int)
    requires
        0 <= i < ps.len(),
        ps[i].0 == k,
        forall|j: int| 0 <= j < i ==> ps[j].0 != k,
    ensures
        find_code_v(ps, k) == i,
    decreases i,
{
    if i > 0 {
        assert(ps.drop_first()[i - 1] == ps[i]);
        assert(forall|j: int| 0 <= j < i - 1 ==> ps.drop_first()[j] == ps[j + 1]);
        lemma_find_code_prefix(ps.drop_first(), k, i - 1);
    }
}

/// Index of the first entry of `m` keyed by the status code `k`, if any.
fn code_find(m: &Vec<(u16, crate::v3::V3ResponseOrRef)>, k: u16) -> (r: Option<usize>)
    ensures
        match r {
            Some(i) => 0 <= i < m@.len() && find_code_v(m@, k) == i,
            None => find_code_v(m@, k) < 0,
        },
{
    let mut i: usize = 0;
    while i < m.len()
        invariant
            i <= m@.len(),
            forall|j: int| 0 <= j < i ==> m@[j].0 != k,
        decreases m.len() - i,
    {
        if m[i].0 == k {
            proof {
                lemma_find_code_prefix(m@, k, i as int);
            }
            return Some(i);
        }
        i += 1;
    }
    proof {
        lemma_find_code_v(m@, k);
        if find_code_v(m@, k) >= 0 {
            assert(m@[find_code_v(m@, k)].0 == k);
            assert(false);
        }
    }
    None
}

/// Inserts `(k, v)` into the code-keyed vector `m`, replacing the entry
/// keyed by `k` if there is one.
fn code_insert(m: &mut Vec<(u16, crate::v3::V3ResponseOrRef)>, k: u16, v: crate::v3::V3ResponseOrRef)
    ensures
        crate::v3::v3_coded_view(final(m)@) == insert_code_v(
            crate::v3::v3_coded_view(old(m)@),
            k,
            crate::v3::v3_resp_or_ref_view(v),
        ),
{
    let ghost ps = m@;
    proof {
        assert(crate::v3::v3_coded_view(ps).len() == ps.len());
        assert(forall|j: int|
            0 <= j < ps.len() ==> crate::v3::v3_coded_view(ps)[j] == (
            #[trigger] ps[j].0,
            crate::v3::v3_resp_or_ref_view(ps[j].1),
            ));
        lemma_find_code_correspond(ps, crate::v3::v3_coded_view(ps), k);
    }
    match code_find(m, k) {
        Some(idx) => {
            let _ = m.remove(idx);
            m.insert(idx, (k, v));
            proof {
                assert(m@ =~= ps.update(idx as int, (k, v)));
                assert(crate::v3::v3_coded_view(m@) =~= crate::v3::v3_coded_view(ps).update(
                    idx as int,
                    (k, crate::v3::v3_resp_or_ref_view(v)),
                ));
            }
        },
        None => {
            m.push((k, v));
            proof {
                assert(crate::v3::v3_coded_view(m@) =~= crate::v3::v3_coded_view(ps).push(
                    (k, crate::v3::v3_resp_or_ref_view(v)),
                ));
            }
        },
    }
}

/// What an older-format response converts to: a reference passes through;
/// an inline response keeps its description and converts its schema.
pub open spec fn spec_response_to_v3(r: crate::operation::ResponseOrRef) -> crate::v3::V3RespOrRefV {
    match r {
        crate::operation::ResponseOrRef::Reference { reference } => crate::v3::V3RespOrRefV::Reference {
            reference: reference@,
        },
        crate::operation::ResponseOrRef::Item(resp) => crate::v3::V3RespOrRefV::Item(
            crate::v3::V3ResponseV {
                description: opt_str_v(resp.description),
                schema: match resp.schema {
                    Some(s) => Some(spec_schema_to_v3(s)),
                    None => None,
                },
            },
        ),
    }
}

/// Converts an older-format response.
fn response_to_v3(r: &crate::operation::ResponseOrRef) -> (out: crate::v3::V3ResponseOrRef)
    ensures
        crate::v3::v3_resp_or_ref_view(out) == spec_response_to_v3(*r),
{
    match r {
        crate::operation::ResponseOrRef::Reference { reference } => crate::v3::V3ResponseOrRef::Reference {
            reference: reference.clone(),
        },
        crate::operation::ResponseOrRef::Item(resp) => {
            let schema = match &resp.schema {
                Some(s) => Some(schema_to_v3(s)),
                None => None,
            };
            crate::v3::V3ResponseOrRef::Item(
                crate::v3::V3Response { description: clone_opt_string(&resp.description), schema },
            )
        },
    }
}

/// The coded responses of the converted operation: each key that parses
/// as an unsigned 16-bit status code keeps its converted response under
/// that code; a key that does not parse — the catch-all bucket among them
/// — is dropped.
pub open spec fn spec_responses_fold(
    rs: Seq<(String, crate::operation::ResponseOrRef)>,
) -> Seq<(u16, crate::v3::V3RespOrRefV)>
    decreases rs,
{
    if rs.len() == 0 {
        Seq::empty()
    } else {
        let pre = spec_responses_fold(rs.drop_last());
        match crate::text::parse_u16_spec(rs.last().0@) {
            Some(code) => insert_code_v(pre, code, spec_response_to_v3(rs.last().1)),
            None => pre,
        }
    }
}

/// The state the parameter scan accumulates: the passthrough parameters,
/// the request payload seen so far, and the synthesized form schema.
#[verifier::ext_equal]
pub ghost struct ParamFoldV {
    pub params: Seq<crate::v3::V3ParamOrRefV>,
    pub body: Option<crate::v3::V3RequestBodyV>,
    pub form_props: Seq<(Seq<char>, V3RefV)>,
    pub form_required: Seq<Seq<char>>,
    pub has_form: bool,
}

/// One parameter folded into the scan state.
///
/// A reference passes through.  A body parameter becomes the request
/// payload, its schema wrapped once per accepted media type; a later body
/// parameter replaces an earlier one.  A form parameter is removed from
/// the list and contributes one property to the synthesized form schema,
/// which the first one creates; every required form parameter's name
/// enters the synthesized required set, which only ever grows.  A form
/// parameter with no declared type is dropped.  Any other parameter
/// passes through with its type converted.
pub open spec fn spec_param_step(
    st: ParamFoldV,
    p: crate::operation::ParameterOrRef,
    consumes: Option<Vec<String>>,
) -> ParamFoldV {
    match p {
        crate::operation::ParameterOrRef::Reference { reference } => ParamFoldV {
            params: st.params.push(
                crate::v3::V3ParamOrRefV::Reference { reference: reference@ },
            ),
            ..st
        },
        crate::operation::ParameterOrRef::Item(param) => match param.in_ {
            crate::operation::ParameterIn::Body => ParamFoldV {
                body: Some(
                    crate::v3::V3RequestBodyV {
                        description: opt_str_v(param.description),
                        required: param.required,
                        content: match consumes {
                            Some(ms) => content_fold_v(
                                ms@,
                                (crate::v3::V3MediaTypeV {
                                    schema: match param.schema {
                                        Some(s) => Some(spec_schema_to_v3(s)),
                                        None => None,
                                    },
                                }),
                            ),
                            None => Seq::empty(),
                        },
                    },
                ),
                ..st
            },
            crate::operation::ParameterIn::FormData => {
                if param.ty.data_type is None {
                    st
                } else {
                    let sch = spec_param_type_to_v3(param.ty);
                    if st.has_form {
                        ParamFoldV {
                            form_props: crate::schema::insert_key_v(
                                st.form_props,
                                param.name@,
                                sch,
                            ),
                            form_required: if param.required {
                                insert_str_v(st.form_required, param.name@)
                            } else {
                                st.form_required
                            },
                            ..st
                        }
                    } else {
                        ParamFoldV {
                            has_form: true,
                            form_props: seq![(param.name@, sch)],
                            form_required: if param.required {
                                seq![param.name@]
                            } else {
                                Seq::empty()
                            },
                            ..st
                        }
                    }
                }
            },
            _ => ParamFoldV {
                params: st.params.push(
                    crate::v3::V3ParamOrRefV::Item(
                        crate::v3::V3ParameterV {
                            name: param.name@,
                            location: loc_of(param.in_),
                            description: opt_str_v(param.description),
                            required: param.required,
                            schema: Some(spec_param_type_to_v3(param.ty)),
                        },
                    ),
                ),
                ..st
            },
        },
    }
}

/// The parameters folded into the scan state, in order.
pub open spec fn spec_params_fold(
    st: ParamFoldV,
    ps: Seq<crate::operation::ParameterOrRef>,
    consumes: Option<Vec<String>>,
) -> ParamFoldV
    decreases ps,
{
    if ps.len() == 0 {
        st
    } else {
        spec_param_step(spec_params_fold(st, ps.drop_last(), consumes), ps.last(), consumes)
    }
}

/// The empty scan state.
pub open spec fn empty_fold_v() -> ParamFoldV {
    ParamFoldV {
        params: Seq::empty(),
        body: None,
        form_props: Seq::empty(),
        form_required: Seq::empty(),
        has_form: false,
    }
}

/// The synthesized form payload: an untyped object holding the form
/// properties, wrapped once per accepted media type.
pub open spec fn form_body_v(st: ParamFoldV, ms: Seq<String>) -> crate::v3::V3RequestBodyV {
    crate::v3::V3RequestBodyV {
        description: None,
        required: false,
        content: content_fold_v(
            ms,
            (crate::v3::V3MediaTypeV {
                schema: Some(
                    V3RefV::Item(
                        Box::new(
                            V3SchemaV {
                                description: None,
                                example: None,
                                extensions: Seq::empty(),
                                kind: V3KindV::AnyKind {
                                    properties: st.form_props,
                                    required: st.form_required,
                                },
                            },
                        ),
                    ),
                ),
            }),
        ),
    }
}

/// What an older-format operation converts to.
///
/// Metadata and flags pass through.  Parameters are scanned in order:
/// body and form parameters leave the list and compete for the single
/// request payload, the explicit body winning over the synthesized form;
/// the form payload exists only when the operation declares accepted
/// media types.  Response keys are parsed as numeric status codes and
/// non-numeric keys are dropped; the catch-all slot stays empty.  An
/// empty security list becomes an absent one.
pub open spec fn spec_operation_to_v3(op: crate::operation::Operation) -> crate::v3::V3OperationV {
    let st = spec_params_fold(empty_fold_v(), op.parameters@, op.consumes);
    let body = match st.body {
        Some(b) => Some(b),
        None => if st.has_form {
            match op.consumes {
                Some(ms) => Some(form_body_v(st, ms@)),
                None => None,
            }
        } else {
            None
        },
    };
    crate::v3::V3OperationV {
        tags: strings_v(op.tags@),
        summary: opt_str_v(op.summary),
        description: opt_str_v(op.description),
        operation_id: opt_str_v(op.operation_id),
        parameters: st.params,
        request_body: body,
        responses: crate::v3::V3ResponsesV {
            default: None,
            responses: spec_responses_fold(op.responses@),
        },
        deprecated: op.deprecated,
        security: if op.security@.len() == 0 {
            None
        } else {
            Some(crate::v3::v3_security_view(op.security@))
        },
    }
}

/// Once the scan has seen a body parameter, the payload slot stays
/// filled.
proof fn lemma_body_stays_set(
    st: ParamFoldV,
    ps: Seq<crate::operation::ParameterOrRef>,
    consumes: Option<Vec<String>>,
)
    requires
        st.body is Some,
    ensures
        spec_params_fold(st, ps, consumes).body is Some,
    decreases ps,
{
    if ps.len() > 0 {
        lemma_body_stays_set(st, ps.drop_last(), consumes);
    }
}

/// A body parameter among the scanned ones leaves the payload slot
/// filled.
proof fn lemma_body_param_fills(
    st: ParamFoldV,
    ps: Seq<crate::operation::ParameterOrRef>,
    consumes: Option<Vec<String>>,
    i: int,
)
    requires
        0 <= i < ps.len(),
        ps[i] matches crate::operation::ParameterOrRef::Item(p) && p.in_
            == crate::operation::ParameterIn::Body,
    ensures
        spec_params_fold(st, ps, consumes).body is Some,
    decreases ps,
{
    if i == ps.len() - 1 {
    } else {
        assert(ps.drop_last()[i] == ps[i]);
        lemma_body_param_fills(st, ps.drop_last(), consumes, i);
    }
}

/// Law: an explicit request body takes precedence.  When any parameter of
/// the operation is a body parameter, the converted operation's single
/// request payload is the one the parameter scan recorded, and the
/// synthesized form payload is discarded by construction: the form branch
/// is never taken.
pub proof fn lemma_explicit_body_wins(op: crate::operation::Operation, i: int)
    requires
        0 <= i < op.parameters@.len(),
        op.parameters@[i] matches crate::operation::ParameterOrRef::Item(p) && p.in_
            == crate::operation::ParameterIn::Body,
    ensures
        spec_operation_to_v3(op).request_body == spec_params_fold(
            empty_fold_v(),
            op.parameters@,
            op.consumes,
        ).body,
        spec_operation_to_v3(op).request_body is Some,
{
    lemma_body_param_fills(empty_fold_v(), op.parameters@, op.consumes, i);
}

/// One form parameter the scan removes into the synthesized payload: a
/// form-location parameter with a declared type.
pub open spec fn is_typed_form(p: crate::operation::ParameterOrRef) -> bool {
    p matches crate::operation::ParameterOrRef::Item(param) && param.in_
        == crate::operation::ParameterIn::FormData && param.ty.data_type is Some
}

/// One scan step keeps the form slot once set, and keeps every name the
/// synthesized required set already holds.
proof fn lemma_param_step_form_frame(
    st: ParamFoldV,
    p: crate::operation::ParameterOrRef,
    consumes: Option<Vec<String>>,
)
    requires
        st.has_form,
    ensures
        spec_param_step(st, p, consumes).has_form,
        forall|x: Seq<char>|
            st.form_required.contains(x) ==> spec_param_step(
                st,
                p,
                consumes,
            ).form_required.contains(x),
{
    if is_typed_form(p) {
        let param = p->Item_0;
        if param.required {
            crate::schema::lemma_insert_str_v_contains(st.form_required, param.name@);
        }
    }
}

/// A required form parameter among the scanned ones leaves its name in
/// the synthesized required set, and the form slot filled.
proof fn lemma_required_form_fold(
    st: ParamFoldV,
    ps: Seq<crate::operation::ParameterOrRef>,
    consumes: Option<Vec<String>>,
    i: int,
)
    requires
        0 <= i < ps.len(),
        is_typed_form(ps[i]),
        ps[i]->Item_0.required,
    ensures
        spec_params_fold(st, ps, consumes).has_form,
        spec_params_fold(st, ps, consumes).form_required.contains(ps[i]->Item_0.name@),
    decreases ps,
{
    let param = ps[i]->Item_0;
    if i == ps.len() - 1 {
        let prev = spec_params_fold(st, ps.drop_last(), consumes);
        if prev.has_form {
            crate::schema::lemma_insert_str_v_contains(prev.form_required, param.name@);
        } else {
            assert(spec_param_step(prev, ps.last(), consumes).form_required == seq![
                param.name@,
            ]);
            assert(seq![param.name@][0] == param.name@);
        }
    } else {
        assert(ps.drop_last()[i] == ps[i]);
        lemma_required_form_fold(st, ps.drop_last(), consumes, i);
        let prev = spec_params_fold(st, ps.drop_last(), consumes);
        lemma_param_step_form_frame(prev, ps.last(), consumes);
    }
}

/// Law: required flags propagate per form field.  Every required form
/// parameter of the operation leaves its name in the synthesized form
/// payload's required set — not only the first one scanned.
pub proof fn lemma_required_form_field_recorded(op: crate::operation::Operation, i: int)
    requires
        0 <= i < op.parameters@.len(),
        is_typed_form(op.parameters@[i]),
        op.parameters@[i]->Item_0.required,
    ensures
        spec_params_fold(empty_fold_v(), op.parameters@, op.consumes).has_form,
        spec_params_fold(
            empty_fold_v(),
            op.parameters@,
            op.consumes,
        ).form_required.contains(op.parameters@[i]->Item_0.name@),
{
    lemma_required_form_fold(empty_fold_v(), op.parameters@, op.consumes, i);
}

/// One parameter the scan passes through unchanged in shape: a reference,
/// or an inline parameter in neither the body nor the form location.
pub open spec fn is_passthrough(p: crate::operation::ParameterOrRef) -> bool {
    match p {
        crate::operation::ParameterOrRef::Reference { .. } => true,
        crate::operation::ParameterOrRef::Item(param) => param.in_
            != crate::operation::ParameterIn::Body && param.in_
            != crate::operation::ParameterIn::FormData,
    }
}

/// The number of passthrough parameters.
pub open spec fn count_passthrough(ps: Seq<crate::operation::ParameterOrRef>) -> nat
    decreases ps,
{
    if ps.len() == 0 {
        0
    } else {
        count_passthrough(ps.drop_last()) + if is_passthrough(ps.last()) {
            1nat
        } else {
            0nat
        }
    }
}

/// The scan's parameter list grows by exactly the passthrough parameters.
proof fn lemma_params_fold_passthrough(
    st: ParamFoldV,
    ps: Seq<crate::operation::ParameterOrRef>,
    consumes: Option<Vec<String>>,
)
    ensures
        spec_params_fold(st, ps, consumes).params.len() == st.params.len() + count_passthrough(
            ps,
        ),
    decreases ps,
{
    if ps.len() > 0 {
        lemma_params_fold_passthrough(st, ps.drop_last(), consumes);
    }
}

/// Law: body and form parameters leave the parameter list.  The converted
/// operation holds exactly one parameter entry per passthrough parameter;
/// the body and form parameters appear only through the request payload.
pub proof fn lemma_classified_parameters_leave_list(op: crate::operation::Operation)
    ensures
        spec_operation_to_v3(op).parameters.len() == count_passthrough(op.parameters@),
{
    lemma_params_fold_passthrough(empty_fold_v(), op.parameters@, op.consumes);
}

/// Copy of one security requirement whose view equals the original's.
fn clone_requirement(req: &Vec<(String, Vec<String>)>) -> (r: Vec<(String, Vec<String>)>)
    ensures
        crate::v3::v3_requirement_view(r@) == crate::v3::v3_requirement_view(req@),
{
    let mut r: Vec<(String, Vec<String>)> = Vec::new();
    let mut i: usize = 0;
    while i < req.len()
        invariant
            i <= req@.len(),
            r@.len() == i,
            crate::v3::v3_requirement_view(r@) == crate::v3::v3_requirement_view(
                req@.subrange(0, i as int),
            ),
        decreases req.len() - i,
    {
        let k2 = req[i].0.clone();
        let v2 = clone_strings(&req[i].1);
        let ghost gk2 = k2;
        let ghost gv2 = v2;
        let ghost r0 = r@;
        r.push((k2, v2));
        proof {
            let ghost pre = req@.subrange(0, i as int);
            let ghost now = req@.subrange(0, i + 1);
            assert(r@[i as int].0 == gk2 && r@[i as int].1 == gv2);
            assert(now[i as int] == req@[i as int]);
            assert forall|j: int| 0 <= j < i implies crate::v3::v3_requirement_view(r@)[j]
                == crate::v3::v3_requirement_view(now)[j] by {
                assert(r@[j] == r0[j]);
                assert(now[j] == pre[j]);
                assert(crate::v3::v3_requirement_view(r0)[j] == crate::v3::v3_requirement_view(
                    pre,
                )[j]);
            }
            assert(crate::v3::v3_requirement_view(r@) =~~= crate::v3::v3_requirement_view(now));
        }
        i += 1;
    }
    proof {
        assert(req@.subrange(0, req@.len() as int) =~= req@);
    }
    r
}

/// Copy of a security requirement list whose view equals the original's.
fn clone_security(ss: &Vec<Vec<(String, Vec<String>)>>) -> (r: Vec<Vec<(String, Vec<String>)>>)
    ensures
        crate::v3::v3_security_view(r@) == crate::v3::v3_security_view(ss@),
{
    let mut r: Vec<Vec<(String, Vec<String>)>> = Vec::new();
    let mut i: usize = 0;
    while i < ss.len()
        invariant
            i <= ss@.len(),
            r@.len() == i,
            crate::v3::v3_security_view(r@) == crate::v3::v3_security_view(
                ss@.subrange(0, i as int),
            ),
        decreases ss.len() - i,
    {
        let c = clone_requirement(&ss[i]);
        let ghost gc = c;
        let ghost r0 = r@;
        r.push(c);
        proof {
            let ghost pre = ss@.subrange(0, i as int);
            let ghost now = ss@.subrange(0, i + 1);
            assert(r@[i as int] == gc);
            assert(now[i as int] == ss@[i as int]);
            assert forall|j: int| 0 <= j < i implies crate::v3::v3_security_view(r@)[j]
                == crate::v3::v3_security_view(now)[j] by {
                assert(r@[j] == r0[j]);
                assert(now[j] == pre[j]);
                assert(crate::v3::v3_security_view(r0)[j] == crate::v3::v3_security_view(
                    pre,
                )[j]);
            }
            assert(crate::v3::v3_security_view(r@) =~~= crate::v3::v3_security_view(now));
        }
        i += 1;
    }
    proof {
        assert(ss@.subrange(0, ss@.len() as int) =~= ss@);
    }
    r
}

/// Converts an older-format operation to the newer format.
#[verifier::rlimit(30)]
pub fn operation_to_v3(op: &crate::operation::Operation) -> (r: crate::v3::V3Operation)
    ensures
        r@ == spec_operation_to_v3(*op),
{
    let mut params: Vec<crate::v3::V3ParameterOrRef> = Vec::new();
    let mut body: Option<crate::v3::V3RequestBody> = None;
    let mut form_props: Vec<(String, V3SchemaOrRef)> = Vec::new();
    let mut form_required: Vec<String> = Vec::new();
    let mut has_form = false;
    let mut i: usize = 0;
    while i < op.parameters.len()
        invariant
            i <= op.parameters@.len(),
            ({
                let st = spec_params_fold(
                    empty_fold_v(),
                    op.parameters@.subrange(0, i as int),
                    op.consumes,
                );
                &&& crate::v3::v3_params_view(params@) == st.params
                &&& crate::v3::opt_v3_req_body_view(body) == st.body
                &&& v3_props_view(form_props@) == st.form_props
                &&& strings_v(form_required@) == st.form_required
                &&& has_form == st.has_form
            }),
            !has_form ==> form_props@.len() == 0 && form_required@.len() == 0,
        decreases op.parameters.len() - i,
    {
        let ghost st0 = spec_params_fold(
            empty_fold_v(),
            op.parameters@.subrange(0, i as int),
            op.consumes,
        );
        proof {
            assert(op.parameters@.subrange(0, i + 1).drop_last() =~= op.parameters@.subrange(
                0,
                i as int,
            ));
            assert(op.parameters@.subrange(0, i + 1).last() == op.parameters@[i as int]);
        }
        match &op.parameters[i] {
            crate::operation::ParameterOrRef::Reference { reference } => {
                let ghost ps0 = params@;
                params.push(
                    crate::v3::V3ParameterOrRef::Reference { reference: reference.clone() },
                );
                proof {
                    assert(crate::v3::v3_params_view(params@) =~= crate::v3::v3_params_view(
                        ps0,
                    ).push(
                        crate::v3::V3ParamOrRefV::Reference {
                            reference: op.parameters@[i as int]->Reference_reference@,
                        },
                    ));
                }
            },
            crate::operation::ParameterOrRef::Item(param) => {
                match param.in_ {
                    crate::operation::ParameterIn::Body => {
                        let schema = match &param.schema {
                            Some(s) => Some(schema_to_v3(s)),
                            None => None,
                        };
                        let content = match &op.consumes {
                            Some(ms) => content_for(ms, &schema),
                            None => Vec::new(),
                        };
                        body = Some(
                            crate::v3::V3RequestBody {
                                description: clone_opt_string(&param.description),
                                required: param.required,
                                content,
                            },
                        );
                        proof {
                            assert(crate::v3::opt_v3_req_body_view(body) =~~= spec_param_step(
                                st0,
                                op.parameters@[i as int],
                                op.consumes,
                            ).body);
                        }
                    },
                    crate::operation::ParameterIn::FormData => {
                        if param.ty.data_type.is_some() {
                            let sch = param_type_to_v3(&param.ty);
                            if has_form {
                                let ghost fp0 = form_props@;
                                let name = param.name.clone();
                                let ghost gkey = name;
                                let ghost gsch = sch;
                                crate::schema::assoc_insert(&mut form_props, name, sch);
                                proof {
                                    crate::v3::lemma_v3_props_view_insert(fp0, gkey, gsch);
                                }
                                if param.required {
                                    let ghost fr0 = form_required@;
                                    let name_req = param.name.clone();
                                    let ghost gkey2 = name_req;
                                    str_set_insert(&mut form_required, name_req);
                                    proof {
                                        lemma_strings_v_insert(fr0, gkey2);
                                    }
                                }
                            } else {
                                has_form = true;
                                let ghost gsch = sch;
                                form_props.push((param.name.clone(), sch));
                                if param.required {
                                    form_required.push(param.name.clone());
                                }
                                proof {
                                    broadcast use lemma_v3_props_view;

                                    assert(v3_props_view(form_props@) =~= seq![
                                        (param.name@, crate::v3::v3_ref_view(gsch)),
                                    ]);
                                    if param.required {
                                        assert(strings_v(form_required@) =~= seq![param.name@]);
                                    } else {
                                        assert(strings_v(form_required@) =~= Seq::<
                                            Seq<char>,
                                        >::empty());
                                    }
                                }
                            }
                        }
                    },
                    _ => {
                        let ghost ps0 = params@;
                        let sch = param_type_to_v3(&param.ty);
                        let location = match param.in_ {
                            crate::operation::ParameterIn::Path => crate::v3::V3ParamLocation::Path,
                            crate::operation::ParameterIn::Query => crate::v3::V3ParamLocation::Query,
                            _ => crate::v3::V3ParamLocation::Header,
                        };
                        params.push(
                            crate::v3::V3ParameterOrRef::Item(
                                crate::v3::V3Parameter {
                                    name: param.name.clone(),
                                    location,
                                    description: clone_opt_string(&param.description),
                                    required: param.required,
                                    schema: Some(sch),
                                },
                            ),
                        );
                        proof {
                            assert(crate::v3::v3_params_view(params@) =~= spec_param_step(
                                st0,
                                op.parameters@[i as int],
                                op.consumes,
                            ).params);
                        }
                    },
                }
            },
        }
        i += 1;
        proof {
            assert(spec_params_fold(
                empty_fold_v(),
                op.parameters@.subrange(0, i as int),
                op.consumes,
            ) =~~= spec_param_step(st0, op.parameters@[i - 1], op.consumes));
        }
    }
    proof {
        assert(op.parameters@.subrange(0, op.parameters@.len() as int) =~= op.parameters@);
    }
    let ghost st = spec_params_fold(empty_fold_v(), op.parameters@, op.consumes);
    let request_body: Option<crate::v3::V3RequestBody> = match body {
        Some(b) => Some(b),
        None => {
            if has_form {
                match &op.consumes {
                    Some(ms) => {
                        let inner = crate::v3::V3Schema {
                            description: None,
                            example: None,
                            extensions: Vec::new(),
                            kind: crate::v3::V3SchemaKind::AnyKind {
                                properties: form_props,
                                required: form_required,
                            },
                        };
                        let ghost ginner = inner;
                        let form_schema = Some(V3SchemaOrRef::Item(Box::new(inner)));
                        proof {
                            broadcast use crate::v3::lemma_v3_kind_view_unfold,
                                crate::v3::lemma_v3_ref_view_unfold,
                                crate::v3::lemma_v3_schema_view_unfold;

                            assert(v3_schema_view(ginner).extensions.len() == 0);
                            assert(v3_schema_view(ginner) =~~= (V3SchemaV {
                                description: None,
                                example: None,
                                extensions: Seq::empty(),
                                kind: V3KindV::AnyKind {
                                    properties: st.form_props,
                                    required: st.form_required,
                                },
                            }));
                        }
                        let content = content_for(ms, &form_schema);
                        let rb = crate::v3::V3RequestBody {
                            description: None,
                            required: false,
                            content,
                        };
                        proof {
                            assert(crate::v3::v3_req_body_view(rb) =~~= form_body_v(st, ms@));
                        }
                        Some(rb)
                    },
                    None => None,
                }
            } else {
                None
            }
        },
    };
    let mut coded: Vec<(u16, crate::v3::V3ResponseOrRef)> = Vec::new();
    let mut j: usize = 0;
    while j < op.responses.len()
        invariant
            j <= op.responses@.len(),
            crate::v3::v3_coded_view(coded@) == spec_responses_fold(
                op.responses@.subrange(0, j as int),
            ),
        decreases op.responses.len() - j,
    {
        proof {
            assert(op.responses@.subrange(0, j + 1).drop_last() =~= op.responses@.subrange(
                0,
                j as int,
            ));
            assert(op.responses@.subrange(0, j + 1).last() == op.responses@[j as int]);
        }
        match crate::text::parse_status_key(op.responses[j].0.as_str()) {
            Some(code) => {
                let converted = response_to_v3(&op.responses[j].1);
                code_insert(&mut coded, code, converted);
            },
            None => (),
        }
        j += 1;
    }
    proof {
        assert(op.responses@.subrange(0, op.responses@.len() as int) =~= op.responses@);
    }
    let security: Option<Vec<Vec<(String, Vec<String>)>>> = if op.security.len() == 0 {
        None
    } else {
        Some(clone_security(&op.security))
    };
    let r = crate::v3::V3Operation {
        tags: clone_strings(&op.tags),
        summary: clone_opt_string(&op.summary),
        description: clone_opt_string(&op.description),
        operation_id: clone_opt_string(&op.operation_id),
        parameters: params,
        request_body,
        responses: crate::v3::V3Responses { default: None, responses: coded },
        deprecated: op.deprecated,
        security,
    };
    proof {
        assert(r@ =~~= spec_operation_to_v3(*op));
    }
    r
}

} // verus!
