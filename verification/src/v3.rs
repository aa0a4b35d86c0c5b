//! The newer-format document model: the target of the document
//! conversion, together with its mathematical view.

use vstd::prelude::*;
use crate::schema::{ext_pairs_v, lit_v, opt_lit_v, opt_str_v, strings_v, Literal, LiteralV};

verus! {

/// Refinement of an integer kind.
#[derive(Clone, Copy, Debug, PartialEq, Eq, Structural)]
pub enum IntFormat {
    Int32,
    Int64,
}

/// Refinement of a number kind.
#[derive(Clone, Copy, Debug, PartialEq, Eq, Structural)]
pub enum NumFormat {
    Float,
    Double,
}

/// Refinement of a string kind.
#[derive(Clone, Copy, Debug, PartialEq, Eq, Structural)]
pub enum StrFormat {
    Byte,
    Binary,
    Date,
    DateTime,
    Password,
}

/// The format slot of a string kind: absent, a known refinement, or an
/// unknown token kept as text.
#[derive(Debug, PartialEq)]
pub enum StrFormatField {
    Empty,
    Known(StrFormat),
    Unknown(String),
}

/// Mathematical value of a `StrFormatField`.
#[verifier::ext_equal]
pub ghost enum StrFormatFieldV {
    Empty,
    Known(StrFormat),
    Unknown(Seq<char>),
}

/// View of a string-format slot.
pub open spec fn str_format_field_v(f: StrFormatField) -> StrFormatFieldV {
    match f {
        StrFormatField::Empty => StrFormatFieldV::Empty,
        StrFormatField::Known(k) => StrFormatFieldV::Known(k),
        StrFormatField::Unknown(s) => StrFormatFieldV::Unknown(s@),
    }
}

/// A schema of the newer format, or a reference to a named one.
#[derive(Debug, PartialEq)]
pub enum V3SchemaOrRef {
    Reference { reference: String },
    Item(Box<V3Schema>),
}

/// A schema of the newer format.
#[derive(Debug, PartialEq)]
pub struct V3Schema {
    pub description: Option<String>,
    pub example: Option<Literal>,
    pub extensions: Vec<(String, Literal)>,
    pub kind: V3SchemaKind,
}

/// The shape of a newer-format schema.
#[derive(Debug, PartialEq)]
pub enum V3SchemaKind {
    IntegerKind {
        int_format: Option<IntFormat>,
        multiple_of: Option<i64>,
        exclusive_minimum: bool,
        exclusive_maximum: bool,
        minimum: Option<i64>,
        maximum: Option<i64>,
        enumeration: Vec<Option<i64>>,
    },
    NumberKind {
        num_format: Option<NumFormat>,
        multiple_of: Option<i64>,
        exclusive_minimum: bool,
        exclusive_maximum: bool,
        minimum: Option<i64>,
        maximum: Option<i64>,
        enumeration: Vec<Option<i64>>,
    },
    StringKind {
        str_format: StrFormatField,
        pattern: Option<String>,
        str_enumeration: Vec<Option<String>>,
        min_length: Option<u32>,
        max_length: Option<u32>,
    },
    BooleanKind,
    ArrayKind {
        items: Option<Box<V3SchemaOrRef>>,
        min_items: Option<u32>,
        max_items: Option<u32>,
        unique_items: bool,
    },
    ObjectKind { properties: Vec<(String, V3SchemaOrRef)>, required: Vec<String> },
    AnyOfKind { any_of: Vec<V3SchemaOrRef> },
    AllOfKind { all_of: Vec<V3SchemaOrRef> },
    /// An untyped schema carrying only properties, as the synthesized
    /// form payload does.
    AnyKind { properties: Vec<(String, V3SchemaOrRef)>, required: Vec<String> },
}

/// Mathematical value of a `V3SchemaOrRef`.
#[verifier::ext_equal]
pub ghost enum V3RefV {
    Reference { reference: Seq<char> },
    Item(Box<V3SchemaV>),
}

/// Mathematical value of a `V3Schema`.
#[verifier::ext_equal]
pub ghost struct V3SchemaV {
    pub description: Option<Seq<char>>,
    pub example: Option<LiteralV>,
    pub extensions: Seq<(Seq<char>, LiteralV)>,
    pub kind: V3KindV,
}

/// Mathematical value of a `V3SchemaKind`.
#[verifier::ext_equal]
pub ghost enum V3KindV {
    IntegerKind {
        int_format: Option<IntFormat>,
        multiple_of: Option<i64>,
        exclusive_minimum: bool,
        exclusive_maximum: bool,
        minimum: Option<i64>,
        maximum: Option<i64>,
        enumeration: Seq<Option<i64>>,
    },
    NumberKind {
        num_format: Option<NumFormat>,
        multiple_of: Option<i64>,
        exclusive_minimum: bool,
        exclusive_maximum: bool,
        minimum: Option<i64>,
        maximum: Option<i64>,
        enumeration: Seq<Option<i64>>,
    },
    StringKind {
        str_format: StrFormatFieldV,
        pattern: Option<Seq<char>>,
        str_enumeration: Seq<Option<Seq<char>>>,
        min_length: Option<u32>,
        max_length: Option<u32>,
    },
    BooleanKind,
    ArrayKind {
        items: Option<Box<V3RefV>>,
        min_items: Option<u32>,
        max_items: Option<u32>,
        unique_items: bool,
    },
    ObjectKind { properties: Seq<(Seq<char>, V3RefV)>, required: Seq<Seq<char>> },
    AnyOfKind { any_of: Seq<V3RefV> },
    AllOfKind { all_of: Seq<V3RefV> },
    AnyKind { properties: Seq<(Seq<char>, V3RefV)>, required: Seq<Seq<char>> },
}

/// View of a property list of the newer format.
pub open spec fn v3_props_view(ps: Seq<(String, V3SchemaOrRef)>) -> Seq<(Seq<char>, V3RefV)>
    decreases ps,
{
    if ps.len() == 0 {
        Seq::empty()
    } else {
        v3_props_view(ps.drop_last()).push((ps.last().0@, v3_ref_view(ps.last().1)))
    }
}

/// View of a schema list of the newer format.
pub open spec fn v3_refs_view(ss: Seq<V3SchemaOrRef>) -> Seq<V3RefV>
    decreases ss,
{
    if ss.len() == 0 {
        Seq::empty()
    } else {
        v3_refs_view(ss.drop_last()).push(v3_ref_view(ss.last()))
    }
}

/// View of a newer-format schema's shape.
pub open spec fn v3_kind_view(k: V3SchemaKind) -> V3KindV
    decreases k,
{
    match k {
        V3SchemaKind::IntegerKind {
            int_format,
            multiple_of,
            exclusive_minimum,
            exclusive_maximum,
            minimum,
            maximum,
            enumeration,
        } => V3KindV::IntegerKind {
            int_format,
            multiple_of,
            exclusive_minimum,
            exclusive_maximum,
            minimum,
            maximum,
            enumeration: enumeration@,
        },
        V3SchemaKind::NumberKind {
            num_format,
            multiple_of,
            exclusive_minimum,
            exclusive_maximum,
            minimum,
            maximum,
            enumeration,
        } => V3KindV::NumberKind {
            num_format,
            multiple_of,
            exclusive_minimum,
            exclusive_maximum,
            minimum,
            maximum,
            enumeration: enumeration@,
        },
        V3SchemaKind::StringKind {
            str_format,
            pattern,
            str_enumeration,
            min_length,
            max_length,
        } => V3KindV::StringKind {
            str_format: str_format_field_v(str_format),
            pattern: opt_str_v(pattern),
            str_enumeration: str_enumeration@.map_values(|e: Option<String>| opt_str_v(e)),
            min_length,
            max_length,
        },
        V3SchemaKind::BooleanKind => V3KindV::BooleanKind,
        V3SchemaKind::ArrayKind { items, min_items, max_items, unique_items } => V3KindV::ArrayKind {
            items: match items {
                Some(b) => Some(Box::new(v3_ref_view(*b))),
                None => None,
            },
            min_items,
            max_items,
            unique_items,
        },
        V3SchemaKind::ObjectKind { properties, required } => V3KindV::ObjectKind {
            properties: v3_props_view(properties@),
            required: strings_v(required@),
        },
        V3SchemaKind::AnyOfKind { any_of } => V3KindV::AnyOfKind { any_of: v3_refs_view(any_of@) },
        V3SchemaKind::AllOfKind { all_of } => V3KindV::AllOfKind { all_of: v3_refs_view(all_of@) },
        V3SchemaKind::AnyKind { properties, required } => V3KindV::AnyKind {
            properties: v3_props_view(properties@),
            required: strings_v(required@),
        },
    }
}

/// View of a newer-format schema.
pub open spec fn v3_schema_view(s: V3Schema) -> V3SchemaV
    decreases s,
{
    V3SchemaV {
        description: opt_str_v(s.description),
        example: opt_lit_v(s.example),
        extensions: ext_pairs_v(s.extensions@),
        kind: v3_kind_view(s.kind),
    }
}

/// View of a newer-format schema-or-reference.
pub open spec fn v3_ref_view(r: V3SchemaOrRef) -> V3RefV
    decreases r,
{
    match r {
        V3SchemaOrRef::Reference { reference } => V3RefV::Reference { reference: reference@ },
        V3SchemaOrRef::Item(b) => V3RefV::Item(Box::new(v3_schema_view(*b))),
    }
}

impl View for V3SchemaOrRef {
    type V = V3RefV;

    open spec fn view(&self) -> V3RefV {
        v3_ref_view(*self)
    }
}

impl View for V3Schema {
    type V = V3SchemaV;

    open spec fn view(&self) -> V3SchemaV {
        v3_schema_view(*self)
    }
}

/// The view of a newer-format property list is built pointwise.
pub broadcast proof fn lemma_v3_props_view(ps: Seq<(String, V3SchemaOrRef)>)
    ensures
        (#[trigger] v3_props_view(ps)).len() == ps.len(),
        forall|i: int|
            0 <= i < ps.len() ==> v3_props_view(ps)[i] == (ps[i].0@, v3_ref_view(ps[i].1)),
    decreases ps,
{
    if ps.len() > 0 {
        lemma_v3_props_view(ps.drop_last());
    }
}

/// The view of a newer-format schema list is built pointwise.
pub broadcast proof fn lemma_v3_refs_view(ss: Seq<V3SchemaOrRef>)
    ensures
        (#[trigger] v3_refs_view(ss)).len() == ss.len(),
        forall|i: int| 0 <= i < ss.len() ==> v3_refs_view(ss)[i] == v3_ref_view(ss[i]),
    decreases ss,
{
    if ss.len() > 0 {
        lemma_v3_refs_view(ss.drop_last());
    }
}

/// Inserting into a newer-format property list and then viewing it is
/// viewing it and then inserting the viewed pair.
pub proof fn lemma_v3_props_view_insert(ps: Seq<(String, V3SchemaOrRef)>, k: String, v: V3SchemaOrRef)
    ensures
        v3_props_view(crate::schema::assoc_inserted(ps, k, v)) == crate::schema::insert_key_v(
            v3_props_view(ps),
            k@,
            v3_ref_view(v),
        ),
{
    lemma_v3_props_view(ps);
    crate::schema::lemma_find_key_correspond(ps, v3_props_view(ps), k@);
    let i = crate::schema::find_assoc(ps, k@);
    if i < 0 {
        lemma_v3_props_view(ps.push((k, v)));
        assert(v3_props_view(ps.push((k, v))) =~= v3_props_view(ps).push((k@, v3_ref_view(v))));
    } else {
        crate::schema::lemma_find_assoc(ps, k@);
        lemma_v3_props_view(ps.update(i, (k, v)));
        assert(v3_props_view(ps.update(i, (k, v))) =~= v3_props_view(ps).update(
            i,
            (k@, v3_ref_view(v)),
        ));
    }
}

/// Where a newer-format parameter lives.
#[derive(Clone, Copy, Debug, PartialEq, Eq, Structural)]
pub enum V3ParamLocation {
    Path,
    Query,
    Header,
}

/// One parameter of the newer format.
#[derive(Debug, PartialEq)]
pub struct V3Parameter {
    pub name: String,
    pub location: V3ParamLocation,
    pub description: Option<String>,
    pub required: bool,
    pub schema: Option<V3SchemaOrRef>,
}

/// A newer-format parameter, or a reference to one.
#[derive(Debug, PartialEq)]
pub enum V3ParameterOrRef {
    Reference { reference: String },
    Item(V3Parameter),
}

/// One media type entry of a request payload.
#[derive(Debug, PartialEq)]
pub struct V3MediaType {
    pub schema: Option<V3SchemaOrRef>,
}

/// The single request payload of an operation, keyed by media type.
#[derive(Debug, PartialEq)]
pub struct V3RequestBody {
    pub description: Option<String>,
    pub required: bool,
    pub content: Vec<(String, V3MediaType)>,
}

/// One response of the newer format.
#[derive(Debug, PartialEq)]
pub struct V3Response {
    pub description: Option<String>,
    pub schema: Option<V3SchemaOrRef>,
}

/// A newer-format response, or a reference to one.
#[derive(Debug, PartialEq)]
pub enum V3ResponseOrRef {
    Reference { reference: String },
    Item(V3Response),
}

/// The responses of a newer-format operation, keyed by numeric status
/// code; the catch-all slot stays empty in this conversion.
#[derive(Debug, PartialEq)]
pub struct V3Responses {
    pub default: Option<V3ResponseOrRef>,
    pub responses: Vec<(u16, V3ResponseOrRef)>,
}

/// One operation of the newer format.
#[derive(Debug, PartialEq)]
pub struct V3Operation {
    pub tags: Vec<String>,
    pub summary: Option<String>,
    pub description: Option<String>,
    pub operation_id: Option<String>,
    pub parameters: Vec<V3ParameterOrRef>,
    pub request_body: Option<V3RequestBody>,
    pub responses: V3Responses,
    pub deprecated: bool,
    pub security: Option<Vec<Vec<(String, Vec<String>)>>>,
}

/// Mathematical value of a `V3Parameter`.
#[verifier::ext_equal]
pub ghost struct V3ParameterV {
    pub name: Seq<char>,
    pub location: V3ParamLocation,
    pub description: Option<Seq<char>>,
    pub required: bool,
    pub schema: Option<V3RefV>,
}

/// Mathematical value of a `V3ParameterOrRef`.
#[verifier::ext_equal]
pub ghost enum V3ParamOrRefV {
    Reference { reference: Seq<char> },
    Item(V3ParameterV),
}

/// Mathematical value of a `V3MediaType`.
#[verifier::ext_equal]
pub ghost struct V3MediaTypeV {
    pub schema: Option<V3RefV>,
}

/// Mathematical value of a `V3RequestBody`.
#[verifier::ext_equal]
pub ghost struct V3RequestBodyV {
    pub description: Option<Seq<char>>,
    pub required: bool,
    pub content: Seq<(Seq<char>, V3MediaTypeV)>,
}

/// Mathematical value of a `V3Response`.
#[verifier::ext_equal]
pub ghost struct V3ResponseV {
    pub description: Option<Seq<char>>,
    pub schema: Option<V3RefV>,
}

/// Mathematical value of a `V3ResponseOrRef`.
#[verifier::ext_equal]
pub ghost enum V3RespOrRefV {
    Reference { reference: Seq<char> },
    Item(V3ResponseV),
}

/// Mathematical value of a `V3Responses`.
#[verifier::ext_equal]
pub ghost struct V3ResponsesV {
    pub default: Option<V3RespOrRefV>,
    pub responses: Seq<(u16, V3RespOrRefV)>,
}

/// Mathematical value of a `V3Operation`.
#[verifier::ext_equal]
pub ghost struct V3OperationV {
    pub tags: Seq<Seq<char>>,
    pub summary: Option<Seq<char>>,
    pub description: Option<Seq<char>>,
    pub operation_id: Option<Seq<char>>,
    pub parameters: Seq<V3ParamOrRefV>,
    pub request_body: Option<V3RequestBodyV>,
    pub responses: V3ResponsesV,
    pub deprecated: bool,
    pub security: Option<Seq<Seq<(Seq<char>, Seq<Seq<char>>)>>>,
}

/// View of an optional newer-format schema.
pub open spec fn opt_v3_ref_v(o: Option<V3SchemaOrRef>) -> Option<V3RefV> {
    match o {
        Some(s) => Some(v3_ref_view(s)),
        None => None,
    }
}

/// View of a newer-format parameter.
pub open spec fn v3_param_view(p: V3Parameter) -> V3ParameterV {
    V3ParameterV {
        name: p.name@,
        location: p.location,
        description: opt_str_v(p.description),
        required: p.required,
        schema: opt_v3_ref_v(p.schema),
    }
}

/// View of a newer-format parameter-or-reference.
pub open spec fn v3_param_or_ref_view(p: V3ParameterOrRef) -> V3ParamOrRefV {
    match p {
        V3ParameterOrRef::Reference { reference } => V3ParamOrRefV::Reference {
            reference: reference@,
        },
        V3ParameterOrRef::Item(x) => V3ParamOrRefV::Item(v3_param_view(x)),
    }
}

/// View of a parameter list.
pub open spec fn v3_params_view(ps: Seq<V3ParameterOrRef>) -> Seq<V3ParamOrRefV> {
    ps.map_values(|p: V3ParameterOrRef| v3_param_or_ref_view(p))
}

/// View of a media type entry.
pub open spec fn v3_media_view(m: V3MediaType) -> V3MediaTypeV {
    V3MediaTypeV { schema: opt_v3_ref_v(m.schema) }
}

/// View of a request payload's content map.
pub open spec fn v3_content_view(cs: Seq<(String, V3MediaType)>) -> Seq<(Seq<char>, V3MediaTypeV)> {
    cs.map_values(|c: (String, V3MediaType)| (c.0@, v3_media_view(c.1)))
}

/// View of a request payload.
pub open spec fn v3_req_body_view(b: V3RequestBody) -> V3RequestBodyV {
    V3RequestBodyV {
        description: opt_str_v(b.description),
        required: b.required,
        content: v3_content_view(b.content@),
    }
}

/// View of an optional request payload.
pub open spec fn opt_v3_req_body_view(o: Option<V3RequestBody>) -> Option<V3RequestBodyV> {
    match o {
        Some(b) => Some(v3_req_body_view(b)),
        None => None,
    }
}

/// View of a newer-format response.
pub open spec fn v3_response_view(r: V3Response) -> V3ResponseV {
    V3ResponseV { description: opt_str_v(r.description), schema: opt_v3_ref_v(r.schema) }
}

/// View of a newer-format response-or-reference.
pub open spec fn v3_resp_or_ref_view(r: V3ResponseOrRef) -> V3RespOrRefV {
    match r {
        V3ResponseOrRef::Reference { reference } => V3RespOrRefV::Reference {
            reference: reference@,
        },
        V3ResponseOrRef::Item(x) => V3RespOrRefV::Item(v3_response_view(x)),
    }
}

/// View of a coded response list.
pub open spec fn v3_coded_view(rs: Seq<(u16, V3ResponseOrRef)>) -> Seq<(u16, V3RespOrRefV)> {
    rs.map_values(|r: (u16, V3ResponseOrRef)| (r.0, v3_resp_or_ref_view(r.1)))
}

/// View of a responses table.
pub open spec fn v3_responses_view(r: V3Responses) -> V3ResponsesV {
    V3ResponsesV {
        default: match r.default {
            Some(d) => Some(v3_resp_or_ref_view(d)),
            None => None,
        },
        responses: v3_coded_view(r.responses@),
    }
}

/// View of one security requirement.
pub open spec fn v3_requirement_view(r: Seq<(String, Vec<String>)>) -> Seq<
    (Seq<char>, Seq<Seq<char>>),
> {
    r.map_values(|p: (String, Vec<String>)| (p.0@, strings_v(p.1@)))
}

/// View of a security requirement list.
pub open spec fn v3_security_view(ss: Seq<Vec<(String, Vec<String>)>>) -> Seq<
    Seq<(Seq<char>, Seq<Seq<char>>)>,
> {
    ss.map_values(|r: Vec<(String, Vec<String>)>| v3_requirement_view(r@))
}

/// View of a newer-format operation.
pub open spec fn v3_operation_view(op: V3Operation) -> V3OperationV {
    V3OperationV {
        tags: strings_v(op.tags@),
        summary: opt_str_v(op.summary),
        description: opt_str_v(op.description),
        operation_id: opt_str_v(op.operation_id),
        parameters: v3_params_view(op.parameters@),
        request_body: opt_v3_req_body_view(op.request_body),
        responses: v3_responses_view(op.responses),
        deprecated: op.deprecated,
        security: match op.security {
            Some(s) => Some(v3_security_view(s@)),
            None => None,
        },
    }
}

impl View for V3Operation {
    type V = V3OperationV;

    open spec fn view(&self) -> V3OperationV {
        v3_operation_view(*self)
    }
}

/// One unfolding of the shape view, case by case.
pub broadcast proof fn lemma_v3_kind_view_unfold(k: V3SchemaKind)
    ensures
        (#[trigger] v3_kind_view(k)) == (match k {
            V3SchemaKind::IntegerKind {
                int_format,
                multiple_of,
                exclusive_minimum,
                exclusive_maximum,
                minimum,
                maximum,
                enumeration,
            } => V3KindV::IntegerKind {
                int_format,
                multiple_of,
                exclusive_minimum,
                exclusive_maximum,
                minimum,
                maximum,
                enumeration: enumeration@,
            },
            V3SchemaKind::NumberKind {
                num_format,
                multiple_of,
                exclusive_minimum,
                exclusive_maximum,
                minimum,
                maximum,
                enumeration,
            } => V3KindV::NumberKind {
                num_format,
                multiple_of,
                exclusive_minimum,
                exclusive_maximum,
                minimum,
                maximum,
                enumeration: enumeration@,
            },
            V3SchemaKind::StringKind {
                str_format,
                pattern,
                str_enumeration,
                min_length,
                max_length,
            } => V3KindV::StringKind {
                str_format: str_format_field_v(str_format),
                pattern: opt_str_v(pattern),
                str_enumeration: str_enumeration@.map_values(|e: Option<String>| opt_str_v(e)),
                min_length,
                max_length,
            },
            V3SchemaKind::BooleanKind => V3KindV::BooleanKind,
            V3SchemaKind::ArrayKind { items, min_items, max_items, unique_items } => V3KindV::ArrayKind {
                items: match items {
                    Some(b) => Some(Box::new(v3_ref_view(*b))),
                    None => None,
                },
                min_items,
                max_items,
                unique_items,
            },
            V3SchemaKind::ObjectKind { properties, required } => V3KindV::ObjectKind {
                properties: v3_props_view(properties@),
                required: strings_v(required@),
            },
            V3SchemaKind::AnyOfKind { any_of } => V3KindV::AnyOfKind {
                any_of: v3_refs_view(any_of@),
            },
            V3SchemaKind::AllOfKind { all_of } => V3KindV::AllOfKind {
                all_of: v3_refs_view(all_of@),
            },
            V3SchemaKind::AnyKind { properties, required } => V3KindV::AnyKind {
                properties: v3_props_view(properties@),
                required: strings_v(required@),
            },
        }),
{
}

/// One unfolding of the schema-or-reference view.
pub broadcast proof fn lemma_v3_ref_view_unfold(r: V3SchemaOrRef)
    ensures
        (#[trigger] v3_ref_view(r)) == (match r {
            V3SchemaOrRef::Reference { reference } => V3RefV::Reference { reference: reference@ },
            V3SchemaOrRef::Item(b) => V3RefV::Item(Box::new(v3_schema_view(*b))),
        }),
{
}

/// One unfolding of the schema view, field by field.
pub broadcast proof fn lemma_v3_schema_view_unfold(s: V3Schema)
    ensures
        (#[trigger] v3_schema_view(s)) == (V3SchemaV {
            description: opt_str_v(s.description),
            example: opt_lit_v(s.example),
            extensions: ext_pairs_v(s.extensions@),
            kind: v3_kind_view(s.kind),
        }),
{
}

} // verus!
