//! The older-format document model: operations, parameters, responses and
//! security schemes, together with the operations that fill them in.

use vstd::prelude::*;
use crate::schema::{
    assoc_insert, assoc_inserted, assoc_remove, assoc_removed, clone_opt_string, find_key_v,
    insert_key_v, lemma_find_key_correspond, opt_str_v, schema_v, Schema, SchemaV,
};
use crate::text::{dec_seq, decimal_of};

verus! {

/// Where a parameter lives.
#[derive(Clone, Copy, Debug, PartialEq, Eq, Structural)]
pub enum ParameterIn {
    Path,
    Query,
    Header,
    Body,
    FormData,
}

/// The type description of a non-body parameter or of an array's items in
/// the older format.
#[derive(Debug, PartialEq)]
pub struct ItemsDesc {
    pub data_type: Option<crate::schema::DataType>,
    pub format: Option<crate::schema::DataTypeFormat>,
    pub items: Option<Box<ItemsDesc>>,
    pub multiple_of: Option<i64>,
    pub minimum: Option<i64>,
    pub maximum: Option<i64>,
    pub exclusive_minimum: Option<bool>,
    pub exclusive_maximum: Option<bool>,
    pub pattern: Option<String>,
    pub enum_: Vec<crate::schema::Literal>,
    pub min_length: Option<u32>,
    pub max_length: Option<u32>,
    pub min_items: Option<u32>,
    pub max_items: Option<u32>,
    pub unique_items: Option<bool>,
}

impl ItemsDesc {
    /// A type description with every attribute absent.
    pub fn empty() -> (r: ItemsDesc)
        ensures
            r.data_type is None,
            r.format is None,
            r.items is None,
            r.enum_@.len() == 0,
    {
        ItemsDesc {
            data_type: None,
            format: None,
            items: None,
            multiple_of: None,
            minimum: None,
            maximum: None,
            exclusive_minimum: None,
            exclusive_maximum: None,
            pattern: None,
            enum_: Vec::new(),
            min_length: None,
            max_length: None,
            min_items: None,
            max_items: None,
            unique_items: None,
        }
    }
}

/// One operation parameter in the older format.
#[derive(Debug)]
pub struct Parameter {
    pub name: String,
    pub in_: ParameterIn,
    pub description: Option<String>,
    pub required: bool,
    /// The embedded schema of a body parameter.
    pub schema: Option<Schema>,
    /// The type of a non-body parameter.
    pub ty: ItemsDesc,
}

/// A parameter, or a reference to one.
#[derive(Debug)]
pub enum ParameterOrRef {
    Reference { reference: String },
    Item(Parameter),
}

/// One response in the older format.
#[derive(Debug)]
pub struct Response {
    pub description: Option<String>,
    pub schema: Option<Schema>,
}

/// A response, or a reference to one.
#[derive(Debug)]
pub enum ResponseOrRef {
    Reference { reference: String },
    Item(Response),
}

/// Mathematical value of a `Response`.
pub ghost struct ResponseV {
    pub description: Option<Seq<char>>,
    pub schema: Option<SchemaV>,
}

/// Mathematical value of a `ResponseOrRef`.
pub ghost enum RespOrRefV {
    Reference { reference: Seq<char> },
    Item(ResponseV),
}

/// View of an optional schema.
pub open spec fn opt_schema_v(o: Option<Schema>) -> Option<SchemaV> {
    match o {
        Some(s) => Some(schema_v(s)),
        None => None,
    }
}

/// View of a response.
pub open spec fn response_v(r: Response) -> ResponseV {
    ResponseV { description: opt_str_v(r.description), schema: opt_schema_v(r.schema) }
}

/// View of a response-or-reference.
pub open spec fn resp_or_ref_v(r: ResponseOrRef) -> RespOrRefV {
    match r {
        ResponseOrRef::Reference { reference } => RespOrRefV::Reference { reference: reference@ },
        ResponseOrRef::Item(x) => RespOrRefV::Item(response_v(x)),
    }
}

/// View of a response map.
pub open spec fn responses_v(ps: Seq<(String, ResponseOrRef)>) -> Seq<(Seq<char>, RespOrRefV)> {
    ps.map_values(|p: (String, ResponseOrRef)| (p.0@, resp_or_ref_v(p.1)))
}

/// Inserting into a response map and then viewing it is viewing it and
/// then inserting the viewed pair.
pub proof fn lemma_responses_v_insert(ps: Seq<(String, ResponseOrRef)>, k: String, v: ResponseOrRef)
    ensures
        responses_v(assoc_inserted(ps, k, v)) == insert_key_v(responses_v(ps), k@, resp_or_ref_v(v)),
{
    assert(responses_v(ps).len() == ps.len());
    assert(forall|i: int|
        0 <= i < ps.len() ==> responses_v(ps)[i] == (#[trigger] ps[i].0@, resp_or_ref_v(
            ps[i].1,
        )));
    lemma_find_key_correspond(ps, responses_v(ps), k@);
    let i = crate::schema::find_assoc(ps, k@);
    if i < 0 {
        assert(responses_v(ps.push((k, v))) =~= responses_v(ps).push((k@, resp_or_ref_v(v))));
    } else {
        crate::schema::lemma_find_assoc(ps, k@);
        assert(responses_v(ps.update(i, (k, v))) =~= responses_v(ps).update(
            i,
            (k@, resp_or_ref_v(v)),
        ));
    }
}

/// Removing from a response map and then viewing it is viewing it and then
/// removing the viewed key.
pub proof fn lemma_responses_v_remove(ps: Seq<(String, ResponseOrRef)>, k: Seq<char>)
    ensures
        responses_v(assoc_removed(ps, k)) == ({
            let i = find_key_v(responses_v(ps), k);
            if i < 0 {
                responses_v(ps)
            } else {
                responses_v(ps).remove(i)
            }
        }),
{
    assert(responses_v(ps).len() == ps.len());
    assert(forall|i: int|
        0 <= i < ps.len() ==> responses_v(ps)[i] == (#[trigger] ps[i].0@, resp_or_ref_v(
            ps[i].1,
        )));
    lemma_find_key_correspond(ps, responses_v(ps), k);
    let i = crate::schema::find_assoc(ps, k);
    if i >= 0 {
        crate::schema::lemma_find_assoc(ps, k);
        assert(responses_v(ps.remove(i)) =~= responses_v(ps).remove(i));
    }
}

/// One security requirement: each named scheme with the scopes asked of
/// it.
pub type SecurityRequirement = Vec<(String, Vec<String>)>;

/// One operation in the older document format.
#[derive(Debug)]
pub struct Operation {
    pub tags: Vec<String>,
    pub summary: Option<String>,
    pub description: Option<String>,
    pub operation_id: Option<String>,
    /// Accepted media types of the request payload.
    pub consumes: Option<Vec<String>>,
    /// Produced media types of the responses.
    pub produces: Option<Vec<String>>,
    pub parameters: Vec<ParameterOrRef>,
    /// Responses keyed by textual status code.
    pub responses: Vec<(String, ResponseOrRef)>,
    pub deprecated: bool,
    pub security: Vec<SecurityRequirement>,
}

impl Operation {
    /// An operation with nothing set.
    pub fn empty() -> (r: Operation)
        ensures
            r.tags@.len() == 0,
            r.summary is None,
            r.description is None,
            r.operation_id is None,
            r.consumes is None,
            r.produces is None,
            r.parameters@.len() == 0,
            r.responses@.len() == 0,
            !r.deprecated,
            r.security@.len() == 0,
    {
        Operation {
            tags: Vec::new(),
            summary: None,
            description: None,
            operation_id: None,
            consumes: None,
            produces: None,
            parameters: Vec::new(),
            responses: Vec::new(),
            deprecated: false,
            security: Vec::new(),
        }
    }
}

/// A security scheme of the older format.
#[derive(Debug)]
pub struct SecurityScheme {
    pub type_: String,
    pub name: Option<String>,
    pub in_: Option<String>,
    pub flow: Option<String>,
    pub auth_url: Option<String>,
    pub token_url: Option<String>,
    pub scopes: Vec<(String, String)>,
    pub description: Option<String>,
}

/// Whether two operations agree on everything but their responses.
pub open spec fn same_but_responses(a: Operation, b: Operation) -> bool {
    &&& a.tags == b.tags
    &&& a.summary == b.summary
    &&& a.description == b.description
    &&& a.operation_id == b.operation_id
    &&& a.consumes == b.consumes
    &&& a.produces == b.produces
    &&& a.parameters == b.parameters
    &&& a.deprecated == b.deprecated
    &&& a.security == b.security
}

/// Whether two operations agree on everything but their parameters.
pub open spec fn same_but_parameters(a: Operation, b: Operation) -> bool {
    &&& a.tags == b.tags
    &&& a.summary == b.summary
    &&& a.description == b.description
    &&& a.operation_id == b.operation_id
    &&& a.consumes == b.consumes
    &&& a.produces == b.produces
    &&& a.responses == b.responses
    &&& a.deprecated == b.deprecated
    &&& a.security == b.security
}

/// What the standardised reason phrase of a status code is: a fixed
/// function of the code alone.
pub uninterp spec fn reason_of(code: u16) -> Option<Seq<char>>;

/// Relies on http's StatusCode::from_u16 and canonical_reason: the
/// standardised reason phrase of a status code, if the code is in range
/// and has one.
#[verifier::external_body]
fn status_reason(code: u16) -> (r: Option<String>)
    ensures
        opt_str_v(r) == reason_of(code),
{
    match http::StatusCode::from_u16(code) {
        Ok(status) => status.canonical_reason().map(|s| s.to_owned()),
        Err(_) => None,
    }
}

/// The description an error response carries: the given text, else the
/// standardised reason phrase of the code, else empty.
pub open spec fn error_description_v(code: u16, given: Option<String>) -> Seq<char> {
    match given {
        Some(d) => d@,
        None => match reason_of(code) {
            Some(s) => s,
            None => Seq::empty(),
        },
    }
}

/// The description an error response carries for `code`.
pub fn error_description(code: u16, given: Option<String>) -> (r: String)
    ensures
        r@ == error_description_v(code, given),
{
    match given {
        Some(d) => d,
        None => match status_reason(code) {
            Some(s) => s,
            None => String::new(),
        },
    }
}

/// One declared error response: a status code, an optional description
/// and an optional named schema.
#[derive(Debug)]
pub struct ErrorCode {
    pub code: u16,
    pub description: Option<String>,
    pub schema: Option<String>,
}

/// The response recorded for one declared error: the description, and a
/// pointer to the named schema when one is given.
pub open spec fn error_response_v(description: Seq<char>, schema: Option<Seq<char>>) -> RespOrRefV {
    RespOrRefV::Item(
        ResponseV {
            description: Some(description),
            schema: match schema {
                Some(n) => Some(
                    SchemaV {
                        name: Some(n),
                        reference: Some(crate::builder::ref_path_v(n)),
                        ..crate::schema::empty_schema_v()
                    },
                ),
                None => None,
            },
        },
    )
}

/// Records one error response on the operation, keyed by the decimal text
/// of its status code.
pub fn insert_error_response(
    op: &mut Operation,
    code: u16,
    description: String,
    schema_name: Option<String>,
)
    ensures
        responses_v(final(op).responses@) == insert_key_v(
            responses_v(old(op).responses@),
            dec_seq(code as nat),
            error_response_v(description@, opt_str_v(schema_name)),
        ),
        same_but_responses(*old(op), *final(op)),
{
    let key = decimal_of(code as u64);
    let schema = match &schema_name {
        Some(n) => {
            let mut s = Schema::empty();
            s.reference = Some(crate::builder::ref_path(n.as_str()));
            s.name = Some(n.clone());
            Some(s)
        },
        None => None,
    };
    let response = ResponseOrRef::Item(Response { description: Some(description), schema });
    let ghost gkey = key;
    let ghost gval = response;
    let ghost ps = op.responses@;
    assoc_insert(&mut op.responses, key, response);
    proof {
        broadcast use crate::schema::lemma_schema_v_unfold;

        lemma_responses_v_insert(ps, gkey, gval);
        assert(resp_or_ref_v(gval) =~~= error_response_v(description@, opt_str_v(schema_name)));
    }
}

/// The named schema one declared error points at: its own, else the
/// container-wide default, else none.
pub open spec fn error_schema_choice_v(c: ErrorCode, dflt: Option<String>) -> Option<Seq<char>> {
    match c.schema {
        Some(s) => Some(s@),
        None => opt_str_v(dflt),
    }
}

/// The response map after recording the declared errors in order: each
/// error under the decimal text of its code, with its description or the
/// code's standardised reason phrase, pointing at its schema or the
/// default one.
pub open spec fn error_fold_v(
    rs: Seq<(Seq<char>, RespOrRefV)>,
    codes: Seq<ErrorCode>,
    dflt: Option<String>,
) -> Seq<(Seq<char>, RespOrRefV)>
    decreases codes,
{
    if codes.len() == 0 {
        rs
    } else {
        let c = codes.last();
        insert_key_v(
            error_fold_v(rs, codes.drop_last(), dflt),
            dec_seq(c.code as nat),
            error_response_v(error_description_v(c.code, c.description), error_schema_choice_v(c, dflt)),
        )
    }
}

/// Records the declared error responses on the operation, in order.
pub fn apply_error_codes(op: &mut Operation, codes: &Vec<ErrorCode>, dflt: &Option<String>)
    ensures
        responses_v(final(op).responses@) == error_fold_v(
            responses_v(old(op).responses@),
            codes@,
            *dflt,
        ),
        same_but_responses(*old(op), *final(op)),
{
    let ghost rs0 = responses_v(op.responses@);
    let mut i: usize = 0;
    while i < codes.len()
        invariant
            i <= codes@.len(),
            responses_v(op.responses@) == error_fold_v(rs0, codes@.subrange(0, i as int), *dflt),
            same_but_responses(*old(op), *op),
        decreases codes.len() - i,
    {
        proof {
            assert(codes@.subrange(0, i + 1).drop_last() =~= codes@.subrange(0, i as int));
            assert(codes@.subrange(0, i + 1).last() == codes@[i as int]);
        }
        let c = &codes[i];
        let description = error_description(c.code, clone_opt_string(&c.description));
        let schema_name = match &c.schema {
            Some(s) => Some(s.clone()),
            None => clone_opt_string(dflt),
        };
        proof {
            assert(opt_str_v(schema_name) == error_schema_choice_v(codes@[i as int], *dflt));
        }
        insert_error_response(op, c.code, description, schema_name);
        i += 1;
    }
    proof {
        assert(codes@.subrange(0, codes@.len() as int) =~= codes@);
    }
}

/// The response map after striking out the given status codes, in order:
/// each code's decimal key is removed if present.
pub open spec fn remove_codes_v(
    rs: Seq<(Seq<char>, RespOrRefV)>,
    codes: Seq<u16>,
) -> Seq<(Seq<char>, RespOrRefV)>
    decreases codes,
{
    if codes.len() == 0 {
        rs
    } else {
        let pre = remove_codes_v(rs, codes.drop_last());
        let i = find_key_v(pre, dec_seq(codes.last() as nat));
        if i < 0 {
            pre
        } else {
            pre.remove(i)
        }
    }
}

/// Strikes the given status codes out of the operation's responses, as an
/// overlay that silences errors declared further in does.
pub fn remove_error_codes(op: &mut Operation, codes: &Vec<u16>)
    ensures
        responses_v(final(op).responses@) == remove_codes_v(
            responses_v(old(op).responses@),
            codes@,
        ),
        same_but_responses(*old(op), *final(op)),
{
    let ghost rs0 = responses_v(op.responses@);
    let mut i: usize = 0;
    while i < codes.len()
        invariant
            i <= codes@.len(),
            responses_v(op.responses@) == remove_codes_v(rs0, codes@.subrange(0, i as int)),
            same_but_responses(*old(op), *op),
        decreases codes.len() - i,
    {
        proof {
            assert(codes@.subrange(0, i + 1).drop_last() =~= codes@.subrange(0, i as int));
            assert(codes@.subrange(0, i + 1).last() == codes@[i as int]);
        }
        let key = decimal_of(codes[i] as u64);
        let ghost ps = op.responses@;
        let ghost gkey = key;
        assoc_remove(&mut op.responses, &key);
        proof {
            lemma_responses_v_remove(ps, gkey@);
        }
        i += 1;
    }
    proof {
        assert(codes@.subrange(0, codes@.len() as int) =~= codes@);
    }
}

/// Appends the request-body parameter a payload type contributes: a
/// required parameter named `body` in the body location, carrying the
/// type's schema and description.
pub fn push_body_parameter(op: &mut Operation, description: Option<String>, schema: Schema)
    ensures
        final(op).parameters@.len() == old(op).parameters@.len() + 1,
        forall|i: int|
            0 <= i < old(op).parameters@.len() ==> final(op).parameters@[i] == old(
                op,
            ).parameters@[i],
        final(op).parameters@.last() matches ParameterOrRef::Item(p) && p.name@ == "body"@
            && p.in_ == ParameterIn::Body && p.required && opt_schema_v(p.schema) == Some(
            schema@,
        ) && opt_str_v(p.description) == opt_str_v(description),
        same_but_parameters(*old(op), *final(op)),
{
    let p = Parameter {
        name: String::from_str("body"),
        in_: ParameterIn::Body,
        description,
        required: true,
        schema: Some(schema),
        ty: ItemsDesc::empty(),
    };
    op.parameters.push(ParameterOrRef::Item(p));
}

/// The response recorded for a success payload: `OK`, with the payload
/// type's schema.
pub open spec fn ok_response_v(schema: SchemaV) -> RespOrRefV {
    RespOrRefV::Item(ResponseV { description: Some("OK"@), schema: Some(schema) })
}

/// Records the success response of a payload type on the operation, under
/// the `200` status key.
pub fn insert_ok_response(op: &mut Operation, schema: Schema)
    ensures
        responses_v(final(op).responses@) == insert_key_v(
            responses_v(old(op).responses@),
            "200"@,
            ok_response_v(schema@),
        ),
        same_but_responses(*old(op), *final(op)),
{
    let key = String::from_str("200");
    let value = ResponseOrRef::Item(
        Response { description: Some(String::from_str("OK")), schema: Some(schema) },
    );
    let ghost ps = op.responses@;
    let ghost gkey = key;
    let ghost gval = value;
    assoc_insert(&mut op.responses, key, value);
    proof {
        lemma_responses_v_insert(ps, gkey, gval);
        assert(resp_or_ref_v(gval) =~~= ok_response_v(schema@));
    }
}

} // verus!
