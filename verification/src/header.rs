//! Building header parameter declarations from a type's fields.

use vstd::prelude::*;
use crate::schema::{clone_opt_string, opt_str_v, DataType, DataTypeFormat};
use crate::operation::{ItemsDesc, Parameter, ParameterIn};

verus! {

/// One field of a header-declaring type, with its annotations resolved.
#[derive(Debug)]
pub struct HeaderField {
    /// The declared field name; absent for a positional field.
    pub field_name: Option<String>,
    /// An explicit header name, overriding the field name.
    pub attr_name: Option<String>,
    /// An explicit description.
    pub description: Option<String>,
    /// The field's documentation; absent when empty.
    pub docs: Option<String>,
    /// Left out entirely.
    pub skip: bool,
    /// An explicit format token, overriding the field type.
    pub format_token: Option<String>,
    /// The data kind the field type exposes.
    pub data_type: Option<DataType>,
    /// The refinement the field type exposes.
    pub format: Option<DataTypeFormat>,
}

/// Why no header parameters could be built.
#[derive(Debug, PartialEq, Eq)]
pub enum HeaderError {
    /// The field at this position has neither an explicit header name nor
    /// a field name.
    MissingName { field: usize },
}

/// The refinement a format token names, if the token is known.
pub open spec fn format_of_token_v(s: Seq<char>) -> Option<DataTypeFormat> {
    if s == "int32"@ {
        Some(DataTypeFormat::Int32)
    } else if s == "int64"@ {
        Some(DataTypeFormat::Int64)
    } else if s == "float"@ {
        Some(DataTypeFormat::Float)
    } else if s == "double"@ {
        Some(DataTypeFormat::Double)
    } else if s == "byte"@ {
        Some(DataTypeFormat::Byte)
    } else if s == "binary"@ {
        Some(DataTypeFormat::Binary)
    } else if s == "date"@ {
        Some(DataTypeFormat::Date)
    } else if s == "datetime"@ || s == "date-time"@ {
        Some(DataTypeFormat::DateTime)
    } else if s == "password"@ {
        Some(DataTypeFormat::Password)
    } else if s == "url"@ {
        Some(DataTypeFormat::Url)
    } else if s == "uuid"@ {
        Some(DataTypeFormat::Uuid)
    } else if s == "ip"@ {
        Some(DataTypeFormat::Ip)
    } else if s == "ipv4"@ {
        Some(DataTypeFormat::IpV4)
    } else if s == "ipv6"@ {
        Some(DataTypeFormat::IpV6)
    } else if s == "other"@ {
        Some(DataTypeFormat::Other)
    } else {
        None
    }
}

/// The refinement a format token names, if the token is known.
pub fn format_of_token(s: &str) -> (r: Option<DataTypeFormat>)
    ensures
        r == format_of_token_v(s@),
{
    if str_eq(s, "int32") {
        Some(DataTypeFormat::Int32)
    } else if str_eq(s, "int64") {
        Some(DataTypeFormat::Int64)
    } else if str_eq(s, "float") {
        Some(DataTypeFormat::Float)
    } else if str_eq(s, "double") {
        Some(DataTypeFormat::Double)
    } else if str_eq(s, "byte") {
        Some(DataTypeFormat::Byte)
    } else if str_eq(s, "binary") {
        Some(DataTypeFormat::Binary)
    } else if str_eq(s, "date") {
        Some(DataTypeFormat::Date)
    } else if str_eq(s, "datetime") || str_eq(s, "date-time") {
        Some(DataTypeFormat::DateTime)
    } else if str_eq(s, "password") {
        Some(DataTypeFormat::Password)
    } else if str_eq(s, "url") {
        Some(DataTypeFormat::Url)
    } else if str_eq(s, "uuid") {
        Some(DataTypeFormat::Uuid)
    } else if str_eq(s, "ip") {
        Some(DataTypeFormat::Ip)
    } else if str_eq(s, "ipv4") {
        Some(DataTypeFormat::IpV4)
    } else if str_eq(s, "ipv6") {
        Some(DataTypeFormat::IpV6)
    } else if str_eq(s, "other") {
        Some(DataTypeFormat::Other)
    } else {
        None
    }
}

/// Relies on str's equality: two string slices are equal exactly when
/// their characters are.
#[verifier::external_body]
fn str_eq(a: &str, b: &str) -> (r: bool)
    ensures
        r == (a@ == b@),
{
    a == b
}

/// The data kind implied by a refinement: the integer refinements are
/// integer, the number refinements are number, and every other
/// refinement rides on a string.
pub open spec fn kind_of_format_v(f: DataTypeFormat) -> DataType {
    match f {
        DataTypeFormat::Int32 => DataType::Integer,
        DataTypeFormat::Int64 => DataType::Integer,
        DataTypeFormat::Float => DataType::Number,
        DataTypeFormat::Double => DataType::Number,
        _ => DataType::Text,
    }
}

/// The data kind implied by a refinement.
pub fn kind_of_format(f: DataTypeFormat) -> (r: DataType)
    ensures
        r == kind_of_format_v(f),
{
    match f {
        DataTypeFormat::Int32 => DataType::Integer,
        DataTypeFormat::Int64 => DataType::Integer,
        DataTypeFormat::Float => DataType::Number,
        DataTypeFormat::Double => DataType::Number,
        _ => DataType::Text,
    }
}

/// The header name a field declares: its explicit name, else its field
/// name.
pub open spec fn header_name_v(f: HeaderField) -> Option<Seq<char>> {
    match f.attr_name {
        Some(n) => Some(n@),
        None => opt_str_v(f.field_name),
    }
}

/// The description a header field carries: its explicit description,
/// else its documentation.
pub open spec fn header_description_v(f: HeaderField) -> Option<Seq<char>> {
    match f.description {
        Some(d) => Some(d@),
        None => opt_str_v(f.docs),
    }
}

/// The kind and refinement a header field carries: an explicit format
/// token overrides the field type, an unknown token degrading to no kind
/// at all.
pub open spec fn header_kind_v(f: HeaderField) -> (Option<DataType>, Option<DataTypeFormat>) {
    match f.format_token {
        Some(t) => match format_of_token_v(t@) {
            Some(fmt) => (Some(kind_of_format_v(fmt)), Some(fmt)),
            None => (None, None),
        },
        None => (f.data_type, f.format),
    }
}

/// One built header parameter, mathematically.
pub ghost struct HeaderParamV {
    pub name: Seq<char>,
    pub description: Option<Seq<char>>,
    pub data_type: Option<DataType>,
    pub format: Option<DataTypeFormat>,
}

/// The header parameters the fields declare, or the position of the
/// first field with no name at all.
pub open spec fn spec_header_params(fs: Seq<HeaderField>) -> Result<Seq<HeaderParamV>, int>
    decreases fs,
{
    if fs.len() == 0 {
        Ok(Seq::empty())
    } else {
        match spec_header_params(fs.drop_last()) {
            Err(e) => Err(e),
            Ok(pre) => {
                let f = fs.last();
                if f.skip {
                    Ok(pre)
                } else {
                    match header_name_v(f) {
                        None => Err(fs.len() - 1),
                        Some(n) => Ok(
                            pre.push(
                                HeaderParamV {
                                    name: n,
                                    description: header_description_v(f),
                                    data_type: header_kind_v(f).0,
                                    format: header_kind_v(f).1,
                                },
                            ),
                        ),
                    }
                }
            },
        }
    }
}

/// Once a field with no name at all stands among the fields, the whole
/// build fails at its position.
proof fn lemma_header_err_propagates(fs: Seq<HeaderField>, i: int)
    requires
        0 <= i < fs.len(),
        spec_header_params(fs.subrange(0, i)) is Ok,
        !fs[i].skip,
        header_name_v(fs[i]) is None,
    ensures
        spec_header_params(fs) == Err::<Seq<HeaderParamV>, int>(i),
    decreases fs.len(),
{
    if fs.len() == i + 1 {
        assert(fs.subrange(0, i) =~= fs.drop_last());
    } else {
        assert(fs.drop_last().subrange(0, i) =~= fs.subrange(0, i));
        assert(fs.drop_last()[i] == fs[i]);
        lemma_header_err_propagates(fs.drop_last(), i);
    }
}

/// Builds the header parameter declarations of a type's fields: each
/// field that is not skipped becomes one required-or-not header
/// parameter under its declared name.  A field with no name at all stops
/// the build and names its position.
pub fn header_parameters(fields: &Vec<HeaderField>, required: bool) -> (r: Result<
    Vec<Parameter>,
    HeaderError,
>)
    ensures
        match r {
            Ok(ps) => spec_header_params(fields@) matches Ok(vs) && ps@.len() == vs.len()
                && forall|j: int|
                0 <= j < vs.len() ==> {
                    let p = #[trigger] ps@[j];
                    &&& p.name@ == vs[j].name
                    &&& p.in_ == ParameterIn::Header
                    &&& opt_str_v(p.description) == vs[j].description
                    &&& p.required == required
                    &&& p.schema is None
                    &&& p.ty.data_type == vs[j].data_type
                    &&& p.ty.format == vs[j].format
                },
            Err(HeaderError::MissingName { field }) => spec_header_params(fields@) == Err::<
                Seq<HeaderParamV>,
                int,
            >(field as int),
        },
{
    let mut ps: Vec<Parameter> = Vec::new();
    let mut i: usize = 0;
    while i < fields.len()
        invariant
            i <= fields@.len(),
            spec_header_params(fields@.subrange(0, i as int)) matches Ok(vs) && ps@.len()
                == vs.len() && forall|j: int|
                0 <= j < vs.len() ==> {
                    let p = #[trigger] ps@[j];
                    &&& p.name@ == vs[j].name
                    &&& p.in_ == ParameterIn::Header
                    &&& opt_str_v(p.description) == vs[j].description
                    &&& p.required == required
                    &&& p.schema is None
                    &&& p.ty.data_type == vs[j].data_type
                    &&& p.ty.format == vs[j].format
                },
        decreases fields.len() - i,
    {
        proof {
            assert(fields@.subrange(0, i + 1).drop_last() =~= fields@.subrange(0, i as int));
            assert(fields@.subrange(0, i + 1).last() == fields@[i as int]);
        }
        let f = &fields[i];
        if !f.skip {
            let name = match &f.attr_name {
                Some(n) => Some(n.clone()),
                None => clone_opt_string(&f.field_name),
            };
            let name = match name {
                Some(n) => n,
                None => {
                    proof {
                        lemma_header_err_propagates(fields@, i as int);
                    }
                    return Err(HeaderError::MissingName { field: i });
                },
            };
            let description = match &f.description {
                Some(d) => Some(d.clone()),
                None => clone_opt_string(&f.docs),
            };
            let (data_type, format): (Option<DataType>, Option<DataTypeFormat>) = match
                &f.format_token {
                Some(t) => match format_of_token(t.as_str()) {
                    Some(fmt) => (Some(kind_of_format(fmt)), Some(fmt)),
                    None => (None, None),
                },
                None => (f.data_type, f.format),
            };
            let mut ty = ItemsDesc::empty();
            ty.data_type = data_type;
            ty.format = format;
            ps.push(
                Parameter {
                    name,
                    in_: ParameterIn::Header,
                    description,
                    required,
                    schema: None,
                    ty,
                },
            );
        }
        i += 1;
    }
    proof {
        assert(fields@.subrange(0, fields@.len() as int) =~= fields@);
    }
    Ok(ps)
}

} // verus!
