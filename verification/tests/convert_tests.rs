use apischema::convert::{items_to_v3, operation_to_v3, param_type_to_v3, schema_to_v3};
use apischema::operation::{
    ItemsDesc, Operation, Parameter, ParameterIn, ParameterOrRef, Response, ResponseOrRef,
};
use apischema::schema::{DataType, DataTypeFormat, Literal, Schema};
use apischema::v3::{
    IntFormat, StrFormat, StrFormatField, V3SchemaKind, V3SchemaOrRef,
};

fn empty_schema() -> Schema {
    Schema::empty()
}

fn items(dt: Option<DataType>) -> ItemsDesc {
    let mut it = ItemsDesc::empty();
    it.data_type = dt;
    it
}

fn form_param(name: &str, required: bool) -> ParameterOrRef {
    ParameterOrRef::Item(Parameter {
        name: name.to_string(),
        in_: ParameterIn::FormData,
        description: None,
        required,
        schema: None,
        ty: items(Some(DataType::Text)),
    })
}

fn body_param(schema: Schema) -> ParameterOrRef {
    ParameterOrRef::Item(Parameter {
        name: "body".to_string(),
        in_: ParameterIn::Body,
        description: Some("payload".to_string()),
        required: true,
        schema: Some(schema),
        ty: ItemsDesc::empty(),
    })
}

fn unwrap_item(s: &V3SchemaOrRef) -> &apischema::v3::V3Schema {
    match s {
        V3SchemaOrRef::Item(b) => b,
        V3SchemaOrRef::Reference { .. } => panic!("expected an inline schema"),
    }
}

#[test]
fn explicit_body_discards_form_parameters() {
    let mut body_schema = empty_schema();
    body_schema.reference = Some("#/definitions/Pet".to_string());
    let mut op = Operation::empty();
    op.consumes = Some(vec!["application/json".to_string()]);
    op.parameters = vec![
        form_param("a", true),
        body_param(body_schema),
        form_param("b", false),
    ];
    let v3 = operation_to_v3(&op);
    assert!(v3.parameters.is_empty());
    let body = v3.request_body.expect("request body");
    assert_eq!(body.description.as_deref(), Some("payload"));
    assert!(body.required);
    assert_eq!(body.content.len(), 1);
    assert_eq!(body.content[0].0, "application/json");
    let schema = body.content[0].1.schema.as_ref().expect("schema");
    match schema {
        V3SchemaOrRef::Reference { reference } => {
            assert_eq!(reference, "#/components/schemas/Pet");
        },
        V3SchemaOrRef::Item(_) => panic!("expected a reference"),
    }
}

#[test]
fn three_form_parameters_synthesize_one_payload() {
    let mut op = Operation::empty();
    op.consumes = Some(vec!["application/x-www-form-urlencoded".to_string()]);
    op.parameters = vec![
        form_param("first", true),
        form_param("second", false),
        form_param("third", false),
    ];
    let v3 = operation_to_v3(&op);
    assert!(v3.parameters.is_empty());
    let body = v3.request_body.expect("request body");
    assert_eq!(body.content.len(), 1);
    let schema = unwrap_item(body.content[0].1.schema.as_ref().expect("schema"));
    match &schema.kind {
        V3SchemaKind::AnyKind { properties, required } => {
            assert_eq!(properties.len(), 3);
            assert!(properties.iter().any(|p| p.0 == "first"));
            assert!(properties.iter().any(|p| p.0 == "second"));
            assert!(properties.iter().any(|p| p.0 == "third"));
            assert_eq!(required, &vec!["first".to_string()]);
        },
        _ => panic!("expected the synthesized object"),
    }
}

#[test]
fn required_flags_propagate_past_the_first_form_parameter() {
    let mut op = Operation::empty();
    op.consumes = Some(vec!["application/x-www-form-urlencoded".to_string()]);
    op.parameters = vec![
        form_param("optional_one", false),
        form_param("needed", true),
        form_param("also_needed", true),
    ];
    let v3 = operation_to_v3(&op);
    let body = v3.request_body.expect("request body");
    let schema = unwrap_item(body.content[0].1.schema.as_ref().expect("schema"));
    match &schema.kind {
        V3SchemaKind::AnyKind { properties, required } => {
            assert_eq!(properties.len(), 3);
            assert_eq!(
                required,
                &vec!["needed".to_string(), "also_needed".to_string()]
            );
        },
        _ => panic!("expected the synthesized object"),
    }
}

#[test]
fn form_payload_needs_declared_media_types() {
    let mut op = Operation::empty();
    op.parameters = vec![form_param("only", true)];
    let v3 = operation_to_v3(&op);
    assert!(v3.request_body.is_none());
    assert!(v3.parameters.is_empty());
}

#[test]
fn responses_drop_non_numeric_keys() {
    let mut op = Operation::empty();
    let resp = |text: &str| {
        ResponseOrRef::Item(Response { description: Some(text.to_string()), schema: None })
    };
    op.responses = vec![
        ("200".to_string(), resp("ok")),
        ("404".to_string(), resp("missing")),
        ("default".to_string(), resp("catch-all")),
    ];
    let v3 = operation_to_v3(&op);
    assert!(v3.responses.default.is_none());
    let codes: Vec<u16> = v3.responses.responses.iter().map(|r| r.0).collect();
    assert_eq!(codes, vec![200, 404]);
}

#[test]
fn response_keys_parse_like_numbers() {
    let mut op = Operation::empty();
    let resp = ResponseOrRef::Item(Response { description: None, schema: None });
    op.responses = vec![("+201".to_string(), resp)];
    let v3 = operation_to_v3(&op);
    assert_eq!(v3.responses.responses[0].0, 201);
}

#[test]
fn passthrough_parameters_keep_their_shape() {
    let mut op = Operation::empty();
    op.parameters = vec![
        ParameterOrRef::Reference { reference: "#/parameters/shared".to_string() },
        ParameterOrRef::Item(Parameter {
            name: "limit".to_string(),
            in_: ParameterIn::Query,
            description: Some("how many".to_string()),
            required: false,
            schema: None,
            ty: items(Some(DataType::Integer)),
        }),
    ];
    let v3 = operation_to_v3(&op);
    assert_eq!(v3.parameters.len(), 2);
    match &v3.parameters[0] {
        apischema::v3::V3ParameterOrRef::Reference { reference } => {
            assert_eq!(reference, "#/parameters/shared");
        },
        _ => panic!("expected a reference"),
    }
    match &v3.parameters[1] {
        apischema::v3::V3ParameterOrRef::Item(p) => {
            assert_eq!(p.name, "limit");
            assert_eq!(p.location, apischema::v3::V3ParamLocation::Query);
            assert_eq!(p.description.as_deref(), Some("how many"));
            assert!(!p.required);
            assert!(p.schema.is_some());
        },
        _ => panic!("expected an inline parameter"),
    }
}

#[test]
fn empty_security_becomes_absent() {
    let mut op = Operation::empty();
    let v3 = operation_to_v3(&op);
    assert!(v3.security.is_none());
    op.security = vec![vec![("api_key".to_string(), vec!["read".to_string()])]];
    let v3 = operation_to_v3(&op);
    let sec = v3.security.expect("security");
    assert_eq!(sec.len(), 1);
    assert_eq!(sec[0][0].0, "api_key");
    assert_eq!(sec[0][0].1, vec!["read".to_string()]);
}

#[test]
fn schema_reference_path_is_rewritten() {
    let mut s = empty_schema();
    s.reference = Some("#/definitions/Tag".to_string());
    match schema_to_v3(&s) {
        V3SchemaOrRef::Reference { reference } => {
            assert_eq!(reference, "#/components/schemas/Tag");
        },
        _ => panic!("expected a reference"),
    }
    let mut other = empty_schema();
    other.reference = Some("urn:elsewhere".to_string());
    match schema_to_v3(&other) {
        V3SchemaOrRef::Reference { reference } => {
            assert_eq!(reference, "urn:elsewhere");
        },
        _ => panic!("expected a reference"),
    }
}

#[test]
fn integer_schema_keeps_format_and_enum() {
    let mut s = empty_schema();
    s.data_type = Some(DataType::Integer);
    s.format = Some(DataTypeFormat::Int64);
    s.enum_ = vec![Literal::Int(1), Literal::Str("two".to_string()), Literal::Int(3)];
    let out = schema_to_v3(&s);
    match &unwrap_item(&out).kind {
        V3SchemaKind::IntegerKind { int_format, enumeration, .. } => {
            assert_eq!(int_format, &Some(IntFormat::Int64));
            assert_eq!(enumeration, &vec![Some(1), None, Some(3)]);
        },
        _ => panic!("expected an integer kind"),
    }
}

#[test]
fn unknown_string_format_is_kept_as_token() {
    let mut s = empty_schema();
    s.data_type = Some(DataType::Text);
    s.format = Some(DataTypeFormat::Uuid);
    let out = schema_to_v3(&s);
    match &unwrap_item(&out).kind {
        V3SchemaKind::StringKind { str_format, .. } => {
            assert_eq!(str_format, &StrFormatField::Unknown("uuid".to_string()));
        },
        _ => panic!("expected a string kind"),
    }
}

#[test]
fn string_constant_becomes_single_member_enum() {
    let mut s = empty_schema();
    s.const_ = Some(Literal::Str("fixed".to_string()));
    let out = schema_to_v3(&s);
    match &unwrap_item(&out).kind {
        V3SchemaKind::StringKind { str_enumeration, .. } => {
            assert_eq!(str_enumeration, &vec![Some("fixed".to_string())]);
        },
        _ => panic!("expected a string kind"),
    }
}

#[test]
fn bare_schema_degrades_to_empty_object() {
    let out = schema_to_v3(&empty_schema());
    match &unwrap_item(&out).kind {
        V3SchemaKind::ObjectKind { properties, required } => {
            assert!(properties.is_empty());
            assert!(required.is_empty());
        },
        _ => panic!("expected an object kind"),
    }
}

#[test]
fn item_without_kind_yields_placeholder() {
    let out = items_to_v3(&ItemsDesc::empty());
    let schema = unwrap_item(&out);
    assert_eq!(
        schema.description.as_deref(),
        Some("Invalid Item, should have a data type")
    );
}

#[test]
fn item_with_foreign_format_yields_placeholder() {
    let mut it = items(Some(DataType::Integer));
    it.format = Some(DataTypeFormat::Byte);
    let out = items_to_v3(&it);
    assert_eq!(
        unwrap_item(&out).description.as_deref(),
        Some("Invalid data type format: byte")
    );
}

#[test]
fn object_item_yields_placeholder() {
    let out = items_to_v3(&items(Some(DataType::Object)));
    assert_eq!(
        unwrap_item(&out).description.as_deref(),
        Some("Invalid Item data_type: object")
    );
}

#[test]
fn file_parameter_becomes_binary_string() {
    let out = param_type_to_v3(&items(Some(DataType::File)));
    match &unwrap_item(&out).kind {
        V3SchemaKind::StringKind { str_format, .. } => {
            assert_eq!(str_format, &StrFormatField::Known(StrFormat::Binary));
        },
        _ => panic!("expected a string kind"),
    }
}

#[test]
fn nested_array_items_convert_recursively() {
    let mut inner = items(Some(DataType::Integer));
    inner.format = Some(DataTypeFormat::Int32);
    let mut outer = items(Some(DataType::Array));
    outer.items = Some(Box::new(inner));
    outer.unique_items = Some(true);
    let out = items_to_v3(&outer);
    match &unwrap_item(&out).kind {
        V3SchemaKind::ArrayKind { items, unique_items, .. } => {
            assert!(unique_items);
            let inner = items.as_ref().expect("items");
            match &unwrap_item(inner).kind {
                V3SchemaKind::IntegerKind { int_format, .. } => {
                    assert_eq!(int_format, &Some(IntFormat::Int32));
                },
                _ => panic!("expected integer items"),
            }
        },
        _ => panic!("expected an array kind"),
    }
}

#[test]
fn compositions_and_objects_convert_recursively() {
    let mut leaf = empty_schema();
    leaf.data_type = Some(DataType::Boolean);
    let mut pointer = empty_schema();
    pointer.reference = Some("#/definitions/Other".to_string());
    let mut object = empty_schema();
    object.data_type = Some(DataType::Object);
    object.properties = vec![("flag".to_string(), leaf), ("other".to_string(), pointer)];
    object.required = vec!["flag".to_string()];
    let mut composed = empty_schema();
    composed.any_of = vec![object];
    let out = schema_to_v3(&composed);
    match &unwrap_item(&out).kind {
        V3SchemaKind::AnyOfKind { any_of } => {
            assert_eq!(any_of.len(), 1);
            match &unwrap_item(&any_of[0]).kind {
                V3SchemaKind::ObjectKind { properties, required } => {
                    assert_eq!(required, &vec!["flag".to_string()]);
                    assert_eq!(properties.len(), 2);
                    match &properties[0].1 {
                        V3SchemaOrRef::Item(b) => {
                            assert!(matches!(b.kind, V3SchemaKind::BooleanKind));
                        },
                        _ => panic!("expected an inline property"),
                    }
                    match &properties[1].1 {
                        V3SchemaOrRef::Reference { reference } => {
                            assert_eq!(reference, "#/components/schemas/Other");
                        },
                        _ => panic!("expected a reference property"),
                    }
                },
                _ => panic!("expected an object member"),
            }
        },
        _ => panic!("expected a choice"),
    }
}

#[test]
fn description_example_and_extensions_carry_over() {
    let mut s = empty_schema();
    s.data_type = Some(DataType::Boolean);
    s.description = Some("a flag".to_string());
    s.example = Some(Literal::Bool(true));
    s.extensions = vec![("x_fp_priority".to_string(), Literal::Int(3))];
    let out = schema_to_v3(&s);
    let schema = unwrap_item(&out);
    assert_eq!(schema.description.as_deref(), Some("a flag"));
    assert_eq!(schema.example, Some(Literal::Bool(true)));
    assert_eq!(
        schema.extensions,
        vec![("x_fp_priority".to_string(), Literal::Int(3))]
    );
}
