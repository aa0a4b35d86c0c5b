use apischema::header::{format_of_token, header_parameters, HeaderError, HeaderField};
use apischema::operation::{
    apply_error_codes, insert_error_response, insert_ok_response, push_body_parameter,
    remove_error_codes, ErrorCode, Operation, ParameterIn, ParameterOrRef, ResponseOrRef,
};
use apischema::rename::{apply_rename, RenameRule};
use apischema::schema::{DataType, DataTypeFormat, Schema};
use apischema::security::{build_security_scheme, SecuritySource};
use apischema::text::{decimal_of, parse_status_key, rewrite_ref};

fn response_for<'a>(op: &'a Operation, key: &str) -> &'a ResponseOrRef {
    &op.responses.iter().find(|r| r.0 == key).expect("response missing").1
}

#[test]
fn error_without_description_uses_canonical_reason() {
    let mut op = Operation::empty();
    let codes = vec![
        ErrorCode { code: 404, description: None, schema: None },
        ErrorCode { code: 200, description: None, schema: None },
        ErrorCode { code: 418, description: Some("teapot".to_string()), schema: None },
    ];
    apply_error_codes(&mut op, &codes, &None);
    match response_for(&op, "404") {
        ResponseOrRef::Item(r) => assert_eq!(r.description.as_deref(), Some("Not Found")),
        _ => panic!("expected an inline response"),
    }
    match response_for(&op, "200") {
        ResponseOrRef::Item(r) => assert_eq!(r.description.as_deref(), Some("OK")),
        _ => panic!("expected an inline response"),
    }
    match response_for(&op, "418") {
        ResponseOrRef::Item(r) => assert_eq!(r.description.as_deref(), Some("teapot")),
        _ => panic!("expected an inline response"),
    }
}

#[test]
fn error_schema_points_at_named_definition() {
    let mut op = Operation::empty();
    let codes = vec![ErrorCode { code: 500, description: None, schema: Some("Err".to_string()) }];
    apply_error_codes(&mut op, &codes, &Some("Fallback".to_string()));
    match response_for(&op, "500") {
        ResponseOrRef::Item(r) => {
            let s = r.schema.as_ref().expect("schema");
            assert_eq!(s.name.as_deref(), Some("Err"));
            assert_eq!(s.reference.as_deref(), Some("#/definitions/Err"));
        },
        _ => panic!("expected an inline response"),
    }
}

#[test]
fn default_schema_fills_missing_ones() {
    let mut op = Operation::empty();
    let codes = vec![ErrorCode { code: 503, description: None, schema: None }];
    apply_error_codes(&mut op, &codes, &Some("Fallback".to_string()));
    match response_for(&op, "503") {
        ResponseOrRef::Item(r) => {
            let s = r.schema.as_ref().expect("schema");
            assert_eq!(s.name.as_deref(), Some("Fallback"));
        },
        _ => panic!("expected an inline response"),
    }
}

#[test]
fn overlay_strikes_codes_out() {
    let mut op = Operation::empty();
    let codes = vec![
        ErrorCode { code: 404, description: None, schema: None },
        ErrorCode { code: 500, description: None, schema: None },
    ];
    apply_error_codes(&mut op, &codes, &None);
    remove_error_codes(&mut op, &vec![404, 401]);
    assert_eq!(op.responses.len(), 1);
    assert_eq!(op.responses[0].0, "500");
}

#[test]
fn insert_error_response_replaces_same_code() {
    let mut op = Operation::empty();
    insert_error_response(&mut op, 404, "first".to_string(), None);
    insert_error_response(&mut op, 404, "second".to_string(), None);
    assert_eq!(op.responses.len(), 1);
    match response_for(&op, "404") {
        ResponseOrRef::Item(r) => assert_eq!(r.description.as_deref(), Some("second")),
        _ => panic!("expected an inline response"),
    }
}

#[test]
fn body_parameter_and_ok_response_are_recorded() {
    let mut op = Operation::empty();
    let mut schema = Schema::empty();
    schema.reference = Some("#/definitions/Pet".to_string());
    push_body_parameter(&mut op, Some("a pet".to_string()), schema);
    assert_eq!(op.parameters.len(), 1);
    match &op.parameters[0] {
        ParameterOrRef::Item(p) => {
            assert_eq!(p.name, "body");
            assert_eq!(p.in_, ParameterIn::Body);
            assert!(p.required);
            assert_eq!(p.description.as_deref(), Some("a pet"));
            assert!(p.schema.is_some());
        },
        _ => panic!("expected an inline parameter"),
    }
    let mut ok_schema = Schema::empty();
    ok_schema.data_type = Some(DataType::Text);
    insert_ok_response(&mut op, ok_schema);
    match response_for(&op, "200") {
        ResponseOrRef::Item(r) => {
            assert_eq!(r.description.as_deref(), Some("OK"));
            assert!(r.schema.is_some());
        },
        _ => panic!("expected an inline response"),
    }
}

#[test]
fn status_keys_parse_as_sixteen_bit_numbers() {
    assert_eq!(parse_status_key("200"), Some(200));
    assert_eq!(parse_status_key("+404"), Some(404));
    assert_eq!(parse_status_key("65535"), Some(65535));
    assert_eq!(parse_status_key("65536"), None);
    assert_eq!(parse_status_key("default"), None);
    assert_eq!(parse_status_key(""), None);
    assert_eq!(parse_status_key("+"), None);
    assert_eq!(parse_status_key("12a"), None);
    assert_eq!(parse_status_key("007"), Some(7));
}

#[test]
fn decimal_text_round_trips() {
    assert_eq!(decimal_of(0), "0");
    assert_eq!(decimal_of(65535), "65535");
    assert_eq!(parse_status_key(decimal_of(418).as_str()), Some(418));
}

#[test]
fn definitions_prefix_is_rewritten() {
    assert_eq!(rewrite_ref("#/definitions/Pet"), "#/components/schemas/Pet");
    assert_eq!(rewrite_ref("#/definitions/"), "#/components/schemas/");
    assert_eq!(rewrite_ref("#/parameters/x"), "#/parameters/x");
    assert_eq!(rewrite_ref("short"), "short");
}

#[test]
fn rename_rules_follow_their_conventions() {
    assert_eq!(apply_rename(RenameRule::Lower, "FooBar"), "foobar");
    assert_eq!(apply_rename(RenameRule::Upper, "FooBar"), "FOOBAR");
    assert_eq!(apply_rename(RenameRule::Pascal, "foo_bar"), "FooBar");
    assert_eq!(apply_rename(RenameRule::Camel, "foo_bar"), "fooBar");
    assert_eq!(apply_rename(RenameRule::Snake, "FooBar"), "foo_bar");
    assert_eq!(apply_rename(RenameRule::ScreamingSnake, "fooBar"), "FOO_BAR");
    assert_eq!(apply_rename(RenameRule::Kebab, "FooBar"), "foo-bar");
    assert_eq!(apply_rename(RenameRule::ScreamingKebab, "fooBar"), "FOO-BAR");
}

#[test]
fn declared_security_scheme_uses_alias() {
    let (name, scheme) = build_security_scheme(SecuritySource::Declared {
        type_: "oauth2".to_string(),
        alias: Some("petstore_auth".to_string()),
        description: Some("flows".to_string()),
        name: None,
        in_: None,
        flow: Some("implicit".to_string()),
        auth_url: Some("https://example.com/auth".to_string()),
        token_url: None,
        });
    assert_eq!(name.as_deref(), Some("petstore_auth"));
    assert_eq!(scheme.type_, "oauth2");
    assert_eq!(scheme.flow.as_deref(), Some("implicit"));
    assert!(scheme.scopes.is_empty());
}

#[test]
fn declared_security_scheme_falls_back_to_type() {
    let (name, _) = build_security_scheme(SecuritySource::Declared {
        type_: "apiKey".to_string(),
        alias: None,
        description: None,
        name: Some("X-Key".to_string()),
        in_: Some("header".to_string()),
        flow: None,
        auth_url: None,
        token_url: None,
    });
    assert_eq!(name.as_deref(), Some("apiKey"));
}

#[test]
fn child_security_scheme_glues_scopes_onto_parent() {
    let (parent_name, parent) = build_security_scheme(SecuritySource::Declared {
        type_: "oauth2".to_string(),
        alias: None,
        description: None,
        name: None,
        in_: None,
        flow: Some("implicit".to_string()),
        auth_url: None,
        token_url: None,
    });
    let (name, scheme) = build_security_scheme(SecuritySource::Child {
        parent_name,
        parent_scheme: Some(parent),
        scopes: vec!["read".to_string(), "write".to_string(), "read".to_string()],
    });
    assert_eq!(name.as_deref(), Some("oauth2"));
    assert_eq!(scheme.flow.as_deref(), Some("implicit"));
    assert_eq!(
        scheme.scopes,
        vec![
            ("read".to_string(), "read".to_string()),
            ("write".to_string(), "write".to_string()),
        ]
    );
}

#[test]
fn header_parameters_take_names_and_formats() {
    let fields = vec![
        HeaderField {
            field_name: Some("x_request_id".to_string()),
            attr_name: None,
            description: None,
            docs: Some("correlates calls".to_string()),
            skip: false,
            format_token: Some("uuid".to_string()),
            data_type: Some(DataType::Text),
            format: None,
        },
        HeaderField {
            field_name: Some("ignored".to_string()),
            attr_name: None,
            description: None,
            docs: None,
            skip: true,
            format_token: None,
            data_type: Some(DataType::Text),
            format: None,
        },
        HeaderField {
            field_name: None,
            attr_name: Some("X-Count".to_string()),
            description: Some("how many".to_string()),
            docs: None,
            skip: false,
            format_token: Some("int32".to_string()),
            data_type: None,
            format: None,
        },
    ];
    let ps = header_parameters(&fields, true).expect("parameters");
    assert_eq!(ps.len(), 2);
    assert_eq!(ps[0].name, "x_request_id");
    assert_eq!(ps[0].in_, ParameterIn::Header);
    assert_eq!(ps[0].description.as_deref(), Some("correlates calls"));
    assert_eq!(ps[0].ty.data_type, Some(DataType::Text));
    assert_eq!(ps[0].ty.format, Some(DataTypeFormat::Uuid));
    assert_eq!(ps[1].name, "X-Count");
    assert_eq!(ps[1].ty.data_type, Some(DataType::Integer));
    assert_eq!(ps[1].ty.format, Some(DataTypeFormat::Int32));
    assert!(ps[1].required);
}

#[test]
fn header_field_without_any_name_fails() {
    let fields = vec![HeaderField {
        field_name: None,
        attr_name: None,
        description: None,
        docs: None,
        skip: false,
        format_token: None,
        data_type: None,
        format: None,
    }];
    match header_parameters(&fields, false) {
        Err(HeaderError::MissingName { field }) => assert_eq!(field, 0),
        Ok(_) => panic!("expected the missing-name error"),
    }
}

#[test]
fn format_tokens_map_to_refinements() {
    assert_eq!(format_of_token("date-time"), Some(DataTypeFormat::DateTime));
    assert_eq!(format_of_token("datetime"), Some(DataTypeFormat::DateTime));
    assert_eq!(format_of_token("ipv6"), Some(DataTypeFormat::IpV6));
    assert_eq!(format_of_token("yaml"), None);
}
