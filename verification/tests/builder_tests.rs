use apischema::builder::{
    build_schema, canonical_name, overlay_metadata, resolve, FieldDesc, Metadata, Tagging,
    TypeDesc, TypeShape,
};
use apischema::rename::RenameRule;
use apischema::schema::{DataType, DataTypeFormat, Literal, Schema};

fn no_metadata() -> Metadata {
    Metadata { description: None, gated: None, collapsed: false, priority: None, example: None }
}

fn primitive(dt: DataType, fmt: Option<DataTypeFormat>, required: bool) -> TypeDesc {
    TypeDesc {
        base_name: None,
        type_args: Vec::new(),
        inline: false,
        required,
        metadata: no_metadata(),
        rename_all: None,
        tagging: Tagging::External,
        shape: TypeShape::Primitive { data_type: Some(dt), format: fmt },
    }
}

fn named_object(name: &str, fields: Vec<FieldDesc>) -> TypeDesc {
    TypeDesc {
        base_name: Some(name.to_string()),
        type_args: Vec::new(),
        inline: false,
        required: true,
        metadata: no_metadata(),
        rename_all: None,
        tagging: Tagging::External,
        shape: TypeShape::Object { fields },
    }
}

fn field(name: &str, ty: TypeDesc) -> FieldDesc {
    FieldDesc {
        name: name.to_string(),
        rename: None,
        skip: false,
        flatten: false,
        required_override: false,
        optional_override: false,
        inline: false,
        metadata: no_metadata(),
        ty,
    }
}

fn prop<'a>(s: &'a Schema, key: &str) -> &'a Schema {
    &s.properties.iter().find(|p| p.0 == key).expect("property missing").1
}

#[test]
fn object_fields_counted_exactly() {
    let mut skipped = field("hidden", primitive(DataType::Integer, None, true));
    skipped.skip = true;
    let mut optional = field("opt", primitive(DataType::Text, None, false));
    optional.required_override = true;
    optional.optional_override = true;
    let t = named_object(
        "Pet",
        vec![
            field("id", primitive(DataType::Integer, Some(DataTypeFormat::Int64), true)),
            field("nickname", primitive(DataType::Text, None, false)),
            skipped,
            optional,
        ],
    );
    let s = build_schema(&t);
    assert_eq!(s.name.as_deref(), Some("Pet"));
    assert_eq!(s.data_type, Some(DataType::Object));
    assert_eq!(s.properties.len(), 3);
    assert_eq!(s.required, vec!["id".to_string()]);
    assert_eq!(prop(&s, "id").data_type, Some(DataType::Integer));
    assert_eq!(prop(&s, "id").format, Some(DataTypeFormat::Int64));
}

#[test]
fn required_override_forces_membership() {
    let mut forced = field("forced", primitive(DataType::Text, None, false));
    forced.required_override = true;
    let t = named_object("T", vec![forced]);
    let s = build_schema(&t);
    assert_eq!(s.required, vec!["forced".to_string()]);
}

#[test]
fn rename_all_applies_case_conventions() {
    let mut t = named_object(
        "Casing",
        vec![
            field("foo_bar", primitive(DataType::Text, None, true)),
            field("second_one", primitive(DataType::Text, None, false)),
        ],
    );
    t.rename_all = Some(RenameRule::Camel);
    let s = build_schema(&t);
    assert!(s.properties.iter().any(|p| p.0 == "fooBar"));
    assert!(s.properties.iter().any(|p| p.0 == "secondOne"));

    t.rename_all = Some(RenameRule::ScreamingSnake);
    let s = build_schema(&t);
    assert!(s.properties.iter().any(|p| p.0 == "FOO_BAR"));

    t.rename_all = Some(RenameRule::Pascal);
    let s = build_schema(&t);
    assert!(s.properties.iter().any(|p| p.0 == "FooBar"));

    t.rename_all = Some(RenameRule::Kebab);
    let s = build_schema(&t);
    assert!(s.properties.iter().any(|p| p.0 == "foo-bar"));
}

#[test]
fn explicit_rename_overrides_convention() {
    let mut renamed = field("foo_bar", primitive(DataType::Text, None, true));
    renamed.rename = Some("exactly-this".to_string());
    let mut t = named_object("T", vec![renamed]);
    t.rename_all = Some(RenameRule::Pascal);
    let s = build_schema(&t);
    assert_eq!(s.properties[0].0, "exactly-this");
    assert_eq!(s.required, vec!["exactly-this".to_string()]);
}

#[test]
fn generic_name_is_synthesized_and_deterministic() {
    let t = TypeDesc {
        base_name: Some("Wrapper".to_string()),
        type_args: vec![Some("A".to_string()), None, Some("B".to_string())],
        inline: false,
        required: true,
        metadata: no_metadata(),
        rename_all: None,
        tagging: Tagging::External,
        shape: TypeShape::Object { fields: Vec::new() },
    };
    let first = canonical_name(&t).expect("name");
    let second = canonical_name(&t).expect("name");
    assert_eq!(first, "Wrapper<A, B>");
    assert_eq!(first, second);
    let s1 = build_schema(&t);
    let s2 = build_schema(&t);
    assert_eq!(s1.name, s2.name);
}

#[test]
fn inline_type_never_becomes_reference() {
    fn assert_no_reference(s: &Schema) {
        assert!(s.reference.is_none());
        for p in &s.properties {
            assert_no_reference(&p.1);
        }
        if let Some(items) = &s.items {
            assert_no_reference(items);
        }
        for c in &s.any_of {
            assert_no_reference(c);
        }
        for c in &s.all_of {
            assert_no_reference(c);
        }
    }

    let mut level3 = named_object("Level3", vec![field("x", primitive(DataType::Integer, None, true))]);
    level3.inline = true;
    let mut level2 = named_object("Level2", vec![field("three", level3)]);
    level2.inline = true;
    let mut level1 = named_object("Level1", vec![field("two", level2)]);
    level1.inline = true;
    let t = named_object("Top", vec![field("one", level1)]);
    let s = build_schema(&t);
    assert_no_reference(&s);
    let nested = prop(prop(prop(&s, "one"), "two"), "three");
    assert_eq!(nested.data_type, Some(DataType::Object));
}

#[test]
fn named_field_type_becomes_reference() {
    let inner = named_object("Inner", vec![field("x", primitive(DataType::Integer, None, true))]);
    let t = named_object("Outer", vec![field("inner", inner)]);
    let s = build_schema(&t);
    let p = prop(&s, "inner");
    assert_eq!(p.reference.as_deref(), Some("#/definitions/Inner"));
    assert_eq!(p.name.as_deref(), Some("Inner"));
    assert!(p.properties.is_empty());
}

#[test]
fn metadata_on_referenced_field_composes() {
    let inner = named_object("Inner", vec![field("x", primitive(DataType::Integer, None, true))]);
    let mut f = field("inner", inner);
    f.metadata.description = Some("documented".to_string());
    let t = named_object("Outer", vec![f]);
    let s = build_schema(&t);
    let p = prop(&s, "inner");
    assert!(p.reference.is_none());
    assert_eq!(p.all_of.len(), 2);
    assert_eq!(p.all_of[0].reference.as_deref(), Some("#/definitions/Inner"));
    assert_eq!(p.all_of[0].description, None);
    assert_eq!(p.all_of[1].description.as_deref(), Some("documented"));
    assert_eq!(p.all_of[1].data_type, p.all_of[0].data_type);
}

#[test]
fn overlay_on_anonymous_schema_merges_in_place() {
    let s = build_schema(&primitive(DataType::Text, None, true));
    let m = Metadata {
        description: Some("plain".to_string()),
        gated: None,
        collapsed: false,
        priority: None,
        example: None,
    };
    let out = overlay_metadata(resolve(s, true), &m);
    assert!(out.all_of.is_empty());
    assert_eq!(out.description.as_deref(), Some("plain"));
}

#[test]
fn metadata_extensions_are_recorded() {
    let inner = primitive(DataType::Text, None, true);
    let mut f = field("x", inner);
    f.metadata.gated = Some("preview1".to_string());
    f.metadata.collapsed = true;
    f.metadata.priority = Some(7);
    f.metadata.example = Some(Literal::Str("sample".to_string()));
    let t = named_object("T", vec![f]);
    let s = build_schema(&t);
    let p = prop(&s, "x");
    assert_eq!(
        p.extensions,
        vec![
            ("x_fp_preview_gate".to_string(), Literal::Str("preview1".to_string())),
            ("x_fp_collapsed".to_string(), Literal::Bool(true)),
            ("x_fp_priority".to_string(), Literal::Int(7)),
        ]
    );
    assert_eq!(p.example, Some(Literal::Str("sample".to_string())));
}

#[test]
fn flattened_field_composes_schemas() {
    let inner = named_object("Part", vec![field("x", primitive(DataType::Integer, None, true))]);
    let mut f = field("part", inner);
    f.flatten = true;
    let t = named_object(
        "Whole",
        vec![field("own", primitive(DataType::Text, None, true)), f],
    );
    let s = build_schema(&t);
    assert_eq!(s.name.as_deref(), Some("Whole"));
    assert_eq!(s.all_of.len(), 2);
    assert!(s.all_of[0].properties.iter().any(|p| p.0 == "own"));
    assert_eq!(s.all_of[1].reference.as_deref(), Some("#/definitions/Part"));
}

#[test]
fn single_element_tuple_is_transparent() {
    let t = TypeDesc {
        base_name: Some("Wrapper".to_string()),
        type_args: Vec::new(),
        inline: false,
        required: true,
        metadata: no_metadata(),
        rename_all: None,
        tagging: Tagging::External,
        shape: TypeShape::Tuple {
            elems: vec![field("0", primitive(DataType::Integer, Some(DataTypeFormat::Int32), true))],
        },
    };
    let s = build_schema(&t);
    assert_eq!(s.name.as_deref(), Some("Wrapper"));
    assert_eq!(s.data_type, Some(DataType::Integer));
    assert_eq!(s.format, Some(DataTypeFormat::Int32));
    assert!(s.properties.is_empty());
}

#[test]
fn multi_element_tuple_uses_positions() {
    let mut skipped = field("ignored", primitive(DataType::Text, None, true));
    skipped.skip = true;
    let t = TypeDesc {
        base_name: Some("Pair".to_string()),
        type_args: Vec::new(),
        inline: false,
        required: true,
        metadata: no_metadata(),
        rename_all: None,
        tagging: Tagging::External,
        shape: TypeShape::Tuple {
            elems: vec![
                field("a", primitive(DataType::Integer, None, true)),
                skipped,
                field("c", primitive(DataType::Text, None, false)),
            ],
        },
    };
    let s = build_schema(&t);
    assert_eq!(s.data_type, Some(DataType::Object));
    assert_eq!(s.properties.len(), 2);
    assert!(s.properties.iter().any(|p| p.0 == "0"));
    assert!(s.properties.iter().any(|p| p.0 == "2"));
    assert_eq!(s.required, vec!["0".to_string()]);
}
