use apischema::builder::{
    build_schema, FieldDesc, Metadata, Tagging, TypeDesc, TypeShape, VariantDesc, VariantShape,
};
use apischema::rename::RenameRule;
use apischema::schema::{DataType, Literal, Schema};

fn no_metadata() -> Metadata {
    Metadata { description: None, gated: None, collapsed: false, priority: None, example: None }
}

fn primitive(dt: DataType) -> TypeDesc {
    TypeDesc {
        base_name: None,
        type_args: Vec::new(),
        inline: false,
        required: true,
        metadata: no_metadata(),
        rename_all: None,
        tagging: Tagging::External,
        shape: TypeShape::Primitive { data_type: Some(dt), format: None },
    }
}

fn field(name: &str, ty: TypeDesc) -> FieldDesc {
    FieldDesc {
        name: name.to_string(),
        rename: None,
        skip: false,
        flatten: false,
        required_override: false,
        optional_override: false,
        inline: false,
        metadata: no_metadata(),
        ty,
    }
}

fn unit_variant(name: &str) -> VariantDesc {
    VariantDesc {
        name: name.to_string(),
        rename: None,
        skip: false,
        metadata: no_metadata(),
        shape: VariantShape::Unit,
    }
}

fn data_variant(name: &str) -> VariantDesc {
    VariantDesc {
        name: name.to_string(),
        rename: None,
        skip: false,
        metadata: no_metadata(),
        shape: VariantShape::Named { fields: vec![field("value", primitive(DataType::Integer))] },
    }
}

fn union(name: &str, tagging: Tagging, variants: Vec<VariantDesc>) -> TypeDesc {
    TypeDesc {
        base_name: Some(name.to_string()),
        type_args: Vec::new(),
        inline: false,
        required: true,
        metadata: no_metadata(),
        rename_all: None,
        tagging,
        shape: TypeShape::Union { variants },
    }
}

fn prop<'a>(s: &'a Schema, key: &str) -> &'a Schema {
    &s.properties.iter().find(|p| p.0 == key).expect("property missing").1
}

#[test]
fn all_unit_external_union_is_string_enum() {
    let mut t = union(
        "Color",
        Tagging::External,
        vec![unit_variant("DarkRed"), unit_variant("PaleBlue")],
    );
    t.rename_all = Some(RenameRule::Snake);
    let s = build_schema(&t);
    assert_eq!(s.data_type, Some(DataType::Text));
    assert_eq!(
        s.enum_,
        vec![
            Literal::Str("dark_red".to_string()),
            Literal::Str("pale_blue".to_string()),
        ]
    );
    assert!(s.any_of.is_empty());
}

#[test]
fn mixed_external_union_never_string_enum() {
    let t = union(
        "Shape",
        Tagging::External,
        vec![unit_variant("Empty"), data_variant("Filled")],
    );
    let s = build_schema(&t);
    assert!(s.enum_.is_empty());
    assert_ne!(s.data_type, Some(DataType::Text));
    assert_eq!(s.any_of.len(), 2);
    let unit_node = &s.any_of[0];
    assert_eq!(unit_node.data_type, Some(DataType::Object));
    assert_eq!(unit_node.required, vec!["Empty".to_string()]);
    let unit_payload = prop(unit_node, "Empty");
    assert_eq!(unit_payload.data_type, Some(DataType::Object));
    assert!(unit_payload.properties.is_empty());
    let data_node = &s.any_of[1];
    assert_eq!(data_node.required, vec!["Filled".to_string()]);
    let data_payload = prop(data_node, "Filled");
    assert!(data_payload.properties.iter().any(|p| p.0 == "value"));
}

#[test]
fn mixed_untagged_union_keeps_unit_constants() {
    let t = union(
        "Mix",
        Tagging::Untagged,
        vec![unit_variant("Nothing"), data_variant("Something")],
    );
    let s = build_schema(&t);
    assert!(s.enum_.is_empty());
    assert_eq!(s.any_of.len(), 2);
    assert_eq!(s.any_of[0].const_, Some(Literal::Str("Nothing".to_string())));
    assert!(s.any_of[1].properties.iter().any(|p| p.0 == "value"));
}

#[test]
fn internal_tagging_names_each_variant() {
    let t = union(
        "Event",
        Tagging::Internal { tag: "kind".to_string() },
        vec![unit_variant("Opened"), data_variant("Closed")],
    );
    let s = build_schema(&t);
    assert_eq!(s.any_of.len(), 2);
    let opened = &s.any_of[0];
    assert_eq!(opened.name.as_deref(), Some("EventOpened"));
    assert_eq!(opened.reference.as_deref(), Some("#/definitions/EventOpened"));
    assert_eq!(opened.required, vec!["kind".to_string()]);
    let tag = prop(opened, "kind");
    assert_eq!(tag.const_, Some(Literal::Str("Opened".to_string())));
    assert_eq!(
        tag.extensions,
        vec![("x_fp_priority".to_string(), Literal::Int(0))]
    );
    let closed = &s.any_of[1];
    assert_eq!(closed.name.as_deref(), Some("EventClosed"));
    assert!(closed.properties.iter().any(|p| p.0 == "value"));
    assert!(closed.properties.iter().any(|p| p.0 == "kind"));
    assert!(closed.required.contains(&"kind".to_string()));
}

#[test]
fn adjacent_tagging_wraps_tag_and_content() {
    let t = union(
        "Msg",
        Tagging::Adjacent { tag: "t".to_string(), content: "c".to_string() },
        vec![unit_variant("Ping"), data_variant("Data")],
    );
    let s = build_schema(&t);
    let ping = &s.any_of[0];
    assert_eq!(ping.required, vec!["t".to_string()]);
    assert_eq!(ping.properties.len(), 1);
    assert_eq!(prop(ping, "t").const_, Some(Literal::Str("Ping".to_string())));
    let data = &s.any_of[1];
    assert_eq!(data.name.as_deref(), Some("MsgData"));
    assert_eq!(data.required, vec!["t".to_string(), "c".to_string()]);
    assert!(prop(data, "c").properties.iter().any(|p| p.0 == "value"));
}

#[test]
fn skipped_variants_are_left_out() {
    let mut hidden = data_variant("Hidden");
    hidden.skip = true;
    let t = union(
        "S",
        Tagging::External,
        vec![unit_variant("Visible"), hidden],
    );
    let s = build_schema(&t);
    assert_eq!(s.data_type, Some(DataType::Text));
    assert_eq!(s.enum_, vec![Literal::Str("Visible".to_string())]);
}

#[test]
fn renamed_variant_keeps_declared_name_for_definitions() {
    let mut v = data_variant("LongName");
    v.rename = Some("short".to_string());
    let t = union("U", Tagging::Internal { tag: "k".to_string() }, vec![v]);
    let s = build_schema(&t);
    let node = &s.any_of[0];
    assert_eq!(node.name.as_deref(), Some("ULongName"));
    assert_eq!(prop(node, "k").const_, Some(Literal::Str("short".to_string())));
}
