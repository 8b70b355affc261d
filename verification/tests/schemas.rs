use near_sdk_abi::json::Json;
use near_sdk_abi::schema::{
    reference_target_name, scalar_named, texts_in, FieldSchema, Scalar, Schema,
};
use near_sdk_abi::text::holds_text;

fn convert(value: serde_json::Value) -> Json {
    match value {
        serde_json::Value::Null => Json::Null,
        serde_json::Value::Bool(b) => Json::Bool(b),
        serde_json::Value::Number(n) => Json::Number(n.to_string()),
        serde_json::Value::String(s) => Json::Text(s),
        serde_json::Value::Array(items) => Json::Array(items.into_iter().map(convert).collect()),
        serde_json::Value::Object(members) => Json::Object(
            members
                .into_iter()
                .map(|(name, value)| (name, convert(value)))
                .collect(),
        ),
    }
}

fn json(text: &str) -> Json {
    convert(serde_json::from_str(text).unwrap())
}

fn read(text: &str) -> Option<Schema> {
    Schema::from_json(&json(text))
}

fn field(name: &str, schema: Schema, required: bool) -> FieldSchema {
    FieldSchema { name: name.to_string(), schema, required }
}

#[test]
fn each_scalar_type_is_read() {
    assert_eq!(read(r#"{"type": "string"}"#), Some(Schema::Primitive(Scalar::Text)));
    assert_eq!(read(r#"{"type": "number"}"#), Some(Schema::Primitive(Scalar::Number)));
    assert_eq!(read(r#"{"type": "integer"}"#), Some(Schema::Primitive(Scalar::Integer)));
    assert_eq!(read(r#"{"type": "boolean"}"#), Some(Schema::Primitive(Scalar::Boolean)));
    assert_eq!(read(r#"{"type": "null"}"#), Some(Schema::Primitive(Scalar::Null)));
}

#[test]
fn keys_that_describe_no_shape_are_passed_over() {
    assert_eq!(
        read(r#"{"type": "integer", "format": "uint32", "minimum": 0.0}"#),
        Some(Schema::Primitive(Scalar::Integer))
    );
}

#[test]
fn scalar_names_are_exact() {
    assert_eq!(scalar_named("string"), Some(Scalar::Text));
    assert_eq!(scalar_named("String"), None);
    assert_eq!(scalar_named("array"), None);
    assert_eq!(scalar_named(""), None);
}

#[test]
fn reference_is_named_by_the_last_path_component() {
    assert_eq!(reference_target_name("#/definitions/Pair"), "Pair");
    assert_eq!(reference_target_name("Pair"), "Pair");
    assert_eq!(reference_target_name("#/Pair"), "Pair");
    assert_eq!(reference_target_name("#/definitions/"), "");
    assert_eq!(reference_target_name(""), "");
    assert_eq!(reference_target_name("/"), "");
    assert_eq!(reference_target_name("#/définitions/Påir"), "Påir");
}

#[test]
fn reference_is_read() {
    assert_eq!(
        read(r##"{"$ref": "#/definitions/Pair"}"##),
        Some(Schema::Reference("Pair".to_string()))
    );
}

#[test]
fn reference_goes_before_type_and_enum() {
    assert_eq!(
        read(r##"{"type": "string", "enum": ["a"], "$ref": "#/definitions/Pair"}"##),
        Some(Schema::Reference("Pair".to_string()))
    );
}

#[test]
fn reference_must_be_a_text() {
    assert_eq!(read(r#"{"$ref": 3}"#), None);
    assert_eq!(read(r#"{"$ref": null, "type": "string"}"#), None);
}

#[test]
fn enumeration_of_texts_is_read() {
    assert_eq!(
        read(r#"{"enum": ["North", "South"]}"#),
        Some(Schema::Enum(vec!["North".to_string(), "South".to_string()]))
    );
    assert_eq!(read(r#"{"enum": []}"#), Some(Schema::Enum(vec![])));
}

#[test]
fn enumeration_goes_before_type() {
    assert_eq!(
        read(r#"{"type": "string", "enum": ["a", "b"]}"#),
        Some(Schema::Enum(vec!["a".to_string(), "b".to_string()]))
    );
}

#[test]
fn enumeration_of_anything_but_texts_has_no_shape() {
    assert_eq!(read(r#"{"enum": ["a", 1]}"#), None);
    assert_eq!(read(r#"{"enum": [null]}"#), None);
    assert_eq!(read(r#"{"enum": "a"}"#), None);
}

#[test]
fn array_is_read_with_its_items() {
    assert_eq!(
        read(r#"{"type": "array", "items": {"type": "integer"}}"#),
        Some(Schema::Array(Box::new(Schema::Primitive(Scalar::Integer))))
    );
    assert_eq!(
        read(r#"{"type": "array", "items": {"type": "array", "items": {"type": "string"}}}"#),
        Some(Schema::Array(Box::new(Schema::Array(Box::new(Schema::Primitive(
            Scalar::Text
        ))))))
    );
}

#[test]
fn array_without_readable_items_has_no_shape() {
    assert_eq!(read(r#"{"type": "array"}"#), None);
    assert_eq!(read(r#"{"type": "array", "items": {"type": "tuple"}}"#), None);
    assert_eq!(read(r#"{"type": "array", "items": [{"type": "string"}]}"#), None);
}

#[test]
fn object_is_read_with_its_fields_in_document_order() {
    let schema = read(
        r##"{"type": "object",
            "required": ["zeta", "alpha"],
            "properties": {
                "zeta": {"type": "string"},
                "mid": {"$ref": "#/definitions/Mid"},
                "alpha": {"type": "array", "items": {"type": "boolean"}}
            }}"##,
    );
    assert_eq!(
        schema,
        Some(Schema::Object(vec![
            field("zeta", Schema::Primitive(Scalar::Text), true),
            field("mid", Schema::Reference("Mid".to_string()), false),
            field(
                "alpha",
                Schema::Array(Box::new(Schema::Primitive(Scalar::Boolean))),
                true
            ),
        ]))
    );
}

#[test]
fn object_without_properties_has_no_fields() {
    assert_eq!(read(r#"{"type": "object"}"#), Some(Schema::Object(vec![])));
    assert_eq!(
        read(r#"{"type": "object", "required": ["a"]}"#),
        Some(Schema::Object(vec![]))
    );
}

#[test]
fn object_without_required_requires_nothing() {
    assert_eq!(
        read(r#"{"type": "object", "properties": {"a": {"type": "null"}}}"#),
        Some(Schema::Object(vec![field("a", Schema::Primitive(Scalar::Null), false)]))
    );
}

#[test]
fn object_with_misshapen_parts_has_no_shape() {
    assert_eq!(read(r#"{"type": "object", "properties": []}"#), None);
    assert_eq!(read(r#"{"type": "object", "required": "a"}"#), None);
    assert_eq!(read(r#"{"type": "object", "required": [1]}"#), None);
    assert_eq!(
        read(r#"{"type": "object", "properties": {"a": {"type": "tuple"}}}"#),
        None
    );
    assert_eq!(read(r#"{"type": "object", "properties": {"a": true}}"#), None);
}

#[test]
fn unknown_or_missing_type_has_no_shape() {
    assert_eq!(read(r#"{"type": "tuple"}"#), None);
    assert_eq!(read(r#"{"type": ["string", "null"]}"#), None);
    assert_eq!(read(r#"{}"#), None);
    assert_eq!(read(r#"{"oneOf": [{"type": "string"}]}"#), None);
}

#[test]
fn fragment_that_is_no_object_has_no_shape() {
    assert_eq!(read("true"), None);
    assert_eq!(read("null"), None);
    assert_eq!(read(r#""string""#), None);
    assert_eq!(read("[]"), None);
}

#[test]
fn texts_are_collected_only_if_all_are_texts() {
    assert_eq!(
        texts_in(&vec![Json::Text("a".to_string()), Json::Text("b".to_string())]),
        Some(vec!["a".to_string(), "b".to_string()])
    );
    assert_eq!(texts_in(&vec![]), Some(vec![]));
    assert_eq!(texts_in(&vec![Json::Text("a".to_string()), Json::Null]), None);
    assert_eq!(texts_in(&vec![Json::Bool(true), Json::Text("a".to_string())]), None);
}

#[test]
fn holds_text_looks_for_the_whole_name() {
    let names = vec!["alpha".to_string(), "beta".to_string()];
    assert!(holds_text(&names, "beta"));
    assert!(!holds_text(&names, "bet"));
    assert!(!holds_text(&vec![], "alpha"));
}

#[test]
fn reference_name_holds_no_slash() {
    for target in ["#/definitions/Pair", "a/b/c", "/", "//", "plain", "#/a//b"] {
        let name = reference_target_name(target);
        assert!(!name.contains('/'));
        assert!(target.ends_with(&name));
        let path = &target[..target.len() - name.len()];
        assert!(path.is_empty() || path.ends_with('/'));
    }
}
