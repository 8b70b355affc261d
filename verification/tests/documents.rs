use near_sdk_abi::document::{
    read_abi, read_optional_text, AbiDocument, AbiMetadata, Definition, FunctionSpec, ParamSpec,
    TypeRef,
};
use near_sdk_abi::error::{DocumentPart, GenerateError};
use near_sdk_abi::json::Json;
use near_sdk_abi::schema::{Scalar, Schema};

fn convert(value: serde_json::Value) -> Json {
    match value {
        serde_json::Value::Null => Json::Null,
        serde_json::Value::Bool(b) => Json::Bool(b),
        serde_json::Value::Number(n) => Json::Number(n.to_string()),
        serde_json::Value::String(s) => Json::Text(s),
        serde_json::Value::Array(items) => Json::Array(items.into_iter().map(convert).collect()),
        serde_json::Value::Object(members) => Json::Object(
            members
                .into_iter()
                .map(|(name, value)| (name, convert(value)))
                .collect(),
        ),
    }
}

fn json(text: &str) -> Json {
    convert(serde_json::from_str(text).unwrap())
}

fn read(text: &str) -> Result<AbiDocument, GenerateError> {
    read_abi(&json(text))
}

fn malformed(part: DocumentPart) -> Result<AbiDocument, GenerateError> {
    Err(GenerateError::MalformedDocument(part))
}

fn misshapen(part: DocumentPart) -> Result<AbiDocument, GenerateError> {
    Err(GenerateError::InvalidSchemaShape(part))
}

fn with_function(function: &str) -> String {
    format!(
        r#"{{"metadata": {{}}, "body": {{"functions": [{{"name": "first", "params": []}}, {}], "root_schema": {{}}}}}}"#,
        function
    )
}

#[test]
fn a_whole_document_is_read() {
    let document = read(
        r##"{
            "metadata": {"name": "adder", "version": "0.1.0"},
            "body": {
                "functions": [
                    {"name": "add",
                     "params": [
                        {"name": "a", "type_schema": {"$ref": "#/definitions/Pair"}, "encoding": "json"},
                        {"type_schema": {"type": "integer"}, "encoding": "json"}
                     ],
                     "result": {"type_schema": {"type": "boolean"}, "encoding": "json"}},
                    {"name": "ping", "params": [], "result": null},
                    {"name": "pong", "params": []}
                ],
                "root_schema": {
                    "Pair": {"type": "array", "items": {"type": "integer"}},
                    "Name": {"type": "string"}
                }
            }
        }"##,
    )
    .unwrap();
    let expected = AbiDocument {
        metadata: AbiMetadata { name: Some("adder".to_string()) },
        functions: vec![
            FunctionSpec {
                name: "add".to_string(),
                params: vec![
                    ParamSpec {
                        name: Some("a".to_string()),
                        ty: TypeRef::JsonSchema(Schema::Reference("Pair".to_string())),
                    },
                    ParamSpec {
                        name: None,
                        ty: TypeRef::JsonSchema(Schema::Primitive(Scalar::Integer)),
                    },
                ],
                result: Some(TypeRef::JsonSchema(Schema::Primitive(Scalar::Boolean))),
            },
            FunctionSpec { name: "ping".to_string(), params: vec![], result: None },
            FunctionSpec { name: "pong".to_string(), params: vec![], result: None },
        ],
        type_universe: vec![
            Definition {
                name: "Pair".to_string(),
                schema: Schema::Array(Box::new(Schema::Primitive(Scalar::Integer))),
            },
            Definition { name: "Name".to_string(), schema: Schema::Primitive(Scalar::Text) },
        ],
    };
    assert_eq!(document, expected);
}

#[test]
fn metadata_may_lack_a_name() {
    let text = r#"{"metadata": {}, "body": {"functions": [], "root_schema": {}}}"#;
    assert_eq!(read(text).unwrap().metadata.name, None);
    let text = r#"{"metadata": {"name": null}, "body": {"functions": [], "root_schema": {}}}"#;
    assert_eq!(read(text).unwrap().metadata.name, None);
}

#[test]
fn borsh_type_is_kept_as_found() {
    let document = read(&with_function(
        r#"{"name": "second", "params": [{"name": "p", "type_schema": {"declaration": "u32"}, "encoding": "borsh"}]}"#,
    ))
    .unwrap();
    assert_eq!(
        document.functions[1].params[0].ty,
        TypeRef::BorshEncoded(json(r#"{"declaration": "u32"}"#))
    );
}

#[test]
fn document_that_is_no_object_lacks_its_metadata() {
    assert_eq!(read("[]"), malformed(DocumentPart::Metadata));
    assert_eq!(read("null"), malformed(DocumentPart::Metadata));
    assert_eq!(read(r#""abi""#), malformed(DocumentPart::Metadata));
}

#[test]
fn misshapen_metadata_is_reported() {
    assert_eq!(
        read(r#"{"body": {"functions": [], "root_schema": {}}}"#),
        malformed(DocumentPart::Metadata)
    );
    assert_eq!(
        read(r#"{"metadata": [], "body": {"functions": [], "root_schema": {}}}"#),
        malformed(DocumentPart::Metadata)
    );
    assert_eq!(
        read(r#"{"metadata": {"name": 7}, "body": {"functions": [], "root_schema": {}}}"#),
        malformed(DocumentPart::Metadata)
    );
}

#[test]
fn misshapen_body_is_reported() {
    assert_eq!(read(r#"{"metadata": {}}"#), malformed(DocumentPart::Body));
    assert_eq!(read(r#"{"metadata": {}, "body": []}"#), malformed(DocumentPart::Body));
}

#[test]
fn misshapen_type_universe_is_reported() {
    assert_eq!(
        read(r#"{"metadata": {}, "body": {"functions": []}}"#),
        malformed(DocumentPart::TypeUniverse)
    );
    assert_eq!(
        read(r#"{"metadata": {}, "body": {"functions": [], "root_schema": []}}"#),
        malformed(DocumentPart::TypeUniverse)
    );
}

#[test]
fn misshapen_list_of_functions_is_reported() {
    assert_eq!(
        read(r#"{"metadata": {}, "body": {"root_schema": {}}}"#),
        malformed(DocumentPart::Functions)
    );
    assert_eq!(
        read(r#"{"metadata": {}, "body": {"functions": {}, "root_schema": {}}}"#),
        malformed(DocumentPart::Functions)
    );
}

#[test]
fn misshapen_function_is_reported_with_its_position() {
    assert_eq!(
        read(&with_function(r#"{"params": []}"#)),
        malformed(DocumentPart::Function(1))
    );
    assert_eq!(
        read(&with_function(r#"{"name": 1, "params": []}"#)),
        malformed(DocumentPart::Function(1))
    );
    assert_eq!(
        read(&with_function(r#"{"name": "second"}"#)),
        malformed(DocumentPart::Function(1))
    );
    assert_eq!(
        read(&with_function(r#"{"name": "second", "params": {}}"#)),
        malformed(DocumentPart::Function(1))
    );
    assert_eq!(read(&with_function("3")), malformed(DocumentPart::Function(1)));
}

#[test]
fn misshapen_parameter_is_reported_with_its_position() {
    let ok = r#"{"name": "a", "type_schema": {"type": "string"}, "encoding": "json"}"#;
    let cases = [
        r#"{"name": "b", "encoding": "json"}"#,
        r#"{"name": "b", "type_schema": {"type": "string"}}"#,
        r#"{"name": "b", "type_schema": {"type": "string"}, "encoding": "xml"}"#,
        r#"{"name": "b", "type_schema": {"type": "string"}, "encoding": 1}"#,
        r#"{"name": 5, "type_schema": {"type": "string"}, "encoding": "json"}"#,
        r#""b""#,
    ];
    for case in cases {
        let function = format!(r#"{{"name": "second", "params": [{}, {}]}}"#, ok, case);
        assert_eq!(read(&with_function(&function)), malformed(DocumentPart::Parameter(1, 1)));
    }
}

#[test]
fn misshapen_result_is_reported_with_its_function() {
    let cases = [
        r#"{"type_schema": {"type": "string"}}"#,
        r#"{"encoding": "json"}"#,
        r#"{"type_schema": {"type": "string"}, "encoding": "JSON"}"#,
        r#"[]"#,
        r#"false"#,
    ];
    for case in cases {
        let function = format!(r#"{{"name": "second", "params": [], "result": {}}}"#, case);
        assert_eq!(read(&with_function(&function)), malformed(DocumentPart::Result(1)));
    }
}

#[test]
fn schema_without_shape_is_reported_where_it_stands() {
    assert_eq!(
        read(
            r#"{"metadata": {}, "body": {"functions": [],
                "root_schema": {"A": {"type": "string"}, "B": {"type": "tuple"}}}}"#
        ),
        misshapen(DocumentPart::Definition(1))
    );
    assert_eq!(
        read(&with_function(
            r#"{"name": "second", "params": [{"type_schema": {}, "encoding": "json"}]}"#
        )),
        misshapen(DocumentPart::Parameter(1, 0))
    );
    assert_eq!(
        read(&with_function(
            r#"{"name": "second", "params": [], "result": {"type_schema": true, "encoding": "json"}}"#
        )),
        misshapen(DocumentPart::Result(1))
    );
}

#[test]
fn sections_are_read_in_a_fixed_order() {
    assert_eq!(read(r#"{"metadata": 1, "body": 2}"#), malformed(DocumentPart::Metadata));
    assert_eq!(
        read(r#"{"metadata": {}, "body": {"functions": 1, "root_schema": 2}}"#),
        malformed(DocumentPart::TypeUniverse)
    );
    assert_eq!(
        read(
            r#"{"metadata": {}, "body": {"functions": [{"name": 1}],
                "root_schema": {"A": {"type": "tuple"}}}}"#
        ),
        misshapen(DocumentPart::Definition(0))
    );
    let function = r#"{"name": "second",
        "params": [{"type_schema": {"type": "tuple"}, "encoding": "json"}, {"name": 1}],
        "result": 7}"#;
    assert_eq!(
        read(&with_function(function)),
        misshapen(DocumentPart::Parameter(1, 0))
    );
}

#[test]
fn optional_text_is_absent_null_or_a_text() {
    assert_eq!(read_optional_text(None), Some(None));
    assert_eq!(read_optional_text(Some(&Json::Null)), Some(None));
    assert_eq!(
        read_optional_text(Some(&Json::Text("x".to_string()))),
        Some(Some("x".to_string()))
    );
    assert_eq!(read_optional_text(Some(&Json::Bool(true))), None);
    assert_eq!(read_optional_text(Some(&Json::Array(vec![]))), None);
}
