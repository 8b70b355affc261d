use near_sdk_abi::document::{
    read_abi, AbiDocument, AbiMetadata, Definition, FunctionSpec, ParamSpec, TypeRef,
};
use near_sdk_abi::error::{DocumentPart, GenerateError};
use near_sdk_abi::interface::{
    check_encodings, check_function_encoding, find_borsh_param, GeneratedInterface, Method,
    Parameter,
};
use near_sdk_abi::json::Json;
use near_sdk_abi::schema::{FieldSchema, Scalar, Schema};
use near_sdk_abi::types::{GeneratedField, GeneratedType, TypeBody, TypeReference};
use near_sdk_abi::unit::{compose, generate_bindings, generate_ext, OutputUnit};

fn convert(value: serde_json::Value) -> Json {
    match value {
        serde_json::Value::Null => Json::Null,
        serde_json::Value::Bool(b) => Json::Bool(b),
        serde_json::Value::Number(n) => Json::Number(n.to_string()),
        serde_json::Value::String(s) => Json::Text(s),
        serde_json::Value::Array(items) => Json::Array(items.into_iter().map(convert).collect()),
        serde_json::Value::Object(members) => Json::Object(
            members
                .into_iter()
                .map(|(name, value)| (name, convert(value)))
                .collect(),
        ),
    }
}

fn document(text: &str) -> AbiDocument {
    read_abi(&convert(serde_json::from_str(text).unwrap())).unwrap()
}

fn json_type(schema: Schema) -> TypeRef {
    TypeRef::JsonSchema(schema)
}

fn borsh_type() -> TypeRef {
    TypeRef::BorshEncoded(Json::Object(vec![(
        "declaration".to_string(),
        Json::Text("u32".to_string()),
    )]))
}

fn param(name: Option<&str>, ty: TypeRef) -> ParamSpec {
    ParamSpec { name: name.map(|n| n.to_string()), ty }
}

fn function(name: &str, params: Vec<ParamSpec>, result: Option<TypeRef>) -> FunctionSpec {
    FunctionSpec { name: name.to_string(), params, result }
}

fn reference(name: &str) -> Schema {
    Schema::Reference(name.to_string())
}

fn integers() -> Schema {
    Schema::Array(Box::new(Schema::Primitive(Scalar::Integer)))
}

fn abi(
    name: Option<&str>,
    functions: Vec<FunctionSpec>,
    universe: Vec<(&str, Schema)>,
) -> AbiDocument {
    AbiDocument {
        metadata: AbiMetadata { name: name.map(|n| n.to_string()) },
        functions,
        type_universe: universe
            .into_iter()
            .map(|(name, schema)| Definition { name: name.to_string(), schema })
            .collect(),
    }
}

fn named(name: &str) -> TypeReference {
    TypeReference::Named(name.to_string())
}

fn unsupported(function: &str, parameter: Option<usize>) -> GenerateError {
    GenerateError::UnsupportedEncoding { function: function.to_string(), parameter }
}

const ADDER: &str = r#"{
    "metadata": {"name": "adder"},
    "body": {
        "functions": [
            {"name": "add",
             "params": [
                {"name": "a", "type_schema": {"type": "array", "items": {"type": "integer"}}, "encoding": "json"},
                {"name": "b", "type_schema": {"type": "array", "items": {"type": "integer"}}, "encoding": "json"}
             ],
             "result": {"type_schema": {"type": "integer"}, "encoding": "json"}}
        ],
        "root_schema": {}
    }
}"#;

#[test]
fn adder_yields_one_method_and_no_types() {
    let unit = generate_bindings(&document(ADDER), None).unwrap();
    let integer_array =
        || TypeReference::Array(Box::new(TypeReference::Scalar(Scalar::Integer)));
    let expected = OutputUnit {
        types: vec![],
        interface: GeneratedInterface {
            name: "ExtAdder".to_string(),
            module: None,
            methods: vec![Method {
                name: "add".to_string(),
                params: vec![
                    Parameter { name: "a".to_string(), ty: integer_array() },
                    Parameter { name: "b".to_string(), ty: integer_array() },
                ],
                result: Some(TypeReference::Scalar(Scalar::Integer)),
            }],
        },
    };
    assert_eq!(unit, expected);
}

#[test]
fn borsh_parameter_fails_generation_and_names_the_function() {
    let text = r#"{
        "metadata": {"name": "adder"},
        "body": {
            "functions": [
                {"name": "add",
                 "params": [{"name": "a", "type_schema": {"declaration": "u32", "definitions": {}}, "encoding": "borsh"}]}
            ],
            "root_schema": {}
        }
    }"#;
    assert_eq!(generate_bindings(&document(text), None), Err(unsupported("add", Some(0))));
    assert_eq!(
        generate_ext(&document(text), "Adder".to_string(), None),
        Err(unsupported("add", Some(0)))
    );
}

#[test]
fn borsh_result_fails_generation() {
    let doc = abi(
        Some("c"),
        vec![
            function("fine", vec![], None),
            function("bad", vec![param(Some("a"), json_type(integers()))], Some(borsh_type())),
        ],
        vec![],
    );
    assert_eq!(generate_bindings(&doc, None), Err(unsupported("bad", None)));
}

#[test]
fn borsh_anywhere_is_reported_before_any_other_failure() {
    let doc = abi(
        None,
        vec![
            function("cyclic", vec![param(None, json_type(reference("Loop")))], None),
            function("lost", vec![param(None, json_type(reference("Missing")))], None),
            function(
                "bad",
                vec![
                    param(None, json_type(integers())),
                    param(None, borsh_type()),
                    param(None, borsh_type()),
                ],
                Some(borsh_type()),
            ),
            function("worse", vec![param(None, borsh_type())], None),
        ],
        vec![("Loop", reference("Loop"))],
    );
    assert_eq!(generate_bindings(&doc, None), Err(unsupported("bad", Some(1))));
    assert_eq!(generate_ext(&doc, "C".to_string(), None), Err(unsupported("bad", Some(1))));
}

#[test]
fn encodings_are_checked_function_by_function() {
    let fine = function(
        "fine",
        vec![param(None, json_type(integers()))],
        Some(json_type(integers())),
    );
    let bad_result = function("r", vec![], Some(borsh_type()));
    let bad_param = function(
        "p",
        vec![param(None, json_type(integers())), param(None, borsh_type())],
        Some(borsh_type()),
    );
    assert_eq!(find_borsh_param(&fine.params), None);
    assert_eq!(find_borsh_param(&bad_param.params), Some(1));
    assert_eq!(check_function_encoding(&fine), Ok(()));
    assert_eq!(check_function_encoding(&bad_result), Err(unsupported("r", None)));
    assert_eq!(check_function_encoding(&bad_param), Err(unsupported("p", Some(1))));
    assert_eq!(check_encodings(&vec![]), Ok(()));
    assert_eq!(check_encodings(&vec![fine]), Ok(()));
    assert_eq!(check_encodings(&vec![bad_result, bad_param]), Err(unsupported("r", None)));
}

#[test]
fn definition_used_by_two_functions_is_declared_once() {
    let doc = abi(
        Some("pairs"),
        vec![
            function("first", vec![param(Some("p"), json_type(reference("Pair")))], None),
            function("second", vec![], Some(json_type(reference("Pair")))),
            function(
                "third",
                vec![param(Some("ps"), json_type(Schema::Array(Box::new(reference("Pair")))))],
                Some(json_type(reference("Pair"))),
            ),
        ],
        vec![("Pair", integers())],
    );
    let unit = generate_bindings(&doc, None).unwrap();
    assert_eq!(
        unit.types,
        vec![GeneratedType {
            name: "Pair".to_string(),
            anonymous: false,
            body: TypeBody::Alias(TypeReference::Array(Box::new(TypeReference::Scalar(
                Scalar::Integer
            )))),
        }]
    );
    let methods = &unit.interface.methods;
    assert_eq!(methods[0].params[0].ty, named("Pair"));
    assert_eq!(methods[1].result, Some(named("Pair")));
    assert_eq!(methods[2].params[0].ty, TypeReference::Array(Box::new(named("Pair"))));
    assert_eq!(methods[2].result, Some(named("Pair")));
}

#[test]
fn inline_shape_used_by_two_functions_is_declared_once() {
    let point = || {
        Schema::Object(vec![FieldSchema {
            name: "x".to_string(),
            schema: Schema::Primitive(Scalar::Number),
            required: true,
        }])
    };
    let doc = abi(
        Some("points"),
        vec![
            function("first", vec![param(None, json_type(point()))], None),
            function("second", vec![param(None, json_type(point()))], Some(json_type(point()))),
        ],
        vec![],
    );
    let unit = generate_bindings(&doc, None).unwrap();
    assert_eq!(
        unit.types,
        vec![GeneratedType {
            name: "Anonymous0".to_string(),
            anonymous: true,
            body: TypeBody::Struct(vec![GeneratedField {
                name: "x".to_string(),
                ty: TypeReference::Scalar(Scalar::Number),
                nullable: false,
            }]),
        }]
    );
    assert_eq!(unit.interface.methods[0].params[0].ty, named("Anonymous0"));
    assert_eq!(unit.interface.methods[1].params[0].ty, named("Anonymous0"));
    assert_eq!(unit.interface.methods[1].result, Some(named("Anonymous0")));
}

#[test]
fn methods_keep_the_order_of_the_functions() {
    let doc = abi(
        Some("c"),
        vec![
            function("zulu", vec![param(None, json_type(reference("B")))], None),
            function("alpha", vec![], Some(json_type(reference("A")))),
            function("mike", vec![param(None, json_type(reference("A")))], None),
            function("alpha", vec![], None),
        ],
        vec![("A", Schema::Primitive(Scalar::Text)), ("B", Schema::Primitive(Scalar::Null))],
    );
    let unit = generate_bindings(&doc, None).unwrap();
    let names: Vec<&str> = unit.interface.methods.iter().map(|m| m.name.as_str()).collect();
    assert_eq!(names, vec!["zulu", "alpha", "mike", "alpha"]);
    let types: Vec<&str> = unit.types.iter().map(|t| t.name.as_str()).collect();
    assert_eq!(types, vec!["B", "A"]);
}

#[test]
fn types_are_declared_in_the_order_of_first_use() {
    let doc = abi(
        Some("c"),
        vec![function(
            "f",
            vec![
                param(Some("late"), json_type(reference("Zed"))),
                param(Some("early"), json_type(reference("Abe"))),
            ],
            Some(json_type(reference("Mid"))),
        )],
        vec![
            ("Abe", Schema::Primitive(Scalar::Text)),
            ("Mid", Schema::Primitive(Scalar::Text)),
            ("Zed", Schema::Primitive(Scalar::Text)),
            ("Unused", Schema::Primitive(Scalar::Text)),
        ],
    );
    let unit = generate_bindings(&doc, None).unwrap();
    let types: Vec<&str> = unit.types.iter().map(|t| t.name.as_str()).collect();
    assert_eq!(types, vec!["Zed", "Abe", "Mid"]);
}

#[test]
fn parameters_without_names_are_named_by_position() {
    let doc = abi(
        Some("c"),
        vec![function(
            "f",
            vec![
                param(None, json_type(integers())),
                param(None, json_type(Schema::Primitive(Scalar::Text))),
                param(Some("third"), json_type(integers())),
                param(None, json_type(integers())),
            ],
            None,
        )],
        vec![],
    );
    let unit = generate_bindings(&doc, None).unwrap();
    let names: Vec<&str> =
        unit.interface.methods[0].params.iter().map(|p| p.name.as_str()).collect();
    assert_eq!(names, vec!["arg0", "arg1", "third", "arg3"]);
}

#[test]
fn interface_is_named_after_the_metadata() {
    let doc = abi(Some("status_message"), vec![], vec![]);
    let unit = generate_bindings(&doc, None).unwrap();
    assert_eq!(unit.interface.name, "ExtStatusMessage");
    assert_eq!(unit.interface.module, None);
    assert!(unit.interface.methods.is_empty());
    assert!(unit.types.is_empty());
}

#[test]
fn explicit_interface_name_wins() {
    let doc = abi(Some("status_message"), vec![], vec![]);
    let unit = generate_bindings(&doc, Some("Status".to_string())).unwrap();
    assert_eq!(unit.interface.name, "Status");
}

#[test]
fn document_without_any_name_generates_nothing() {
    let doc = abi(None, vec![function("f", vec![], None)], vec![]);
    assert_eq!(generate_bindings(&doc, None), Err(GenerateError::UnresolvableName));
    assert!(generate_bindings(&doc, Some("F".to_string())).is_ok());
}

#[test]
fn module_name_is_handed_to_the_interface() {
    let doc = abi(None, vec![function("f", vec![], None)], vec![]);
    let unit = generate_ext(&doc, "Adder".to_string(), Some("ext_adder".to_string())).unwrap();
    assert_eq!(unit.interface.name, "Adder");
    assert_eq!(unit.interface.module, Some("ext_adder".to_string()));
    assert_eq!(unit.interface.methods.len(), 1);
}

#[test]
fn cyclic_definition_fails_generation() {
    let doc = abi(
        Some("c"),
        vec![
            function("fine", vec![param(None, json_type(integers()))], None),
            function("f", vec![], Some(json_type(reference("A")))),
        ],
        vec![("A", reference("B")), ("B", Schema::Array(Box::new(reference("A"))))],
    );
    assert_eq!(
        generate_bindings(&doc, None),
        Err(GenerateError::CyclicSchema { definition: "A".to_string() })
    );
}

#[test]
fn reference_to_no_definition_fails_generation_where_it_stands() {
    let doc = abi(
        Some("c"),
        vec![
            function("fine", vec![], None),
            function(
                "f",
                vec![param(None, json_type(integers())), param(None, json_type(reference("Gone")))],
                None,
            ),
        ],
        vec![],
    );
    assert_eq!(
        generate_bindings(&doc, None),
        Err(GenerateError::InvalidSchemaShape(DocumentPart::Parameter(1, 1)))
    );
    let doc = abi(
        Some("c"),
        vec![function("f", vec![], Some(json_type(reference("Gone"))))],
        vec![],
    );
    assert_eq!(
        generate_bindings(&doc, None),
        Err(GenerateError::InvalidSchemaShape(DocumentPart::Result(0)))
    );
}

#[test]
fn two_runs_on_one_document_give_the_same_unit() {
    let text = r##"{
        "metadata": {"name": "shop"},
        "body": {
            "functions": [
                {"name": "buy",
                 "params": [
                    {"type_schema": {"$ref": "#/definitions/Order"}, "encoding": "json"},
                    {"type_schema": {"type": "object", "properties": {"note": {"type": "string"}}}, "encoding": "json"}
                 ],
                 "result": {"type_schema": {"enum": ["Done", "Refused"]}, "encoding": "json"}}
            ],
            "root_schema": {
                "Item": {"type": "string"},
                "Order": {"type": "object", "required": ["items"],
                          "properties": {"items": {"type": "array", "items": {"$ref": "#/definitions/Item"}}}}
            }
        }
    }"##;
    let first = generate_bindings(&document(text), None);
    let second = generate_bindings(&document(text), None);
    assert!(first.is_ok());
    assert_eq!(first, second);
    let unit = first.unwrap();
    let types: Vec<&str> = unit.types.iter().map(|t| t.name.as_str()).collect();
    assert_eq!(types, vec!["Item", "Order", "Anonymous2", "Anonymous3"]);
}

#[test]
fn unit_is_composed_of_types_and_interface() {
    let types = vec![GeneratedType {
        name: "A".to_string(),
        anonymous: false,
        body: TypeBody::Enum(vec![]),
    }];
    let interface =
        GeneratedInterface { name: "I".to_string(), module: None, methods: vec![] };
    let unit = compose(types, interface);
    assert_eq!(unit.types.len(), 1);
    assert_eq!(unit.types[0].name, "A");
    assert_eq!(unit.interface.name, "I");
}
