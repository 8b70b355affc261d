use near_sdk_abi::error::{DocumentPart, GenerateError};
use near_sdk_abi::generator::{GenerationFailure, Generator};
use near_sdk_abi::json::Json;

fn convert(value: serde_json::Value) -> Json {
    match value {
        serde_json::Value::Null => Json::Null,
        serde_json::Value::Bool(b) => Json::Bool(b),
        serde_json::Value::Number(n) => Json::Number(n.to_string()),
        serde_json::Value::String(s) => Json::Text(s),
        serde_json::Value::Array(items) => Json::Array(items.into_iter().map(convert).collect()),
        serde_json::Value::Object(members) => Json::Object(
            members
                .into_iter()
                .map(|(name, value)| (name, convert(value)))
                .collect(),
        ),
    }
}

fn json(text: &str) -> Json {
    convert(serde_json::from_str(text).unwrap())
}

fn named_document(name: &str) -> Json {
    json(&format!(
        r#"{{"metadata": {{"name": "{}"}}, "body": {{"functions": [{{"name": "f", "params": []}}], "root_schema": {{}}}}}}"#,
        name
    ))
}

fn nameless_document() -> Json {
    json(r#"{"metadata": {}, "body": {"functions": [], "root_schema": {}}}"#)
}

fn failure(source: usize, error: GenerateError) -> GenerationFailure {
    GenerationFailure { source, error }
}

#[test]
fn new_generator_has_a_target_and_no_sources() {
    let generator = Generator::new("gen".to_string());
    assert_eq!(generator.out_dir(), &Some("gen".to_string()));
    assert!(generator.abis().is_empty());
}

#[test]
fn default_generator_has_neither_target_nor_sources() {
    let generator = Generator::default();
    assert_eq!(generator.out_dir(), &None);
    assert!(generator.abis().is_empty());
}

#[test]
fn sources_are_registered_in_order() {
    let generator = Generator::new("gen".to_string())
        .file("src/adder.json")
        .file_with_name("src/other.json", "Other".to_string())
        .file("src/adder.json");
    assert_eq!(generator.out_dir(), &Some("gen".to_string()));
    assert_eq!(
        generator.abis(),
        &vec![
            ("src/adder.json".to_string(), None),
            ("src/other.json".to_string(), Some("Other".to_string())),
            ("src/adder.json".to_string(), None),
        ]
    );
}

#[test]
fn no_sources_generate_no_units() {
    assert_eq!(Generator::new("gen".to_string()).generate(&vec![]), Ok(vec![]));
    assert_eq!(
        Generator::default().generate(&vec![Some(nameless_document())]),
        Ok(vec![])
    );
}

#[test]
fn each_source_yields_its_unit_in_order() {
    let generator = Generator::new("gen".to_string())
        .file("a.json")
        .file_with_name("b.json", "Named".to_string())
        .file_with_name("c.json", "Given".to_string());
    let units = generator
        .generate(&vec![
            Some(named_document("first_one")),
            Some(named_document("second_one")),
            Some(nameless_document()),
        ])
        .unwrap();
    let names: Vec<&str> = units.iter().map(|u| u.interface.name.as_str()).collect();
    assert_eq!(names, vec!["ExtFirstOne", "Named", "Given"]);
    assert_eq!(units[0].interface.methods.len(), 1);
    assert_eq!(units[2].interface.methods.len(), 0);
}

#[test]
fn first_failing_source_fails_the_whole_generation() {
    let generator = Generator::new("gen".to_string())
        .file("a.json")
        .file("b.json")
        .file("c.json");
    assert_eq!(
        generator.generate(&vec![
            Some(named_document("a")),
            Some(nameless_document()),
            Some(json("[]")),
        ]),
        Err(failure(1, GenerateError::UnresolvableName))
    );
}

#[test]
fn malformed_document_fails_the_generation() {
    let generator = Generator::new("gen".to_string()).file("a.json");
    assert_eq!(
        generator.generate(&vec![Some(json(r#"{"metadata": {}}"#))]),
        Err(failure(0, GenerateError::MalformedDocument(DocumentPart::Body)))
    );
}

#[test]
fn source_that_could_not_be_read_fails_the_generation() {
    let generator = Generator::new("gen".to_string()).file("a.json").file("b.json");
    assert_eq!(
        generator.generate(&vec![Some(named_document("a")), None]),
        Err(failure(1, GenerateError::MalformedDocument(DocumentPart::Source)))
    );
}

#[test]
fn source_without_a_document_counts_as_unread() {
    let generator = Generator::new("gen".to_string()).file("a.json").file("b.json");
    assert_eq!(
        generator.generate(&vec![Some(named_document("a"))]),
        Err(failure(1, GenerateError::MalformedDocument(DocumentPart::Source)))
    );
    let generator = Generator::new("gen".to_string()).file("a.json");
    assert_eq!(
        generator.generate(&vec![]),
        Err(failure(0, GenerateError::MalformedDocument(DocumentPart::Source)))
    );
}

#[test]
fn failure_names_a_registered_source() {
    let generator = Generator::new("gen".to_string()).file("a.json").file("b.json");
    let failure = generator
        .generate(&vec![Some(json("{}")), Some(json("{}")), Some(json("{}"))])
        .unwrap_err();
    assert_eq!(failure.source, 0);
    assert_eq!(failure.error, GenerateError::MalformedDocument(DocumentPart::Metadata));
}
