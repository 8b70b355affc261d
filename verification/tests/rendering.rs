use near_sdk_abi::interface::{GeneratedInterface, Method, Parameter};
use near_sdk_abi::schema::Scalar;
use near_sdk_abi::source::{
    file_text, scalar_text, unit_text, write_declaration, write_field, write_interface,
    write_method, write_reference,
};
use near_sdk_abi::types::{GeneratedField, GeneratedType, TypeBody, TypeReference};
use near_sdk_abi::unit::OutputUnit;

fn named(name: &str) -> TypeReference {
    TypeReference::Named(name.to_string())
}

fn array(item: TypeReference) -> TypeReference {
    TypeReference::Array(Box::new(item))
}

fn integer() -> TypeReference {
    TypeReference::Scalar(Scalar::Integer)
}

fn field(name: &str, ty: TypeReference, nullable: bool) -> GeneratedField {
    GeneratedField { name: name.to_string(), ty, nullable }
}

fn declared(name: &str, body: TypeBody) -> GeneratedType {
    GeneratedType { name: name.to_string(), anonymous: false, body }
}

fn method(name: &str, params: Vec<(&str, TypeReference)>, result: Option<TypeReference>) -> Method {
    Method {
        name: name.to_string(),
        params: params
            .into_iter()
            .map(|(name, ty)| Parameter { name: name.to_string(), ty })
            .collect(),
        result,
    }
}

fn interface(name: &str, module: Option<&str>, methods: Vec<Method>) -> GeneratedInterface {
    GeneratedInterface {
        name: name.to_string(),
        module: module.map(|m| m.to_string()),
        methods,
    }
}

fn reference_text(reference: &TypeReference) -> String {
    let mut out = String::new();
    write_reference(&mut out, reference);
    out
}

fn adder() -> OutputUnit {
    OutputUnit {
        types: vec![],
        interface: interface(
            "ExtAdder",
            None,
            vec![method(
                "add",
                vec![("a", array(integer())), ("b", array(integer()))],
                Some(integer()),
            )],
        ),
    }
}

#[test]
fn scalars_are_written_as_rust_types() {
    assert_eq!(scalar_text(Scalar::Text), "String");
    assert_eq!(scalar_text(Scalar::Number), "f64");
    assert_eq!(scalar_text(Scalar::Integer), "i64");
    assert_eq!(scalar_text(Scalar::Boolean), "bool");
    assert_eq!(scalar_text(Scalar::Null), "()");
}

#[test]
fn references_are_written_as_rust_types() {
    assert_eq!(reference_text(&integer()), "i64");
    assert_eq!(reference_text(&named("Pair")), "Pair");
    assert_eq!(reference_text(&array(named("Pair"))), "Vec<Pair>");
    assert_eq!(
        reference_text(&array(array(TypeReference::Scalar(Scalar::Text)))),
        "Vec<Vec<String>>"
    );
}

#[test]
fn writing_appends_to_what_is_there() {
    let mut out = "type T = ".to_string();
    write_reference(&mut out, &array(integer()));
    assert_eq!(out, "type T = Vec<i64>");
}

#[test]
fn nullable_field_is_an_option() {
    let mut out = String::new();
    write_field(&mut out, &field("id", TypeReference::Scalar(Scalar::Text), false));
    write_field(&mut out, &field("memo", array(named("Note")), true));
    assert_eq!(out, "    pub id: String,\n    pub memo: Option<Vec<Note>>,\n");
}

#[test]
fn record_is_written_as_a_struct() {
    let mut out = String::new();
    write_declaration(
        &mut out,
        &declared(
            "Account",
            TypeBody::Struct(vec![
                field("id", TypeReference::Scalar(Scalar::Text), false),
                field("balance", TypeReference::Scalar(Scalar::Number), true),
            ]),
        ),
    );
    assert_eq!(
        out,
        "#[derive(Clone, PartialEq, Debug, Deserialize, Serialize)]\n\
         pub struct Account {\n    pub id: String,\n    pub balance: Option<f64>,\n}\n"
    );
}

#[test]
fn record_without_fields_is_an_empty_struct() {
    let mut out = String::new();
    write_declaration(&mut out, &declared("Unit", TypeBody::Struct(vec![])));
    assert_eq!(
        out,
        "#[derive(Clone, PartialEq, Debug, Deserialize, Serialize)]\npub struct Unit {\n}\n"
    );
}

#[test]
fn closed_sum_is_written_as_an_enum() {
    let mut out = String::new();
    write_declaration(
        &mut out,
        &declared("Side", TypeBody::Enum(vec!["Left".to_string(), "Right".to_string()])),
    );
    assert_eq!(
        out,
        "#[derive(Clone, PartialEq, Debug, Deserialize, Serialize)]\n\
         pub enum Side {\n    Left,\n    Right,\n}\n"
    );
}

#[test]
fn alias_is_written_as_a_type() {
    let mut out = String::new();
    write_declaration(&mut out, &declared("Pair", TypeBody::Alias(array(integer()))));
    assert_eq!(out, "pub type Pair = Vec<i64>;\n");
}

#[test]
fn stub_borrows_the_receiver() {
    let mut out = String::new();
    write_method(&mut out, &method("ping", vec![], None));
    write_method(&mut out, &method("get", vec![("id", named("Id"))], Some(named("Account"))));
    assert_eq!(
        out,
        "    fn ping(&self);\n    fn get(&self, id: Id) -> Account;\n"
    );
}

#[test]
fn interface_is_a_trait_under_the_contract_attribute() {
    let mut out = String::new();
    write_interface(&mut out, &interface("Empty", None, vec![]));
    assert_eq!(out, "#[near_sdk::ext_contract]\npub trait Empty {\n}\n");
}

#[test]
fn module_name_goes_into_the_attribute() {
    let mut out = String::new();
    write_interface(
        &mut out,
        &interface("Adder", Some("ext_adder"), vec![method("f", vec![], None)]),
    );
    assert_eq!(
        out,
        "#[near_sdk::ext_contract(ext_adder)]\npub trait Adder {\n    fn f(&self);\n}\n"
    );
}

#[test]
fn adder_unit_is_one_trait() {
    assert_eq!(
        unit_text(&adder()),
        "#[near_sdk::ext_contract]\npub trait ExtAdder {\n    \
         fn add(&self, a: Vec<i64>, b: Vec<i64>) -> i64;\n}\n"
    );
}

#[test]
fn file_starts_with_the_import() {
    assert_eq!(
        file_text(&adder()),
        "use serde::{Deserialize, Serialize};\n#[near_sdk::ext_contract]\npub trait ExtAdder {\n    \
         fn add(&self, a: Vec<i64>, b: Vec<i64>) -> i64;\n}\n"
    );
}

#[test]
fn types_stand_before_the_interface_in_their_order() {
    let unit = OutputUnit {
        types: vec![
            declared("Zed", TypeBody::Alias(integer())),
            declared("Abe", TypeBody::Enum(vec![])),
        ],
        interface: interface("I", None, vec![]),
    };
    assert_eq!(
        unit_text(&unit),
        "pub type Zed = i64;\n\
         #[derive(Clone, PartialEq, Debug, Deserialize, Serialize)]\npub enum Abe {\n}\n\
         #[near_sdk::ext_contract]\npub trait I {\n}\n"
    );
}

#[test]
fn written_file_is_rust_that_a_formatter_takes() {
    let unit = OutputUnit {
        types: vec![
            declared("Item", TypeBody::Alias(TypeReference::Scalar(Scalar::Text))),
            declared(
                "Order",
                TypeBody::Struct(vec![
                    field("items", array(named("Item")), false),
                    field("note", TypeReference::Scalar(Scalar::Null), true),
                ]),
            ),
            declared("State", TypeBody::Enum(vec!["Open".to_string(), "Closed".to_string()])),
        ],
        interface: interface(
            "ExtShop",
            Some("ext_shop"),
            vec![
                method("buy", vec![("order", named("Order"))], Some(named("State"))),
                method("close", vec![], None),
            ],
        ),
    };
    let file = syn::parse_file(&file_text(&unit)).unwrap();
    assert_eq!(file.items.len(), 5);
    let formatted = prettyplease::unparse(&file);
    assert!(formatted.contains("pub struct Order {"));
    assert!(formatted.contains("pub note: Option<()>,"));
    assert!(formatted.contains("fn buy(&self, order: Order) -> State;"));
    assert!(formatted.contains("#[near_sdk::ext_contract(ext_shop)]"));
}
