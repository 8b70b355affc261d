use near_sdk_abi::document::Definition;
use near_sdk_abi::error::{DocumentPart, GenerateError};
use near_sdk_abi::resolver::{
    find_definition, find_shape, fresh_name_text, has_definition_type, has_type_named,
    universe_defines, Resolver,
};
use near_sdk_abi::schema::{FieldSchema, Scalar, Schema};
use near_sdk_abi::types::{GeneratedField, GeneratedType, TypeBody, TypeReference};

const PART: DocumentPart = DocumentPart::Parameter(0, 0);

fn scalar(scalar: Scalar) -> Schema {
    Schema::Primitive(scalar)
}

fn reference(name: &str) -> Schema {
    Schema::Reference(name.to_string())
}

fn array(item: Schema) -> Schema {
    Schema::Array(Box::new(item))
}

fn object(fields: Vec<(&str, Schema, bool)>) -> Schema {
    Schema::Object(
        fields
            .into_iter()
            .map(|(name, schema, required)| FieldSchema {
                name: name.to_string(),
                schema,
                required,
            })
            .collect(),
    )
}

fn enumeration(variants: &[&str]) -> Schema {
    Schema::Enum(variants.iter().map(|v| v.to_string()).collect())
}

fn definition(name: &str, schema: Schema) -> Definition {
    Definition { name: name.to_string(), schema }
}

fn named(name: &str) -> TypeReference {
    TypeReference::Named(name.to_string())
}

fn field(name: &str, ty: TypeReference, nullable: bool) -> GeneratedField {
    GeneratedField { name: name.to_string(), ty, nullable }
}

fn declared(name: &str, anonymous: bool, body: TypeBody) -> GeneratedType {
    GeneratedType { name: name.to_string(), anonymous, body }
}

fn names(resolver: &Resolver) -> Vec<String> {
    resolver.types().iter().map(|t| t.name.clone()).collect()
}

#[test]
fn scalars_declare_nothing() {
    let mut resolver = Resolver::new();
    for kind in [Scalar::Text, Scalar::Number, Scalar::Integer, Scalar::Boolean, Scalar::Null] {
        assert_eq!(
            resolver.resolve(&vec![], PART, &scalar(kind)),
            Ok(TypeReference::Scalar(kind))
        );
    }
    assert!(resolver.types().is_empty());
}

#[test]
fn arrays_of_scalars_declare_nothing() {
    let mut resolver = Resolver::new();
    assert_eq!(
        resolver.resolve(&vec![], PART, &array(array(scalar(Scalar::Integer)))),
        Ok(TypeReference::Array(Box::new(TypeReference::Array(Box::new(
            TypeReference::Scalar(Scalar::Integer)
        )))))
    );
    assert!(resolver.types().is_empty());
}

#[test]
fn reference_declares_its_definition_once() {
    let universe = vec![definition("Pair", array(scalar(Scalar::Integer)))];
    let mut resolver = Resolver::new();
    assert_eq!(resolver.resolve(&universe, PART, &reference("Pair")), Ok(named("Pair")));
    assert_eq!(resolver.resolve(&universe, PART, &reference("Pair")), Ok(named("Pair")));
    assert_eq!(
        resolver.resolve(&universe, PART, &array(reference("Pair"))),
        Ok(TypeReference::Array(Box::new(named("Pair"))))
    );
    assert_eq!(
        resolver.into_types(),
        vec![declared(
            "Pair",
            false,
            TypeBody::Alias(TypeReference::Array(Box::new(TypeReference::Scalar(
                Scalar::Integer
            ))))
        )]
    );
}

#[test]
fn definition_of_an_object_is_a_record() {
    let universe = vec![definition(
        "Account",
        object(vec![
            ("id", scalar(Scalar::Text), true),
            ("balance", scalar(Scalar::Number), false),
        ]),
    )];
    let mut resolver = Resolver::new();
    assert_eq!(resolver.resolve(&universe, PART, &reference("Account")), Ok(named("Account")));
    assert_eq!(
        resolver.into_types(),
        vec![declared(
            "Account",
            false,
            TypeBody::Struct(vec![
                field("id", TypeReference::Scalar(Scalar::Text), false),
                field("balance", TypeReference::Scalar(Scalar::Number), true),
            ])
        )]
    );
}

#[test]
fn definition_of_an_enumeration_is_a_closed_sum() {
    let universe = vec![definition("Side", enumeration(&["Left", "Right"]))];
    let mut resolver = Resolver::new();
    assert_eq!(resolver.resolve(&universe, PART, &reference("Side")), Ok(named("Side")));
    assert_eq!(
        resolver.into_types(),
        vec![declared(
            "Side",
            false,
            TypeBody::Enum(vec!["Left".to_string(), "Right".to_string()])
        )]
    );
}

#[test]
fn children_are_declared_before_their_parents() {
    let universe = vec![
        definition(
            "Order",
            object(vec![
                ("buyer", reference("Account"), true),
                ("lines", array(reference("Line")), true),
            ]),
        ),
        definition("Line", object(vec![("item", reference("Item"), true)])),
        definition("Account", scalar(Scalar::Text)),
        definition("Item", scalar(Scalar::Integer)),
        definition("Unused", scalar(Scalar::Null)),
    ];
    let mut resolver = Resolver::new();
    assert_eq!(resolver.resolve(&universe, PART, &reference("Order")), Ok(named("Order")));
    assert_eq!(names(&resolver), vec!["Account", "Item", "Line", "Order"]);
}

#[test]
fn what_was_declared_stays_in_place() {
    let universe = vec![
        definition("A", scalar(Scalar::Text)),
        definition("B", object(vec![("a", reference("A"), true)])),
        definition("C", object(vec![("b", reference("B"), true), ("a", reference("A"), true)])),
    ];
    let mut resolver = Resolver::new();
    assert_eq!(resolver.resolve(&universe, PART, &reference("B")), Ok(named("B")));
    assert_eq!(names(&resolver), vec!["A", "B"]);
    assert_eq!(resolver.resolve(&universe, PART, &reference("C")), Ok(named("C")));
    assert_eq!(names(&resolver), vec!["A", "B", "C"]);
}

#[test]
fn definition_that_refers_to_itself_is_a_cycle() {
    let universe = vec![definition("Node", object(vec![("next", reference("Node"), false)]))];
    let mut resolver = Resolver::new();
    assert_eq!(
        resolver.resolve(&universe, PART, &reference("Node")),
        Err(GenerateError::CyclicSchema { definition: "Node".to_string() })
    );
}

#[test]
fn definitions_that_refer_to_each_other_are_a_cycle() {
    let universe = vec![
        definition("A", array(reference("B"))),
        definition("B", object(vec![("c", reference("C"), true)])),
        definition("C", reference("A")),
    ];
    let mut resolver = Resolver::new();
    assert_eq!(
        resolver.resolve(&universe, PART, &reference("A")),
        Err(GenerateError::CyclicSchema { definition: "A".to_string() })
    );
    let mut resolver = Resolver::new();
    assert_eq!(
        resolver.resolve(&universe, PART, &reference("B")),
        Err(GenerateError::CyclicSchema { definition: "B".to_string() })
    );
}

#[test]
fn definition_used_twice_by_one_parent_is_no_cycle() {
    let universe = vec![
        definition("Leaf", scalar(Scalar::Integer)),
        definition(
            "Pair",
            object(vec![("left", reference("Leaf"), true), ("right", reference("Leaf"), true)]),
        ),
    ];
    let mut resolver = Resolver::new();
    assert_eq!(resolver.resolve(&universe, PART, &reference("Pair")), Ok(named("Pair")));
    assert_eq!(names(&resolver), vec!["Leaf", "Pair"]);
}

#[test]
fn reference_to_no_definition_has_no_shape() {
    let universe = vec![definition("A", reference("Missing"))];
    let part = DocumentPart::Result(4);
    let mut resolver = Resolver::new();
    assert_eq!(
        resolver.resolve(&universe, part, &reference("Nowhere")),
        Err(GenerateError::InvalidSchemaShape(part))
    );
    let mut resolver = Resolver::new();
    assert_eq!(
        resolver.resolve(&universe, part, &reference("A")),
        Err(GenerateError::InvalidSchemaShape(part))
    );
}

#[test]
fn first_of_two_definitions_of_one_name_is_taken() {
    let universe = vec![
        definition("A", scalar(Scalar::Text)),
        definition("A", scalar(Scalar::Integer)),
    ];
    assert_eq!(find_definition(&universe, "A"), Some(&scalar(Scalar::Text)));
    assert_eq!(find_definition(&universe, "B"), None);
    assert!(universe_defines(&universe, "A"));
    assert!(!universe_defines(&universe, "a"));
}

#[test]
fn inline_object_is_declared_as_an_anonymous_record() {
    let schema = object(vec![("x", scalar(Scalar::Integer), true)]);
    let mut resolver = Resolver::new();
    assert_eq!(resolver.resolve(&vec![], PART, &schema), Ok(named("Anonymous0")));
    assert_eq!(
        resolver.into_types(),
        vec![declared(
            "Anonymous0",
            true,
            TypeBody::Struct(vec![field("x", TypeReference::Scalar(Scalar::Integer), false)])
        )]
    );
}

#[test]
fn inline_schemas_of_one_shape_share_a_type() {
    let point = || {
        object(vec![("x", scalar(Scalar::Integer), true), ("y", scalar(Scalar::Integer), true)])
    };
    let other = object(vec![
        ("x", scalar(Scalar::Integer), true),
        ("y", scalar(Scalar::Integer), false),
    ]);
    let mut resolver = Resolver::new();
    assert_eq!(resolver.resolve(&vec![], PART, &point()), Ok(named("Anonymous0")));
    assert_eq!(resolver.resolve(&vec![], PART, &other), Ok(named("Anonymous1")));
    assert_eq!(resolver.resolve(&vec![], PART, &point()), Ok(named("Anonymous0")));
    assert_eq!(resolver.resolve(&vec![], PART, &enumeration(&["a"])), Ok(named("Anonymous2")));
    assert_eq!(resolver.resolve(&vec![], PART, &enumeration(&["a"])), Ok(named("Anonymous2")));
    assert_eq!(resolver.types().len(), 3);
}

#[test]
fn nested_inline_objects_are_declared_inside_out() {
    let schema = object(vec![(
        "inner",
        object(vec![("leaf", enumeration(&["a", "b"]), true)]),
        false,
    )]);
    let mut resolver = Resolver::new();
    assert_eq!(resolver.resolve(&vec![], PART, &schema), Ok(named("Anonymous2")));
    assert_eq!(
        resolver.into_types(),
        vec![
            declared(
                "Anonymous0",
                true,
                TypeBody::Enum(vec!["a".to_string(), "b".to_string()])
            ),
            declared(
                "Anonymous1",
                true,
                TypeBody::Struct(vec![field("leaf", named("Anonymous0"), false)])
            ),
            declared(
                "Anonymous2",
                true,
                TypeBody::Struct(vec![field("inner", named("Anonymous1"), true)])
            ),
        ]
    );
}

#[test]
fn anonymous_type_and_definition_of_one_shape_are_two_types() {
    let universe = vec![definition("Side", enumeration(&["Left", "Right"]))];
    let mut resolver = Resolver::new();
    assert_eq!(resolver.resolve(&universe, PART, &reference("Side")), Ok(named("Side")));
    assert_eq!(
        resolver.resolve(&universe, PART, &enumeration(&["Left", "Right"])),
        Ok(named("Anonymous1"))
    );
    assert_eq!(names(&resolver), vec!["Side", "Anonymous1"]);
}

#[test]
fn anonymous_name_steps_aside_for_a_definition() {
    let universe = vec![
        definition("Anonymous0", scalar(Scalar::Text)),
        definition("Anonymous0_", scalar(Scalar::Text)),
    ];
    let mut resolver = Resolver::new();
    assert_eq!(
        resolver.resolve(&universe, PART, &enumeration(&["a"])),
        Ok(named("Anonymous0__"))
    );
    assert_eq!(
        resolver.resolve(&universe, PART, &reference("Anonymous0")),
        Ok(named("Anonymous0"))
    );
    assert_eq!(names(&resolver), vec!["Anonymous0__", "Anonymous0"]);
}

#[test]
fn fresh_name_appends_underscores_until_free() {
    let universe = vec![definition("T", scalar(Scalar::Text))];
    let types = vec![declared("T_", true, TypeBody::Enum(vec![]))];
    assert_eq!(fresh_name_text(&universe, &types, "T".to_string()), "T__");
    assert_eq!(fresh_name_text(&universe, &types, "U".to_string()), "U");
    assert_eq!(fresh_name_text(&vec![], &vec![], "".to_string()), "");
}

#[test]
fn lookups_in_the_registry_tell_names_from_shapes() {
    let types = vec![
        declared("Side", false, TypeBody::Enum(vec!["a".to_string()])),
        declared("Anonymous1", true, TypeBody::Enum(vec!["b".to_string()])),
    ];
    assert!(has_definition_type(&types, "Side"));
    assert!(!has_definition_type(&types, "Anonymous1"));
    assert!(has_type_named(&types, "Anonymous1"));
    assert!(!has_type_named(&types, "Other"));
    assert_eq!(find_shape(&types, &TypeBody::Enum(vec!["a".to_string()])), None);
    assert_eq!(
        find_shape(&types, &TypeBody::Enum(vec!["b".to_string()])),
        Some("Anonymous1".to_string())
    );
}

#[test]
fn failure_inside_a_record_is_the_failure_of_its_first_bad_field() {
    let universe = vec![definition("Loop", reference("Loop"))];
    let schema = object(vec![
        ("fine", scalar(Scalar::Text), true),
        ("lost", reference("Missing"), true),
        ("loop", reference("Loop"), true),
    ]);
    let mut resolver = Resolver::new();
    assert_eq!(
        resolver.resolve(&universe, PART, &schema),
        Err(GenerateError::InvalidSchemaShape(PART))
    );
}

#[test]
fn references_tell_each_other_apart() {
    let a = TypeReference::Array(Box::new(named("A")));
    assert!(a.same(&a.duplicate()));
    assert!(!a.same(&named("A")));
    assert!(!a.same(&TypeReference::Array(Box::new(named("B")))));
    assert!(!TypeReference::Scalar(Scalar::Text).same(&TypeReference::Scalar(Scalar::Null)));
    assert_eq!(a.duplicate(), a);
}

#[test]
fn shapes_tell_each_other_apart() {
    let record = |nullable| TypeBody::Struct(vec![field("x", named("A"), nullable)]);
    assert!(record(true).same(&record(true)));
    assert!(!record(true).same(&record(false)));
    assert!(!record(true).same(&TypeBody::Struct(vec![])));
    assert!(!record(true).same(&TypeBody::Alias(named("A"))));
    assert!(TypeBody::Alias(named("A")).same(&TypeBody::Alias(named("A"))));
    assert!(!TypeBody::Enum(vec!["a".to_string()]).same(&TypeBody::Enum(vec!["b".to_string()])));
    assert!(!TypeBody::Enum(vec!["a".to_string()]).same(&TypeBody::Enum(vec![])));
}

#[test]
fn failed_resolution_leaves_the_registry_as_it_was() {
    let universe = vec![
        definition("Kept", scalar(Scalar::Text)),
        definition("Fresh", scalar(Scalar::Integer)),
        definition("Loop", array(reference("Loop"))),
    ];
    let mut resolver = Resolver::new();
    assert_eq!(resolver.resolve(&universe, PART, &reference("Kept")), Ok(named("Kept")));
    let lost = object(vec![
        ("fresh", reference("Fresh"), true),
        ("inline", enumeration(&["a"]), true),
        ("lost", reference("Missing"), true),
    ]);
    assert_eq!(
        resolver.resolve(&universe, PART, &lost),
        Err(GenerateError::InvalidSchemaShape(PART))
    );
    assert_eq!(names(&resolver), vec!["Kept"]);
    let cyclic = object(vec![
        ("fresh", reference("Fresh"), true),
        ("loop", reference("Loop"), true),
    ]);
    assert_eq!(
        resolver.resolve(&universe, PART, &cyclic),
        Err(GenerateError::CyclicSchema { definition: "Loop".to_string() })
    );
    assert_eq!(names(&resolver), vec!["Kept"]);
    assert_eq!(resolver.resolve(&universe, PART, &reference("Fresh")), Ok(named("Fresh")));
    assert_eq!(names(&resolver), vec!["Kept", "Fresh"]);
}

#[test]
fn schema_that_leads_to_a_cycle_is_refused() {
    let universe = vec![
        definition("Entry", object(vec![("mid", reference("Mid"), true)])),
        definition("Mid", array(reference("Ring"))),
        definition("Ring", object(vec![("next", reference("Back"), false)])),
        definition("Back", reference("Ring")),
    ];
    for start in ["Entry", "Mid", "Ring"] {
        let mut resolver = Resolver::new();
        assert_eq!(
            resolver.resolve(&universe, PART, &array(reference(start))),
            Err(GenerateError::CyclicSchema { definition: "Ring".to_string() })
        );
        assert!(resolver.types().is_empty());
    }
    let mut resolver = Resolver::new();
    assert_eq!(
        resolver.resolve(&universe, PART, &reference("Back")),
        Err(GenerateError::CyclicSchema { definition: "Back".to_string() })
    );
}
