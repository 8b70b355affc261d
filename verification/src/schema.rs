//! Schemas: the shapes that a value of the type universe can be described to
//! have, and how a JSON fragment is read as one.
use crate::json::{lemma_json_view, lemma_member_smaller, Json, JsonModel};
use crate::text::{holds_text, same_text};
use vstd::prelude::*;

verus! {

/// The built-in scalar types.
#[derive(Clone, Copy, PartialEq, Eq, Structural, Debug)]
pub enum Scalar {
    Text,
    Number,
    Integer,
    Boolean,
    Null,
}

/// The description of one type.
#[derive(Debug, PartialEq, Eq)]
pub enum Schema {
    /// A built-in scalar.
    Primitive(Scalar),
    /// A sequence of items that all have one schema.
    Array(Box<Schema>),
    /// A record; its fields keep the order of the document.
    Object(Vec<FieldSchema>),
    /// One of a closed list of literal values.
    Enum(Vec<String>),
    /// The definition of that name in the type universe.
    Reference(String),
}

/// One field of an object schema.
#[derive(Debug, PartialEq, Eq)]
pub struct FieldSchema {
    pub name: String,
    pub schema: Schema,
    pub required: bool,
}

/// The mathematical value of a [`Schema`].
pub enum SchemaModel {
    Primitive(Scalar),
    Array(Box<SchemaModel>),
    Object(Seq<FieldModel>),
    Enum(Seq<Seq<char>>),
    Reference(Seq<char>),
}

/// The mathematical value of a [`FieldSchema`].
pub struct FieldModel {
    pub name: Seq<char>,
    pub schema: SchemaModel,
    pub required: bool,
}

/// The value of `schema`.
pub open spec fn schema_model(schema: Schema) -> SchemaModel
    decreases schema, 0nat,
{
    match schema {
        Schema::Primitive(scalar) => SchemaModel::Primitive(scalar),
        Schema::Array(item) => SchemaModel::Array(Box::new(schema_model(*item))),
        Schema::Object(fields) => SchemaModel::Object(fields_model(fields, fields.len() as nat)),
        Schema::Enum(values) => SchemaModel::Enum(values.deep_view()),
        Schema::Reference(name) => SchemaModel::Reference(name@),
    }
}

/// The values of the first `upto` of `fields`.
pub open spec fn fields_model(fields: Vec<FieldSchema>, upto: nat) -> Seq<FieldModel>
    decreases fields, upto,
{
    if upto == 0 || upto > fields.len() {
        Seq::empty()
    } else {
        fields_model(fields, (upto - 1) as nat).push(
            FieldModel {
                name: fields[upto - 1].name@,
                schema: schema_model(fields[upto - 1].schema),
                required: fields[upto - 1].required,
            },
        )
    }
}

impl DeepView for Schema {
    type V = SchemaModel;

    open spec fn deep_view(&self) -> SchemaModel {
        schema_model(*self)
    }
}

impl DeepView for FieldSchema {
    type V = FieldModel;

    open spec fn deep_view(&self) -> FieldModel {
        FieldModel { name: self.name@, schema: schema_model(self.schema), required: self.required }
    }
}

proof fn lemma_fields_model(fields: Vec<FieldSchema>, upto: nat)
    requires
        upto <= fields.len(),
    ensures
        fields_model(fields, upto) == fields.deep_view().take(upto as int),
    decreases upto,
{
    if upto > 0 {
        lemma_fields_model(fields, (upto - 1) as nat);
    }
    assert(fields_model(fields, upto) =~= fields.deep_view().take(upto as int));
}

/// The value of an object schema, stated over the values of its fields.
pub proof fn lemma_schema_view(schema: Schema)
    ensures
        schema matches Schema::Object(fields) ==> schema.deep_view() == SchemaModel::Object(
            fields.deep_view(),
        ),
{
    if let Schema::Object(fields) = schema {
        lemma_fields_model(fields, fields.len() as nat);
        assert(fields.deep_view().take(fields.len() as int) =~= fields.deep_view());
    }
}

/// Where the last path component of `target` begins, looking only at its first
/// `upto` characters: just after the last `/` among them, or at 0.
pub open spec fn component_start(target: Seq<char>, upto: nat) -> nat
    decreases upto,
{
    if upto == 0 || upto > target.len() {
        0
    } else if target[upto - 1] == '/' {
        upto
    } else {
        component_start(target, (upto - 1) as nat)
    }
}

/// The definition that a `$ref` of `target` names: what follows its last `/`,
/// or all of it where it has none.
pub open spec fn reference_name(target: Seq<char>) -> Seq<char> {
    target.skip(component_start(target, target.len()) as int)
}

proof fn lemma_component_start(target: Seq<char>, upto: nat)
    requires
        upto <= target.len(),
    ensures
        component_start(target, upto) <= upto,
        component_start(target, upto) == 0 || target[component_start(target, upto) - 1] == '/',
        forall|i: int| component_start(target, upto) <= i < upto ==> target[i] != '/',
    decreases upto,
{
    if upto > 0 && target[upto - 1] != '/' {
        lemma_component_start(target, (upto - 1) as nat);
    }
}

/// The name that a reference gives is the end of its target: it holds no
/// `/`, and what stands before it in the target is nothing or ends in `/`.
pub proof fn law_reference_name(target: Seq<char>)
    ensures
        !reference_name(target).contains('/'),
        exists|path: Seq<char>|
            #![auto]
            target == path + reference_name(target) && (path.len() == 0 || path.last() == '/'),
{
    lemma_component_start(target, target.len());
    let start = component_start(target, target.len()) as int;
    let name = reference_name(target);
    assert forall|i: int| 0 <= i < name.len() implies name[i] != '/' by {
        assert(name[i] == target[start + i]);
    }
    let path = target.take(start);
    assert(target =~= path + name);
    assert(target == path + reference_name(target) && (path.len() == 0 || path.last() == '/'));
}

/// The texts of the first `upto` of `values`, if each of them is a text.
pub open spec fn texts_of(values: Seq<JsonModel>, upto: nat) -> Option<Seq<Seq<char>>>
    decreases upto,
{
    if upto == 0 || upto > values.len() {
        Some(Seq::empty())
    } else {
        match (texts_of(values, (upto - 1) as nat), values[upto - 1]) {
            (Some(texts), JsonModel::Text(text)) => Some(texts.push(text)),
            _ => None,
        }
    }
}

/// The scalar that a `type` of `kind` names, if it names one.
pub open spec fn scalar_of(kind: Seq<char>) -> Option<Scalar> {
    if kind == "string"@ {
        Some(Scalar::Text)
    } else if kind == "number"@ {
        Some(Scalar::Number)
    } else if kind == "integer"@ {
        Some(Scalar::Integer)
    } else if kind == "boolean"@ {
        Some(Scalar::Boolean)
    } else if kind == "null"@ {
        Some(Scalar::Null)
    } else {
        None
    }
}

/// The names under `required` of an object fragment: none where the key is
/// absent; `None` where it holds anything but an array of texts.
pub open spec fn required_of(json: JsonModel) -> Option<Seq<Seq<char>>> {
    match json.member("required"@) {
        None => Some(Seq::empty()),
        Some(JsonModel::Array(values)) => texts_of(values, values.len()),
        Some(_) => None,
    }
}

/// The schema that the fragment `json` describes; `None` where it has none of
/// the supported shapes.
///
/// A fragment is an object. With a `$ref` it is a reference, whatever else it
/// holds; else with an `enum` it is an enumeration of texts; else its `type`
/// decides: a scalar's name, `array` (with `items`), or `object` (with
/// `properties` and `required`, both optional).
pub open spec fn schema_of(json: JsonModel) -> Option<SchemaModel>
    decreases json, 0nat,
{
    match json.member("$ref"@) {
        Some(JsonModel::Text(target)) => Some(SchemaModel::Reference(reference_name(target))),
        Some(_) => None,
        None => match json.member("enum"@) {
            Some(JsonModel::Array(values)) => match texts_of(values, values.len()) {
                Some(texts) => Some(SchemaModel::Enum(texts)),
                None => None,
            },
            Some(_) => None,
            None => match json.member("type"@) {
                Some(JsonModel::Text(kind)) => {
                    if scalar_of(kind) is Some {
                        Some(SchemaModel::Primitive(scalar_of(kind)->0))
                    } else if kind == "array"@ {
                        match json.member("items"@) {
                            Some(item) => {
                                proof {
                                    lemma_member_smaller(json, "items"@);
                                }
                                match schema_of(item) {
                                    Some(schema) => Some(SchemaModel::Array(Box::new(schema))),
                                    None => None,
                                }
                            },
                            None => None,
                        }
                    } else if kind == "object"@ {
                        match (required_of(json), json.member("properties"@)) {
                            (Some(required), None) => Some(SchemaModel::Object(Seq::empty())),
                            (Some(required), Some(JsonModel::Object(properties))) => {
                                proof {
                                    lemma_member_smaller(json, "properties"@);
                                    let found = json.member("properties"@)->0;
                                    assert(decreases_to!(found => found->Object_0));
                                }
                                match fields_of(properties, required, properties.len()) {
                                    Some(fields) => Some(SchemaModel::Object(fields)),
                                    None => None,
                                }
                            },
                            _ => None,
                        }
                    } else {
                        None
                    }
                },
                _ => None,
            },
        },
    }
}

/// The fields that the first `upto` of `properties` describe, each required
/// where `required` names it; `None` where one of them has no supported shape.
pub open spec fn fields_of(
    properties: Seq<(Seq<char>, JsonModel)>,
    required: Seq<Seq<char>>,
    upto: nat,
) -> Option<Seq<FieldModel>>
    decreases properties, upto,
{
    if upto == 0 || upto > properties.len() {
        Some(Seq::empty())
    } else {
        match (
            fields_of(properties, required, (upto - 1) as nat),
            schema_of(properties[upto - 1].1),
        ) {
            (Some(fields), Some(schema)) => Some(
                fields.push(
                    FieldModel {
                        name: properties[upto - 1].0,
                        schema,
                        required: required.contains(properties[upto - 1].0),
                    },
                ),
            ),
            _ => None,
        }
    }
}

/// Reads the definition's name out of the target of a `$ref`.
pub fn reference_target_name(target: &str) -> (name: String)
    ensures
        name@ == reference_name(target@),
{
    let len = target.unicode_len();
    let mut start = len;
    while start > 0 && target.get_char(start - 1) != '/'
        invariant
            start <= len,
            len == target@.len(),
            component_start(target@, len as nat) == component_start(target@, start as nat),
        decreases start,
    {
        start -= 1;
    }
    String::from_str(target.substring_char(start, len))
}

/// Reads the scalar that a `type` names.
pub fn scalar_named(kind: &str) -> (scalar: Option<Scalar>)
    ensures
        scalar == scalar_of(kind@),
{
    if same_text(kind, "string") {
        Some(Scalar::Text)
    } else if same_text(kind, "number") {
        Some(Scalar::Number)
    } else if same_text(kind, "integer") {
        Some(Scalar::Integer)
    } else if same_text(kind, "boolean") {
        Some(Scalar::Boolean)
    } else if same_text(kind, "null") {
        Some(Scalar::Null)
    } else {
        None
    }
}

/// Collects the texts of `values`, if each of them is a text.
pub fn texts_in(values: &Vec<Json>) -> (texts: Option<Vec<String>>)
    ensures
        texts.deep_view() == texts_of(values.deep_view(), values.len() as nat),
{
    let mut texts: Vec<String> = Vec::new();
    let mut i: usize = 0;
    assert(texts.deep_view() =~= Seq::empty());
    while i < values.len()
        invariant
            i <= values.len(),
            texts_of(values.deep_view(), i as nat) == Some(texts.deep_view()),
        decreases values.len() - i,
    {
        assert(values.deep_view()[i as int] == values[i as int].deep_view());
        match &values[i] {
            Json::Text(text) => {
                let ghost before = texts.deep_view();
                texts.push(text.clone());
                assert(texts.deep_view() =~= before.push(text@));
            },
            _ => {
                proof {
                    lemma_texts_of_stays_none(
                        values.deep_view(),
                        (i + 1) as nat,
                        values.len() as nat,
                    );
                }
                return None;
            },
        }
        i += 1;
    }
    Some(texts)
}

proof fn lemma_texts_of_stays_none(values: Seq<JsonModel>, failed: nat, upto: nat)
    requires
        texts_of(values, failed) is None,
        failed <= upto <= values.len(),
    ensures
        texts_of(values, upto) is None,
    decreases upto,
{
    if failed < upto {
        lemma_texts_of_stays_none(values, failed, (upto - 1) as nat);
    }
}

proof fn lemma_fields_of_stays_none(
    properties: Seq<(Seq<char>, JsonModel)>,
    required: Seq<Seq<char>>,
    failed: nat,
    upto: nat,
)
    requires
        fields_of(properties, required, failed) is None,
        failed <= upto <= properties.len(),
    ensures
        fields_of(properties, required, upto) is None,
    decreases upto,
{
    if failed < upto {
        lemma_fields_of_stays_none(properties, required, failed, (upto - 1) as nat);
    }
}

impl Schema {
    /// Reads the fragment `json` as a schema; `None` where it has none of the
    /// supported shapes.
    pub fn from_json(json: &Json) -> (schema: Option<Schema>)
        ensures
            schema.deep_view() == schema_of(json.deep_view()),
        decreases json, 0nat,
    {
        match json.get("$ref") {
            Some(Json::Text(target)) => {
                return Some(Schema::Reference(reference_target_name(target.as_str())));
            },
            Some(_) => {
                return None;
            },
            None => {},
        }
        match json.get("enum") {
            Some(Json::Array(values)) => {
                proof {
                    lemma_json_view(Json::Array(*values));
                }
                return match texts_in(values) {
                    Some(texts) => Some(Schema::Enum(texts)),
                    None => None,
                };
            },
            Some(_) => {
                return None;
            },
            None => {},
        }
        let kind = match json.get("type") {
            Some(Json::Text(kind)) => kind,
            _ => {
                return None;
            },
        };
        match scalar_named(kind.as_str()) {
            Some(scalar) => {
                return Some(Schema::Primitive(scalar));
            },
            None => {},
        }
        if same_text(kind.as_str(), "array") {
            match json.get("items") {
                Some(item) => match Schema::from_json(item) {
                    Some(schema) => Some(Schema::Array(Box::new(schema))),
                    None => None,
                },
                None => None,
            }
        } else if same_text(kind.as_str(), "object") {
            let required = match json.get("required") {
                None => {
                    let none: Vec<String> = Vec::new();
                    assert(none.deep_view() =~= Seq::<Seq<char>>::empty());
                    none
                },
                Some(Json::Array(values)) => {
                    proof {
                        lemma_json_view(Json::Array(*values));
                    }
                    match texts_in(values) {
                        Some(texts) => texts,
                        None => {
                            return None;
                        },
                    }
                },
                Some(_) => {
                    return None;
                },
            };
            assert(Some(required.deep_view()) == required_of(json.deep_view()));
            match json.get("properties") {
                None => {
                    let fields: Vec<FieldSchema> = Vec::new();
                    proof {
                        lemma_schema_view(Schema::Object(fields));
                        assert(fields.deep_view() =~= Seq::<FieldModel>::empty());
                    }
                    Some(Schema::Object(fields))
                },
                Some(Json::Object(properties)) => {
                    proof {
                        lemma_json_view(Json::Object(*properties));
                        let found = json.deep_view().member("properties"@)->0;
                        assert(found == JsonModel::Object(properties.deep_view()));
                    }
                    match fields_from_json(properties, &required) {
                        Some(fields) => {
                            proof {
                                lemma_schema_view(Schema::Object(fields));
                            }
                            Some(Schema::Object(fields))
                        },
                        None => None,
                    }
                },
                Some(_) => None,
            }
        } else {
            None
        }
    }
}

/// Reads each of `properties` as a field, required where `required` names it;
/// `None` where one of them has no supported shape.
pub fn fields_from_json(properties: &Vec<(String, Json)>, required: &Vec<String>) -> (fields:
    Option<Vec<FieldSchema>>)
    ensures
        fields.deep_view() == fields_of(
            properties.deep_view(),
            required.deep_view(),
            properties.len() as nat,
        ),
    decreases properties, 0nat,
{
    let mut fields: Vec<FieldSchema> = Vec::new();
    let mut i: usize = 0;
    assert(fields.deep_view() =~= Seq::empty());
    while i < properties.len()
        invariant
            i <= properties.len(),
            fields_of(properties.deep_view(), required.deep_view(), i as nat) == Some(
                fields.deep_view(),
            ),
        decreases properties.len() - i,
    {
        assert(properties.deep_view()[i as int] == (
            properties[i as int].0@,
            properties[i as int].1.deep_view(),
        ));
        proof {
            vstd::std_specs::vec::axiom_vec_index_decreases(*properties, i as int);
            assert(decreases_to!(*properties => properties[i as int]));
            assert(decreases_to!(properties[i as int] => properties[i as int].1));
        }
        match Schema::from_json(&properties[i].1) {
            Some(schema) => {
                let ghost before = fields.deep_view();
                let name = properties[i].0.clone();
                let is_required = holds_text(required, name.as_str());
                let field = FieldSchema { name, schema, required: is_required };
                fields.push(field);
                assert(fields.deep_view() =~= before.push(field.deep_view()));
            },
            None => {
                proof {
                    lemma_fields_of_stays_none(
                        properties.deep_view(),
                        required.deep_view(),
                        (i + 1) as nat,
                        properties.len() as nat,
                    );
                }
                return None;
            },
        }
        i += 1;
    }
    Some(fields)
}

} // verus!
