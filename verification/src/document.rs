//! The ABI document: a contract's functions and the type universe that their
//! signatures draw on, and how a JSON tree is read as one.
use crate::error::{DocumentPart, GenerateError, GenerateErrorModel, outcome_view};
use crate::json::{lemma_json_view, Json, JsonModel};
use crate::schema::{schema_of, Schema, SchemaModel};
use crate::text::same_text;
use vstd::prelude::*;

verus! {

/// How the type of a parameter or of a result is described.
#[derive(Debug, PartialEq, Eq)]
pub enum TypeRef {
    /// By a JSON schema, which the resolver can resolve.
    JsonSchema(Schema),
    /// By a schema of the Borsh binary encoding, kept as found. No bindings
    /// can be generated for it.
    BorshEncoded(Json),
}

/// One parameter of a function. A document that only knows the position of a
/// parameter leaves the name out.
#[derive(Debug, PartialEq, Eq)]
pub struct ParamSpec {
    pub name: Option<String>,
    pub ty: TypeRef,
}

/// One function of the contract.
#[derive(Debug, PartialEq, Eq)]
pub struct FunctionSpec {
    pub name: String,
    pub params: Vec<ParamSpec>,
    pub result: Option<TypeRef>,
}

/// One named schema of the type universe.
#[derive(Debug, PartialEq, Eq)]
pub struct Definition {
    pub name: String,
    pub schema: Schema,
}

/// What a document says of the contract itself.
#[derive(Debug, PartialEq, Eq)]
pub struct AbiMetadata {
    pub name: Option<String>,
}

/// A parsed ABI document. The order of `functions` is that of the document,
/// and the generated interface keeps it.
#[derive(Debug, PartialEq, Eq)]
pub struct AbiDocument {
    pub metadata: AbiMetadata,
    pub functions: Vec<FunctionSpec>,
    pub type_universe: Vec<Definition>,
}

/// The mathematical value of a [`TypeRef`].
pub enum TypeRefModel {
    JsonSchema(SchemaModel),
    BorshEncoded(JsonModel),
}

/// The mathematical value of a [`ParamSpec`].
pub struct ParamModel {
    pub name: Option<Seq<char>>,
    pub ty: TypeRefModel,
}

/// The mathematical value of a [`FunctionSpec`].
pub struct FunctionModel {
    pub name: Seq<char>,
    pub params: Seq<ParamModel>,
    pub result: Option<TypeRefModel>,
}

/// The mathematical value of a [`Definition`].
pub struct DefinitionModel {
    pub name: Seq<char>,
    pub schema: SchemaModel,
}

/// The mathematical value of an [`AbiDocument`].
pub struct AbiDocumentModel {
    pub name: Option<Seq<char>>,
    pub functions: Seq<FunctionModel>,
    pub type_universe: Seq<DefinitionModel>,
}

impl DeepView for TypeRef {
    type V = TypeRefModel;

    open spec fn deep_view(&self) -> TypeRefModel {
        match self {
            TypeRef::JsonSchema(schema) => TypeRefModel::JsonSchema(schema.deep_view()),
            TypeRef::BorshEncoded(fragment) => TypeRefModel::BorshEncoded(fragment.deep_view()),
        }
    }
}

impl DeepView for ParamSpec {
    type V = ParamModel;

    open spec fn deep_view(&self) -> ParamModel {
        ParamModel { name: self.name.deep_view(), ty: self.ty.deep_view() }
    }
}

impl DeepView for FunctionSpec {
    type V = FunctionModel;

    open spec fn deep_view(&self) -> FunctionModel {
        FunctionModel {
            name: self.name@,
            params: self.params.deep_view(),
            result: self.result.deep_view(),
        }
    }
}

impl DeepView for Definition {
    type V = DefinitionModel;

    open spec fn deep_view(&self) -> DefinitionModel {
        DefinitionModel { name: self.name@, schema: self.schema.deep_view() }
    }
}

impl DeepView for AbiDocument {
    type V = AbiDocumentModel;

    open spec fn deep_view(&self) -> AbiDocumentModel {
        AbiDocumentModel {
            name: self.metadata.name.deep_view(),
            functions: self.functions.deep_view(),
            type_universe: self.type_universe.deep_view(),
        }
    }
}

/// What an optional text holds: nothing where the key is absent or null, the
/// text where it is one; `None` where it is anything else.
pub open spec fn optional_text(found: Option<JsonModel>) -> Option<Option<Seq<char>>> {
    match found {
        None => Some(None),
        Some(JsonModel::Null) => Some(None),
        Some(JsonModel::Text(text)) => Some(Some(text)),
        Some(_) => None,
    }
}

/// The type that `json` describes by its `type_schema` and `encoding`, for the
/// parameter or result at `part`.
pub open spec fn type_ref_of(json: JsonModel, part: DocumentPart) -> Result<
    TypeRefModel,
    GenerateErrorModel,
> {
    match (json.member("type_schema"@), json.member("encoding"@)) {
        (Some(fragment), Some(JsonModel::Text(encoding))) => {
            if encoding == "json"@ {
                match schema_of(fragment) {
                    Some(schema) => Ok(TypeRefModel::JsonSchema(schema)),
                    None => Err(GenerateErrorModel::InvalidSchemaShape(part)),
                }
            } else if encoding == "borsh"@ {
                Ok(TypeRefModel::BorshEncoded(fragment))
            } else {
                Err(GenerateErrorModel::MalformedDocument(part))
            }
        },
        _ => Err(GenerateErrorModel::MalformedDocument(part)),
    }
}

/// The parameter that `json` describes, as parameter `index` of function
/// `function`.
pub open spec fn param_of(json: JsonModel, function: usize, index: usize) -> Result<
    ParamModel,
    GenerateErrorModel,
> {
    let part = DocumentPart::Parameter(function, index);
    match optional_text(json.member("name"@)) {
        None => Err(GenerateErrorModel::MalformedDocument(part)),
        Some(name) => match type_ref_of(json, part) {
            Err(error) => Err(error),
            Ok(ty) => Ok(ParamModel { name, ty }),
        },
    }
}

/// The parameters that the first `upto` of `items` describe, or the failure
/// of the first of them that has one.
pub open spec fn params_of(items: Seq<JsonModel>, function: usize, upto: nat) -> Result<
    Seq<ParamModel>,
    GenerateErrorModel,
>
    decreases upto,
{
    if upto == 0 || upto > items.len() {
        Ok(Seq::empty())
    } else {
        match params_of(items, function, (upto - 1) as nat) {
            Err(error) => Err(error),
            Ok(params) => match param_of(items[upto - 1], function, (upto - 1) as usize) {
                Err(error) => Err(error),
                Ok(param) => Ok(params.push(param)),
            },
        }
    }
}

/// The result that a function's `result` describes: none where the key is
/// absent or null.
pub open spec fn result_of(found: Option<JsonModel>, function: usize) -> Result<
    Option<TypeRefModel>,
    GenerateErrorModel,
> {
    match found {
        None => Ok(None),
        Some(JsonModel::Null) => Ok(None),
        Some(json) => match type_ref_of(json, DocumentPart::Result(function)) {
            Err(error) => Err(error),
            Ok(ty) => Ok(Some(ty)),
        },
    }
}

/// The function that `json` describes, as function `index`: its name, then
/// its parameters in order, then its result.
pub open spec fn function_of(json: JsonModel, index: usize) -> Result<
    FunctionModel,
    GenerateErrorModel,
> {
    match (json.member("name"@), json.member("params"@)) {
        (Some(JsonModel::Text(name)), Some(JsonModel::Array(items))) => match params_of(
            items,
            index,
            items.len(),
        ) {
            Err(error) => Err(error),
            Ok(params) => match result_of(json.member("result"@), index) {
                Err(error) => Err(error),
                Ok(result) => Ok(FunctionModel { name, params, result }),
            },
        },
        _ => Err(GenerateErrorModel::MalformedDocument(DocumentPart::Function(index))),
    }
}

/// The functions that the first `upto` of `items` describe, or the failure of
/// the first of them that has one.
pub open spec fn functions_of(items: Seq<JsonModel>, upto: nat) -> Result<
    Seq<FunctionModel>,
    GenerateErrorModel,
>
    decreases upto,
{
    if upto == 0 || upto > items.len() {
        Ok(Seq::empty())
    } else {
        match functions_of(items, (upto - 1) as nat) {
            Err(error) => Err(error),
            Ok(functions) => match function_of(items[upto - 1], (upto - 1) as usize) {
                Err(error) => Err(error),
                Ok(function) => Ok(functions.push(function)),
            },
        }
    }
}

/// The definitions that the first `upto` of `members` describe, each under its
/// member's name, or the failure of the first that has no supported shape.
pub open spec fn definitions_of(members: Seq<(Seq<char>, JsonModel)>, upto: nat) -> Result<
    Seq<DefinitionModel>,
    GenerateErrorModel,
>
    decreases upto,
{
    if upto == 0 || upto > members.len() {
        Ok(Seq::empty())
    } else {
        match definitions_of(members, (upto - 1) as nat) {
            Err(error) => Err(error),
            Ok(definitions) => match schema_of(members[upto - 1].1) {
                None => Err(
                    GenerateErrorModel::InvalidSchemaShape(
                        DocumentPart::Definition((upto - 1) as usize),
                    ),
                ),
                Some(schema) => Ok(
                    definitions.push(DefinitionModel { name: members[upto - 1].0, schema }),
                ),
            },
        }
    }
}

/// The contract name that a document's `metadata` carries; `None` where the
/// section is missing or misshapen.
pub open spec fn metadata_name_of(json: JsonModel) -> Option<Option<Seq<char>>> {
    match json.member("metadata"@) {
        Some(JsonModel::Object(members)) => optional_text(
            JsonModel::Object(members).member("name"@),
        ),
        _ => None,
    }
}

/// The document that `json` describes, or why it describes none.
///
/// A document is an object with two sections:
/// - `metadata`, an object; its `name`, if it has one, is the contract name;
/// - `body`, an object with `functions`, an array, and `root_schema`, an
///   object that holds the schema of each definition under its name.
///
/// A function is an object with a `name`, an array `params` and, if it
/// returns anything, a `result`. A parameter may have a `name`. A parameter
/// and a result have a `type_schema` and an `encoding`, `json` or `borsh`.
///
/// The sections are read in this order, and the first failure is the
/// outcome: `metadata`, `body`, the type universe under `root_schema` with
/// its definitions in order, then `functions` in order.
pub open spec fn document_of(json: JsonModel) -> Result<AbiDocumentModel, GenerateErrorModel> {
    match metadata_name_of(json) {
        None => Err(GenerateErrorModel::MalformedDocument(DocumentPart::Metadata)),
        Some(name) => match json.member("body"@) {
            Some(JsonModel::Object(body_members)) => {
                let body = JsonModel::Object(body_members);
                match body.member("root_schema"@) {
                    Some(JsonModel::Object(members)) => match definitions_of(
                        members,
                        members.len(),
                    ) {
                        Err(error) => Err(error),
                        Ok(type_universe) => match body.member("functions"@) {
                            Some(JsonModel::Array(items)) => match functions_of(
                                items,
                                items.len(),
                            ) {
                                Err(error) => Err(error),
                                Ok(functions) => Ok(
                                    AbiDocumentModel { name, functions, type_universe },
                                ),
                            },
                            _ => Err(
                                GenerateErrorModel::MalformedDocument(DocumentPart::Functions),
                            ),
                        },
                    },
                    _ => Err(GenerateErrorModel::MalformedDocument(DocumentPart::TypeUniverse)),
                }
            },
            _ => Err(GenerateErrorModel::MalformedDocument(DocumentPart::Body)),
        },
    }
}

proof fn lemma_params_of_stays(items: Seq<JsonModel>, function: usize, failed: nat, upto: nat)
    requires
        params_of(items, function, failed) is Err,
        failed <= upto <= items.len(),
    ensures
        params_of(items, function, upto) == params_of(items, function, failed),
    decreases upto,
{
    if failed < upto {
        lemma_params_of_stays(items, function, failed, (upto - 1) as nat);
    }
}

proof fn lemma_functions_of_stays(items: Seq<JsonModel>, failed: nat, upto: nat)
    requires
        functions_of(items, failed) is Err,
        failed <= upto <= items.len(),
    ensures
        functions_of(items, upto) == functions_of(items, failed),
    decreases upto,
{
    if failed < upto {
        lemma_functions_of_stays(items, failed, (upto - 1) as nat);
    }
}

proof fn lemma_definitions_of_stays(members: Seq<(Seq<char>, JsonModel)>, failed: nat, upto: nat)
    requires
        definitions_of(members, failed) is Err,
        failed <= upto <= members.len(),
    ensures
        definitions_of(members, upto) == definitions_of(members, failed),
    decreases upto,
{
    if failed < upto {
        lemma_definitions_of_stays(members, failed, (upto - 1) as nat);
    }
}

/// Reads an optional text: nothing where the key is absent or null.
pub fn read_optional_text(found: Option<&Json>) -> (text: Option<Option<String>>)
    ensures
        text.deep_view() == optional_text(found.deep_view()),
{
    match found {
        None => Some(None),
        Some(Json::Null) => Some(None),
        Some(Json::Text(text)) => Some(Some(text.clone())),
        Some(_) => None,
    }
}

/// Reads the type that `json` describes by its `type_schema` and `encoding`.
pub fn read_type_ref(json: &Json, part: DocumentPart) -> (outcome: Result<TypeRef, GenerateError>)
    ensures
        outcome_view(outcome) == type_ref_of(json.deep_view(), part),
{
    let fragment = match json.get("type_schema") {
        Some(fragment) => fragment,
        None => {
            return Err(GenerateError::MalformedDocument(part));
        },
    };
    let encoding = match json.get("encoding") {
        Some(Json::Text(encoding)) => encoding,
        _ => {
            return Err(GenerateError::MalformedDocument(part));
        },
    };
    if same_text(encoding.as_str(), "json") {
        match Schema::from_json(fragment) {
            Some(schema) => Ok(TypeRef::JsonSchema(schema)),
            None => Err(GenerateError::InvalidSchemaShape(part)),
        }
    } else if same_text(encoding.as_str(), "borsh") {
        Ok(TypeRef::BorshEncoded(fragment.duplicate()))
    } else {
        Err(GenerateError::MalformedDocument(part))
    }
}

/// Reads one parameter of a function.
pub fn read_param(json: &Json, function: usize, index: usize) -> (outcome: Result<
    ParamSpec,
    GenerateError,
>)
    ensures
        outcome_view(outcome) == param_of(json.deep_view(), function, index),
{
    let part = DocumentPart::Parameter(function, index);
    match read_optional_text(json.get("name")) {
        None => Err(GenerateError::MalformedDocument(part)),
        Some(name) => match read_type_ref(json, part) {
            Err(error) => Err(error),
            Ok(ty) => Ok(ParamSpec { name, ty }),
        },
    }
}

/// Reads the parameters of a function, in order.
pub fn read_params(items: &Vec<Json>, function: usize) -> (outcome: Result<
    Vec<ParamSpec>,
    GenerateError,
>)
    ensures
        outcome_view(outcome) == params_of(items.deep_view(), function, items.len() as nat),
{
    let mut params: Vec<ParamSpec> = Vec::new();
    let mut i: usize = 0;
    assert(params.deep_view() =~= Seq::empty());
    while i < items.len()
        invariant
            i <= items.len(),
            params_of(items.deep_view(), function, i as nat) == Ok::<_, GenerateErrorModel>(
                params.deep_view(),
            ),
        decreases items.len() - i,
    {
        assert(items.deep_view()[i as int] == items[i as int].deep_view());
        match read_param(&items[i], function, i) {
            Err(error) => {
                proof {
                    lemma_params_of_stays(
                        items.deep_view(),
                        function,
                        (i + 1) as nat,
                        items.len() as nat,
                    );
                }
                return Err(error);
            },
            Ok(param) => {
                let ghost before = params.deep_view();
                params.push(param);
                assert(params.deep_view() =~= before.push(param.deep_view()));
            },
        }
        i += 1;
    }
    Ok(params)
}

/// Reads the result of a function: none where the key is absent or null.
pub fn read_result(found: Option<&Json>, function: usize) -> (outcome: Result<
    Option<TypeRef>,
    GenerateError,
>)
    ensures
        outcome_view(outcome) == result_of(found.deep_view(), function),
{
    match found {
        None => Ok(None),
        Some(Json::Null) => Ok(None),
        Some(json) => match read_type_ref(json, DocumentPart::Result(function)) {
            Err(error) => Err(error),
            Ok(ty) => Ok(Some(ty)),
        },
    }
}

/// Reads one function: its name, then its parameters, then its result.
pub fn read_function(json: &Json, index: usize) -> (outcome: Result<FunctionSpec, GenerateError>)
    ensures
        outcome_view(outcome) == function_of(json.deep_view(), index),
{
    let name = match json.get("name") {
        Some(Json::Text(name)) => name,
        _ => {
            return Err(GenerateError::MalformedDocument(DocumentPart::Function(index)));
        },
    };
    let items = match json.get("params") {
        Some(Json::Array(items)) => {
            proof {
                lemma_json_view(Json::Array(*items));
            }
            items
        },
        _ => {
            return Err(GenerateError::MalformedDocument(DocumentPart::Function(index)));
        },
    };
    match read_params(items, index) {
        Err(error) => Err(error),
        Ok(params) => match read_result(json.get("result"), index) {
            Err(error) => Err(error),
            Ok(result) => Ok(FunctionSpec { name: name.clone(), params, result }),
        },
    }
}

/// Reads the functions of a document, in order.
pub fn read_functions(items: &Vec<Json>) -> (outcome: Result<Vec<FunctionSpec>, GenerateError>)
    ensures
        outcome_view(outcome) == functions_of(items.deep_view(), items.len() as nat),
{
    let mut functions: Vec<FunctionSpec> = Vec::new();
    let mut i: usize = 0;
    assert(functions.deep_view() =~= Seq::empty());
    while i < items.len()
        invariant
            i <= items.len(),
            functions_of(items.deep_view(), i as nat) == Ok::<_, GenerateErrorModel>(
                functions.deep_view(),
            ),
        decreases items.len() - i,
    {
        assert(items.deep_view()[i as int] == items[i as int].deep_view());
        match read_function(&items[i], i) {
            Err(error) => {
                proof {
                    lemma_functions_of_stays(items.deep_view(), (i + 1) as nat, items.len() as nat);
                }
                return Err(error);
            },
            Ok(function) => {
                let ghost before = functions.deep_view();
                functions.push(function);
                assert(functions.deep_view() =~= before.push(function.deep_view()));
            },
        }
        i += 1;
    }
    Ok(functions)
}

/// Reads the definitions of the type universe, in order.
pub fn read_definitions(members: &Vec<(String, Json)>) -> (outcome: Result<
    Vec<Definition>,
    GenerateError,
>)
    ensures
        outcome_view(outcome) == definitions_of(members.deep_view(), members.len() as nat),
{
    let mut definitions: Vec<Definition> = Vec::new();
    let mut i: usize = 0;
    assert(definitions.deep_view() =~= Seq::empty());
    while i < members.len()
        invariant
            i <= members.len(),
            definitions_of(members.deep_view(), i as nat) == Ok::<_, GenerateErrorModel>(
                definitions.deep_view(),
            ),
        decreases members.len() - i,
    {
        assert(members.deep_view()[i as int] == (
            members[i as int].0@,
            members[i as int].1.deep_view(),
        ));
        match Schema::from_json(&members[i].1) {
            None => {
                proof {
                    lemma_definitions_of_stays(
                        members.deep_view(),
                        (i + 1) as nat,
                        members.len() as nat,
                    );
                }
                return Err(GenerateError::InvalidSchemaShape(DocumentPart::Definition(i)));
            },
            Some(schema) => {
                let ghost before = definitions.deep_view();
                let definition = Definition { name: members[i].0.clone(), schema };
                definitions.push(definition);
                assert(definitions.deep_view() =~= before.push(definition.deep_view()));
            },
        }
        i += 1;
    }
    Ok(definitions)
}

/// Reads an ABI document from its JSON tree.
///
/// Nothing is recovered from a document that fails anywhere: the outcome is
/// the whole document or the first failure.
pub fn read_abi(json: &Json) -> (outcome: Result<AbiDocument, GenerateError>)
    ensures
        outcome_view(outcome) == document_of(json.deep_view()),
{
    let name = match json.get("metadata") {
        Some(Json::Object(members)) => {
            let metadata = json.get("metadata").unwrap();
            match read_optional_text(metadata.get("name")) {
                Some(name) => name,
                None => {
                    return Err(GenerateError::MalformedDocument(DocumentPart::Metadata));
                },
            }
        },
        _ => {
            return Err(GenerateError::MalformedDocument(DocumentPart::Metadata));
        },
    };
    let body = match json.get("body") {
        Some(Json::Object(_)) => json.get("body").unwrap(),
        _ => {
            return Err(GenerateError::MalformedDocument(DocumentPart::Body));
        },
    };
    let members = match body.get("root_schema") {
        Some(Json::Object(members)) => {
            proof {
                lemma_json_view(Json::Object(*members));
            }
            members
        },
        _ => {
            return Err(GenerateError::MalformedDocument(DocumentPart::TypeUniverse));
        },
    };
    let type_universe = match read_definitions(members) {
        Err(error) => {
            return Err(error);
        },
        Ok(type_universe) => type_universe,
    };
    let items = match body.get("functions") {
        Some(Json::Array(items)) => {
            proof {
                lemma_json_view(Json::Array(*items));
            }
            items
        },
        _ => {
            return Err(GenerateError::MalformedDocument(DocumentPart::Functions));
        },
    };
    match read_functions(items) {
        Err(error) => Err(error),
        Ok(functions) => Ok(
            AbiDocument { metadata: AbiMetadata { name }, functions, type_universe },
        ),
    }
}

} // verus!
