//! What holds of every generation: the laws of the resolver and of the
//! generated unit, stated over the definitions of the other modules.
use crate::document::{AbiDocumentModel, DefinitionModel, FunctionModel, TypeRefModel};
use crate::error::{outcome_view, DocumentPart, GenerateError, GenerateErrorModel};
use crate::interface::{
    interface_name_of, mirrors, prefixed, unsupported_from, upper_camel, uses_borsh, MethodModel,
};
use crate::lemmas::{
    lemma_chain_descends, lemma_declared_off_cycle, lemma_emit_methods_facts,
    lemma_emit_methods_failures, lemma_emit_methods_find_definitions,
    lemma_emit_methods_grounded, lemma_methods_call_site, lemma_resolve_failures,
    lemma_resolve_finds_definitions, lemma_resolve_grounded, lemma_unsupported_from,
    lemma_unsupported_from_some,
};
use crate::resolver::{
    body_declared, declares_definition, defines, definition_from, lemma_definition_from_defines,
    resolve,
};
use crate::schema::{FieldModel, SchemaModel};
use crate::text::numbered;
use crate::types::{GeneratedTypeModel, TypeReferenceModel};
use crate::unit::{bindings_of, follows, generated, uses_borsh_anywhere, OutputUnit};
use vstd::prelude::*;

verus! {

/// What a use of a type in the signature of function `function` is resolved
/// from: the type of parameter `parameter`, or that of the result where
/// `parameter` is none.
pub open spec fn call_site(functions: Seq<FunctionModel>, function: int, parameter: Option<int>)
    -> Option<TypeRefModel> {
    if 0 <= function < functions.len() {
        match parameter {
            Some(position) => if 0 <= position < functions[function].params.len() {
                Some(functions[function].params[position].ty)
            } else {
                None
            },
            None => functions[function].result,
        }
    } else {
        None
    }
}

/// The type that the generated methods declare at the same place.
pub open spec fn emitted_at(methods: Seq<MethodModel>, function: int, parameter: Option<int>)
    -> Option<TypeReferenceModel> {
    if 0 <= function < methods.len() {
        match parameter {
            Some(position) => if 0 <= position < methods[function].params.len() {
                Some(methods[function].params[position].ty)
            } else {
                None
            },
            None => methods[function].result,
        }
    } else {
        None
    }
}

/// Whether `schema` holds a reference to the definition named `name`, at any
/// depth.
pub open spec fn mentions(schema: SchemaModel, name: Seq<char>) -> bool
    decreases schema, 0nat,
{
    match schema {
        SchemaModel::Primitive(_) => false,
        SchemaModel::Enum(_) => false,
        SchemaModel::Reference(target) => target == name,
        SchemaModel::Array(item) => mentions(*item, name),
        SchemaModel::Object(fields) => fields_mention(fields, name, fields.len()),
    }
}

/// Whether one of the first `upto` of `fields` holds a reference to the
/// definition named `name`, at any depth.
pub open spec fn fields_mention(fields: Seq<FieldModel>, name: Seq<char>, upto: nat) -> bool
    decreases fields, upto,
{
    if upto == 0 || upto > fields.len() {
        false
    } else {
        fields_mention(fields, name, (upto - 1) as nat) || mentions(fields[upto - 1].schema, name)
    }
}

/// Whether the definition named `from` refers to the one named `to`.
pub open spec fn refers(universe: Seq<DefinitionModel>, from: Seq<char>, to: Seq<char>) -> bool {
    definition_from(universe, from, 0) matches Some(schema) && mentions(schema, to)
}

/// Whether each definition of `chain` refers to the next.
pub open spec fn is_chain(universe: Seq<DefinitionModel>, chain: Seq<Seq<char>>) -> bool {
    forall|i: int| 0 <= i < chain.len() - 1 ==> refers(universe, #[trigger] chain[i], chain[i + 1])
}

/// Whether the definition named `name` refers to itself, directly or through
/// other definitions.
pub open spec fn on_cycle(universe: Seq<DefinitionModel>, name: Seq<char>) -> bool {
    exists|chain: Seq<Seq<char>>|
        #![auto]
        chain.len() >= 2 && is_chain(universe, chain) && chain.first() == name && chain.last()
            == name
}

/// Whether the type at `position` stems from a definition whose references
/// were all declared before it: the universe holds the definition that it
/// is named after, and the type of every definition that this one holds a
/// reference to stands before `position`.
pub open spec fn stems(
    universe: Seq<DefinitionModel>,
    types: Seq<GeneratedTypeModel>,
    position: int,
) -> bool {
    definition_from(universe, types[position].name, 0) matches Some(schema) && forall|
        name: Seq<char>,
    | #[trigger]
        mentions(schema, name) ==> declares_definition(types.take(position), name)
}

/// Whether every type of a definition in `types` stems from a definition
/// whose references were all declared before it. The empty registry is
/// grounded, and resolving keeps a registry grounded.
pub open spec fn grounded(universe: Seq<DefinitionModel>, types: Seq<GeneratedTypeModel>) -> bool {
    forall|i: int|
        0 <= i < types.len() && !(#[trigger] types[i]).anonymous ==> stems(universe, types, i)
}

/// Whether every reference in the universe names a definition of the
/// universe.
pub open spec fn closed(universe: Seq<DefinitionModel>) -> bool {
    forall|i: int, name: Seq<char>|
        0 <= i < universe.len() && #[trigger] mentions((#[trigger] universe[i]).schema, name)
            ==> defines(universe, name)
}

/// Whether every reference in `schema` names a definition of the universe.
pub open spec fn refers_within(universe: Seq<DefinitionModel>, schema: SchemaModel) -> bool {
    forall|name: Seq<char>| #[trigger] mentions(schema, name) ==> defines(universe, name)
}

/// Whether `schema` leads to the last definition of `chain`: it holds a
/// reference to the first, and each refers to the next.
pub open spec fn leads_along(
    universe: Seq<DefinitionModel>,
    schema: SchemaModel,
    chain: Seq<Seq<char>>,
) -> bool {
    chain.len() >= 1 && mentions(schema, chain.first()) && is_chain(universe, chain)
}

/// Whether every reference in the signature of `function` names a
/// definition of the universe.
pub open spec fn signature_refers_within(universe: Seq<DefinitionModel>, function: FunctionModel)
    -> bool {
    &&& forall|j: int|
        0 <= j < function.params.len() && (#[trigger] function.params[j]).ty is JsonSchema
            ==> refers_within(universe, function.params[j].ty->JsonSchema_0)
    &&& function.result matches Some(TypeRefModel::JsonSchema(schema)) ==> refers_within(
        universe,
        schema,
    )
}

/// Whether every reference in `document`, in its type universe and in the
/// signatures of its functions, names a definition of the type universe.
pub open spec fn refers_within_itself(document: AbiDocumentModel) -> bool {
    &&& closed(document.type_universe)
    &&& forall|i: int|
        0 <= i < document.functions.len() ==> signature_refers_within(
            document.type_universe,
            #[trigger] document.functions[i],
        )
}

/// Whether `error` is a failure that resolving at `part` can end in: a cycle
/// through a definition that refers to itself, or a reference, at `part`, to
/// a definition that the universe does not hold.
pub open spec fn is_resolution_failure(
    universe: Seq<DefinitionModel>,
    part: DocumentPart,
    error: GenerateErrorModel,
) -> bool {
    match error {
        GenerateErrorModel::CyclicSchema { definition } => on_cycle(universe, definition),
        GenerateErrorModel::InvalidSchemaShape(place) => place == part,
        _ => false,
    }
}

/// Whether `error` is a failure that generating from a document with the
/// type universe `universe` can end in, short of a use of the Borsh encoding:
/// a cycle through a definition that refers to itself, or a reference to a
/// definition that the universe does not hold, reported at the parameter or
/// at the result where it was met.
pub open spec fn is_signature_failure(universe: Seq<DefinitionModel>, error: GenerateErrorModel)
    -> bool {
    match error {
        GenerateErrorModel::CyclicSchema { definition } => on_cycle(universe, definition),
        GenerateErrorModel::InvalidSchemaShape(place) => place is Parameter || place is Result,
        _ => false,
    }
}

/// Generation is a function of its input: two outcomes of generating from one
/// document under one name are the same, declaration for declaration and
/// name for name.
pub proof fn law_generation_is_deterministic(
    document: AbiDocumentModel,
    contract_name: Seq<char>,
    mod_name: Option<Seq<char>>,
    first: Result<OutputUnit, GenerateError>,
    second: Result<OutputUnit, GenerateError>,
)
    requires
        outcome_view(first) == generated(document, contract_name, mod_name),
        outcome_view(second) == generated(document, contract_name, mod_name),
    ensures
        outcome_view(first) == outcome_view(second),
        first is Ok <==> second is Ok,
{
}

/// What is generated follows the document: the types form a well-formed
/// registry, and the interface bears the name it was generated under and has
/// one method for each function, in the document's order.
pub proof fn law_unit_follows_document(
    document: AbiDocumentModel,
    contract_name: Seq<char>,
    mod_name: Option<Seq<char>>,
)
    ensures
        generated(document, contract_name, mod_name) matches Ok(unit) ==> {
            &&& follows(document, unit)
            &&& unit.interface.name == contract_name
            &&& unit.interface.module == mod_name
        },
{
    lemma_emit_methods_facts(
        document.type_universe,
        Seq::empty(),
        document.functions,
        document.functions.len(),
    );
}

/// One declaration for each type: in what is generated no two declarations
/// bear the same name, and none has the identity key of another.
pub proof fn law_declarations_are_unique(
    document: AbiDocumentModel,
    contract_name: Seq<char>,
    mod_name: Option<Seq<char>>,
    first: int,
    second: int,
)
    requires
        generated(document, contract_name, mod_name) is Ok,
        0 <= first < second < generated(document, contract_name, mod_name)->Ok_0.types.len(),
    ensures
        ({
            let types = generated(document, contract_name, mod_name)->Ok_0.types;
            &&& types[first].name != types[second].name
            &&& types[first].identity_key() != types[second].identity_key()
        }),
{
    law_unit_follows_document(document, contract_name, mod_name);
}

/// Declaration before use: a generated type names only types that are
/// declared before it.
pub proof fn law_types_are_declared_before_use(
    document: AbiDocumentModel,
    contract_name: Seq<char>,
    mod_name: Option<Seq<char>>,
    position: int,
)
    requires
        generated(document, contract_name, mod_name) is Ok,
        0 <= position < generated(document, contract_name, mod_name)->Ok_0.types.len(),
    ensures
        ({
            let types = generated(document, contract_name, mod_name)->Ok_0.types;
            body_declared(types.take(position), types[position].body)
        }),
{
    law_unit_follows_document(document, contract_name, mod_name);
}

/// A schema is declared once: the type declared at a call site is what the
/// schema of that place resolves to against the generated types, and
/// resolving it there appends no declaration. So a schema that several
/// functions use is declared once, however often it is used.
pub proof fn law_call_sites_resolve_to_declared_types(
    document: AbiDocumentModel,
    contract_name: Seq<char>,
    mod_name: Option<Seq<char>>,
    function: int,
    parameter: Option<int>,
    part: DocumentPart,
)
    requires
        generated(document, contract_name, mod_name) is Ok,
        call_site(document.functions, function, parameter) is Some,
    ensures
        ({
            let unit = generated(document, contract_name, mod_name)->Ok_0;
            &&& call_site(document.functions, function, parameter) matches Some(
                TypeRefModel::JsonSchema(schema),
            )
            &&& emitted_at(unit.interface.methods, function, parameter) matches Some(reference)
            &&& resolve(document.type_universe, unit.types, Seq::empty(), part, schema) == Ok::<
                _,
                GenerateErrorModel,
            >((unit.types, reference))
        }),
{
    let unit = generated(document, contract_name, mod_name)->Ok_0;
    lemma_emit_methods_facts(
        document.type_universe,
        Seq::empty(),
        document.functions,
        document.functions.len(),
    );
    lemma_methods_call_site(
        document.type_universe,
        Seq::empty(),
        document.functions,
        document.functions.len(),
        function,
        parameter,
        unit.types,
        Seq::empty(),
        part,
    );
    law_unit_follows_document(document, contract_name, mod_name);
    assert(mirrors(document.functions[function], unit.interface.methods[function]));
}

/// Two call sites with the same schema are declared with the same type.
pub proof fn law_same_schema_same_type(
    document: AbiDocumentModel,
    contract_name: Seq<char>,
    mod_name: Option<Seq<char>>,
    first_function: int,
    first_parameter: Option<int>,
    second_function: int,
    second_parameter: Option<int>,
)
    requires
        generated(document, contract_name, mod_name) is Ok,
        call_site(document.functions, first_function, first_parameter) is Some,
        call_site(document.functions, first_function, first_parameter) == call_site(
            document.functions,
            second_function,
            second_parameter,
        ),
    ensures
        ({
            let methods = generated(document, contract_name, mod_name)->Ok_0.interface.methods;
            emitted_at(methods, first_function, first_parameter) == emitted_at(
                methods,
                second_function,
                second_parameter,
            )
        }),
{
    law_call_sites_resolve_to_declared_types(
        document,
        contract_name,
        mod_name,
        first_function,
        first_parameter,
        DocumentPart::Source,
    );
    law_call_sites_resolve_to_declared_types(
        document,
        contract_name,
        mod_name,
        second_function,
        second_parameter,
        DocumentPart::Source,
    );
}

/// The interface keeps the document's order: its methods appear in the
/// order of the document's functions and bear their names, whatever order
/// the types were resolved in.
pub proof fn law_methods_follow_functions(
    document: AbiDocumentModel,
    contract_name: Seq<char>,
    mod_name: Option<Seq<char>>,
    function: int,
)
    requires
        generated(document, contract_name, mod_name) is Ok,
        0 <= function < document.functions.len(),
    ensures
        ({
            let methods = generated(document, contract_name, mod_name)->Ok_0.interface.methods;
            &&& methods.len() == document.functions.len()
            &&& methods[function].name == document.functions[function].name
            &&& mirrors(document.functions[function], methods[function])
        }),
{
    law_unit_follows_document(document, contract_name, mod_name);
}

/// Every parameter has a name: in what is generated, a parameter that the
/// document does not name is called `arg` and its position, counted from 0,
/// and one that it names keeps its name.
pub proof fn law_parameters_are_named(
    document: AbiDocumentModel,
    contract_name: Seq<char>,
    mod_name: Option<Seq<char>>,
    function: int,
    parameter: int,
)
    requires
        generated(document, contract_name, mod_name) is Ok,
        0 <= function < document.functions.len(),
        0 <= parameter < document.functions[function].params.len(),
    ensures
        ({
            let unit = generated(document, contract_name, mod_name)->Ok_0;
            let method = unit.interface.methods[function];
            let name = document.functions[function].params[parameter].name;
            &&& method.params.len() == document.functions[function].params.len()
            &&& name is Some ==> method.params[parameter].name == name->0
            &&& name is None ==> method.params[parameter].name == numbered(
                "arg"@,
                parameter as nat,
            )
        }),
{
    law_unit_follows_document(document, contract_name, mod_name);
    let method = generated(document, contract_name, mod_name)->Ok_0.interface.methods[function];
    assert(mirrors(document.functions[function], method));
}

/// Borsh is refused: a document in which any function uses the Borsh
/// encoding, in a parameter or in its result, generates nothing. The failure
/// is `UnsupportedEncoding` and names a function that does so: the first in
/// the document's order.
pub proof fn law_borsh_is_rejected(
    document: AbiDocumentModel,
    contract_name: Seq<char>,
    mod_name: Option<Seq<char>>,
    explicit_name: Option<Seq<char>>,
    function: int,
)
    requires
        0 <= function < document.functions.len(),
        uses_borsh(document.functions[function]),
    ensures
        generated(document, contract_name, mod_name) matches Err(error) && error
            is UnsupportedEncoding && exists|k: int|
            0 <= k <= function && uses_borsh(#[trigger] document.functions[k])
                && document.functions[k].name == error->UnsupportedEncoding_function,
        bindings_of(document, explicit_name) == generated(document, contract_name, mod_name),
{
    lemma_unsupported_from(document.functions, 0, function);
}

/// The caller's name goes first: a name that the caller supplies is the name of
/// the interface, whatever the document carries; without one the name is the
/// prefix `Ext` and the contract name in upper camel case; with neither there
/// is no name.
pub proof fn law_name_priority(explicit: Option<Seq<char>>, contract: Option<Seq<char>>)
    ensures
        explicit is Some ==> interface_name_of(explicit, contract) == explicit,
        explicit is None && contract is Some ==> interface_name_of(explicit, contract) == Some(
            prefixed(upper_camel(contract->0)),
        ),
        interface_name_of(explicit, contract) is None <==> explicit is None && contract is None,
{
}

/// The failures of the resolver: resolving a schema of the document, with no
/// definition being resolved, fails only for a cycle through a definition
/// that refers to itself, directly or through others, or for a reference to
/// a definition that the universe does not hold, which is reported at the
/// part where the schema stands.
pub proof fn law_resolution_failures(
    universe: Seq<DefinitionModel>,
    types: Seq<GeneratedTypeModel>,
    part: DocumentPart,
    schema: SchemaModel,
)
    ensures
        resolve(universe, types, Seq::empty(), part, schema) matches Err(error)
            ==> is_resolution_failure(universe, part, error),
{
    lemma_resolve_failures(universe, types, Seq::empty(), part, schema);
}

/// The failures of a generation: it fails with `UnsupportedEncoding` exactly
/// if a function of the document uses the Borsh encoding; else it fails only
/// for a cycle through a definition that refers to itself, or for a
/// reference to a definition that the type universe does not hold, reported
/// at the parameter or at the result where it was met.
pub proof fn law_generation_failures(
    document: AbiDocumentModel,
    contract_name: Seq<char>,
    mod_name: Option<Seq<char>>,
)
    ensures
        generated(document, contract_name, mod_name) matches Err(error) ==> {
            &&& error is UnsupportedEncoding <==> uses_borsh_anywhere(document)
            &&& !(error is UnsupportedEncoding) ==> is_signature_failure(
                document.type_universe,
                error,
            )
        },
{
    if uses_borsh_anywhere(document) {
        let function = choose|i: int|
            0 <= i < document.functions.len() && uses_borsh(#[trigger] document.functions[i]);
        law_borsh_is_rejected(document, contract_name, mod_name, None, function);
    } else {
        assert(unsupported_from(document.functions, 0) is None) by {
            if unsupported_from(document.functions, 0) is Some {
                lemma_unsupported_from_some(document.functions, 0);
            }
        }
        lemma_emit_methods_failures(
            document.type_universe,
            Seq::empty(),
            document.functions,
            document.functions.len(),
        );
    }
}

/// Resolving keeps a registry grounded, and after it the type of every
/// definition that the schema holds a reference to is declared.
pub proof fn law_resolution_grounds(
    universe: Seq<DefinitionModel>,
    types: Seq<GeneratedTypeModel>,
    part: DocumentPart,
    schema: SchemaModel,
    name: Seq<char>,
)
    requires
        grounded(universe, types),
        mentions(schema, name),
    ensures
        resolve(universe, types, Seq::empty(), part, schema) matches Ok((grown, _)) ==> grounded(
            universe,
            grown,
        ) && declares_definition(grown, name),
{
    lemma_resolve_grounded(universe, types, Seq::empty(), part, schema);
}

/// In a grounded registry no type is that of a definition that refers to
/// itself, directly or through others.
pub proof fn law_declared_definitions_are_acyclic(
    universe: Seq<DefinitionModel>,
    types: Seq<GeneratedTypeModel>,
    name: Seq<char>,
)
    requires
        grounded(universe, types),
        declares_definition(types, name),
    ensures
        !on_cycle(universe, name),
{
    let i = choose|i: int|
        0 <= i < types.len() && !(#[trigger] types[i]).anonymous && types[i].name == name;
    lemma_declared_off_cycle(universe, types, name, i);
}

/// Cycles are refused: a schema that leads to a definition that refers to
/// itself, directly or through others, never resolves against a grounded
/// registry. The failure is a cycle through such a definition or, where a
/// reference to no definition is met first, that reference.
pub proof fn law_cycles_are_refused(
    universe: Seq<DefinitionModel>,
    types: Seq<GeneratedTypeModel>,
    part: DocumentPart,
    schema: SchemaModel,
    chain: Seq<Seq<char>>,
)
    requires
        grounded(universe, types),
        leads_along(universe, schema, chain),
        on_cycle(universe, chain.last()),
    ensures
        resolve(universe, types, Seq::empty(), part, schema) matches Err(error)
            && is_resolution_failure(universe, part, error),
{
    law_resolution_failures(universe, types, part, schema);
    if let Ok((grown, _)) = resolve(universe, types, Seq::empty(), part, schema) {
        law_resolution_grounds(universe, types, part, schema, chain.first());
        let i = choose|i: int|
            0 <= i < grown.len() && !(#[trigger] grown[i]).anonymous && grown[i].name
                == chain.first();
        let j = lemma_chain_descends(universe, grown, chain, chain.len() - 1, i);
        lemma_declared_off_cycle(universe, grown, chain.last(), j);
    }
}

/// Cycles end in `CyclicSchema`: where every reference in the schema and in
/// the universe names a definition, a schema that leads to a definition
/// that refers to itself fails with `CyclicSchema`, and the failure names a
/// definition that refers to itself.
pub proof fn law_cycles_end_in_cyclic_schema(
    universe: Seq<DefinitionModel>,
    types: Seq<GeneratedTypeModel>,
    part: DocumentPart,
    schema: SchemaModel,
    chain: Seq<Seq<char>>,
)
    requires
        grounded(universe, types),
        closed(universe),
        refers_within(universe, schema),
        leads_along(universe, schema, chain),
        on_cycle(universe, chain.last()),
    ensures
        resolve(universe, types, Seq::empty(), part, schema) matches Err(
            GenerateErrorModel::CyclicSchema { definition },
        ) && on_cycle(universe, definition),
{
    law_cycles_are_refused(universe, types, part, schema, chain);
    lemma_resolve_finds_definitions(universe, types, Seq::empty(), part, schema);
}

/// A definition that refers to itself is refused where it is first used: a
/// reference to it fails with `CyclicSchema` against a grounded registry,
/// if every reference in the universe names a definition.
pub proof fn law_self_reference_is_cyclic(
    universe: Seq<DefinitionModel>,
    types: Seq<GeneratedTypeModel>,
    part: DocumentPart,
    name: Seq<char>,
)
    requires
        grounded(universe, types),
        closed(universe),
        on_cycle(universe, name),
    ensures
        resolve(universe, types, Seq::empty(), part, SchemaModel::Reference(name)) matches Err(
            GenerateErrorModel::CyclicSchema { definition },
        ) && on_cycle(universe, definition),
{
    let schema = SchemaModel::Reference(name);
    let chain = seq![name];
    assert(chain.first() == name && chain.last() == name);
    let cycle = choose|cycle: Seq<Seq<char>>|
        #![auto]
        cycle.len() >= 2 && is_chain(universe, cycle) && cycle.first() == name && cycle.last()
            == name;
    assert(refers(universe, cycle[0], cycle[1]));
    lemma_definition_from_defines(universe, name, 0);
    law_cycles_end_in_cyclic_schema(universe, types, part, schema, chain);
}

/// The types of a generated unit form a grounded registry: each type of a
/// definition stands after the types of the definitions it refers to, so
/// none is the type of a definition that refers to itself.
pub proof fn law_generated_types_are_grounded(
    document: AbiDocumentModel,
    contract_name: Seq<char>,
    mod_name: Option<Seq<char>>,
)
    ensures
        generated(document, contract_name, mod_name) matches Ok(unit) ==> grounded(
            document.type_universe,
            unit.types,
        ),
{
    assert(grounded(document.type_universe, Seq::empty()));
    lemma_emit_methods_grounded(
        document.type_universe,
        Seq::empty(),
        document.functions,
        document.functions.len(),
    );
}

/// A cycle fails the generation: where the schema of a parameter or of a
/// result leads to a definition that refers to itself, directly or through
/// others, nothing is generated.
pub proof fn law_cycle_fails_generation(
    document: AbiDocumentModel,
    contract_name: Seq<char>,
    mod_name: Option<Seq<char>>,
    function: int,
    parameter: Option<int>,
    chain: Seq<Seq<char>>,
)
    requires
        call_site(document.functions, function, parameter) matches Some(
            TypeRefModel::JsonSchema(schema),
        ) && leads_along(document.type_universe, schema, chain),
        on_cycle(document.type_universe, chain.last()),
    ensures
        generated(document, contract_name, mod_name) is Err,
{
    if let Ok(unit) = generated(document, contract_name, mod_name) {
        let schema = call_site(document.functions, function, parameter)->0->JsonSchema_0;
        law_call_sites_resolve_to_declared_types(
            document,
            contract_name,
            mod_name,
            function,
            parameter,
            DocumentPart::Source,
        );
        law_generated_types_are_grounded(document, contract_name, mod_name);
        law_cycles_are_refused(
            document.type_universe,
            unit.types,
            DocumentPart::Source,
            schema,
            chain,
        );
    }
}

/// A cycle ends in `CyclicSchema`: where no function uses the Borsh
/// encoding and every reference in the document names a definition, a
/// schema of a parameter or of a result that leads to a definition that
/// refers to itself fails the generation with `CyclicSchema`, and the
/// failure names a definition that refers to itself.
pub proof fn law_cycle_ends_in_cyclic_schema(
    document: AbiDocumentModel,
    contract_name: Seq<char>,
    mod_name: Option<Seq<char>>,
    function: int,
    parameter: Option<int>,
    chain: Seq<Seq<char>>,
)
    requires
        !uses_borsh_anywhere(document),
        refers_within_itself(document),
        call_site(document.functions, function, parameter) matches Some(
            TypeRefModel::JsonSchema(schema),
        ) && leads_along(document.type_universe, schema, chain),
        on_cycle(document.type_universe, chain.last()),
    ensures
        generated(document, contract_name, mod_name) matches Err(
            GenerateErrorModel::CyclicSchema { definition },
        ) && on_cycle(document.type_universe, definition),
{
    law_cycle_fails_generation(document, contract_name, mod_name, function, parameter, chain);
    law_generation_failures(document, contract_name, mod_name);
    if unsupported_from(document.functions, 0) is Some {
        lemma_unsupported_from_some(document.functions, 0);
    }
    lemma_emit_methods_find_definitions(
        document.type_universe,
        Seq::empty(),
        document.functions,
        document.functions.len(),
    );
}

} // verus!
