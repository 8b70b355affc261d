//! The proofs by induction that the laws and the contracts rest on.
use crate::document::{DefinitionModel, FunctionModel, ParamModel, TypeRefModel};
use crate::error::{DocumentPart, GenerateErrorModel};
use crate::interface::{
    borsh_param_from, emit_method, emit_methods, emit_params, emit_result, emit_type,
    method_declared, mirrors, parameter_name_of, unsupported_from, unsupported_in, uses_borsh,
    MethodModel, ParameterModel,
};
use crate::laws::{
    call_site, closed, emitted_at, fields_mention, grounded, is_chain, is_resolution_failure,
    is_signature_failure, law_resolution_failures, mentions, on_cycle, refers, refers_within,
    signature_refers_within, stems,
};
use crate::resolver::{
    anonymous_candidate, appended_outside, body_declared, declares_definition, declares_name,
    defines, definition_from, extends, fields_declared, fresh_name, lemma_definition_from_defines,
    lemma_follow_decreases, lemma_taken_is_bounded, longest_taken, reference_declared,
    register_shape, resolve, resolve_definition, resolve_fields, shape_from, unvisited,
    well_formed,
};
use crate::schema::{FieldModel, SchemaModel};
use crate::types::{GeneratedFieldModel, GeneratedTypeModel, TypeBodyModel, TypeReferenceModel};
use vstd::prelude::*;

verus! {

pub proof fn lemma_shape_from_first(
    types: Seq<GeneratedTypeModel>,
    longer: Seq<GeneratedTypeModel>,
    body: TypeBodyModel,
    from: nat,
)
    requires
        extends(types, longer),
        shape_from(types, body, from) is Some,
    ensures
        shape_from(longer, body, from) == shape_from(types, body, from),
    decreases types.len() - from,
{
    if from < types.len() {
        if types[from as int].anonymous && types[from as int].body == body {
        } else {
            lemma_shape_from_first(types, longer, body, from + 1);
        }
    }
}

pub proof fn lemma_shape_from_last(
    types: Seq<GeneratedTypeModel>,
    declaration: GeneratedTypeModel,
    longer: Seq<GeneratedTypeModel>,
    from: nat,
)
    requires
        extends(types.push(declaration), longer),
        declaration.anonymous,
        shape_from(types, declaration.body, from) is None,
        from <= types.len(),
    ensures
        shape_from(longer, declaration.body, from) == Some(declaration.name),
    decreases types.len() - from,
{
    assert(longer[types.len() as int] == types.push(declaration)[types.len() as int]);
    if from < types.len() {
        assert(longer[from as int] == types.push(declaration)[from as int]);
        lemma_shape_from_last(types, declaration, longer, from + 1);
    }
}

/// Registering a shape appends at most one type, and registering it again in
/// any later registry finds the same type and appends nothing.
pub proof fn lemma_register_shape(
    universe: Seq<DefinitionModel>,
    types: Seq<GeneratedTypeModel>,
    body: TypeBodyModel,
    later: Seq<GeneratedTypeModel>,
)
    requires
        extends(register_shape(universe, types, body).0, later),
    ensures
        extends(types, register_shape(universe, types, body).0),
        register_shape(universe, later, body) == (later, register_shape(universe, types, body).1),
{
    match shape_from(types, body, 0) {
        Some(name) => {
            lemma_shape_from_first(types, later, body, 0);
        },
        None => {
            let name = register_shape(universe, types, body).1->Named_0;
            lemma_shape_from_last(
                types,
                GeneratedTypeModel { name, anonymous: true, body },
                later,
                0,
            );
        },
    }
}

/// Resolving only appends to the registry.
pub proof fn lemma_resolve_grows(
    universe: Seq<DefinitionModel>,
    types: Seq<GeneratedTypeModel>,
    pending: Seq<Seq<char>>,
    part: DocumentPart,
    schema: SchemaModel,
)
    ensures
        resolve(universe, types, pending, part, schema) matches Ok((grown, _)) ==> extends(
            types,
            grown,
        ),
    decreases unvisited(universe, pending, universe.len()), schema, 1nat,
{
    match schema {
        SchemaModel::Primitive(_) => {},
        SchemaModel::Array(item) => {
            lemma_resolve_grows(universe, types, pending, part, *item);
        },
        SchemaModel::Reference(name) => {
            if !declares_definition(types, name) && !pending.contains(name) {
                if let Some(definition) = definition_from(universe, name, 0) {
                    lemma_follow_decreases(universe, pending, name);
                    lemma_definition_grows(universe, types, pending.push(name), part, definition);
                }
            }
        },
        SchemaModel::Object(fields) => {
            lemma_fields_grow(universe, types, pending, part, fields, fields.len());
            if let Ok((grown, resolved)) = resolve_fields(
                universe,
                types,
                pending,
                part,
                fields,
                fields.len(),
            ) {
                let body = TypeBodyModel::Struct(resolved);
                let registered = register_shape(universe, grown, body).0;
                lemma_register_shape(universe, grown, body, registered);
            }
        },
        SchemaModel::Enum(variants) => {
            let body = TypeBodyModel::Enum(variants);
            lemma_register_shape(universe, types, body, register_shape(universe, types, body).0);
        },
    }
}

pub proof fn lemma_definition_grows(
    universe: Seq<DefinitionModel>,
    types: Seq<GeneratedTypeModel>,
    pending: Seq<Seq<char>>,
    part: DocumentPart,
    schema: SchemaModel,
)
    ensures
        resolve_definition(universe, types, pending, part, schema) matches Ok((grown, _))
            ==> extends(types, grown),
    decreases unvisited(universe, pending, universe.len()), schema, 2nat,
{
    match schema {
        SchemaModel::Object(fields) => {
            lemma_fields_grow(universe, types, pending, part, fields, fields.len());
        },
        SchemaModel::Enum(_) => {},
        _ => {
            lemma_resolve_grows(universe, types, pending, part, schema);
        },
    }
}

pub proof fn lemma_fields_grow(
    universe: Seq<DefinitionModel>,
    types: Seq<GeneratedTypeModel>,
    pending: Seq<Seq<char>>,
    part: DocumentPart,
    fields: Seq<FieldModel>,
    upto: nat,
)
    ensures
        resolve_fields(universe, types, pending, part, fields, upto) matches Ok((grown, _))
            ==> extends(types, grown),
    decreases unvisited(universe, pending, universe.len()), fields, upto,
{
    if upto == 0 || upto > fields.len() {
    } else {
        lemma_fields_grow(universe, types, pending, part, fields, (upto - 1) as nat);
        if let Ok((grown, _)) = resolve_fields(
            universe,
            types,
            pending,
            part,
            fields,
            (upto - 1) as nat,
        ) {
            lemma_resolve_grows(universe, grown, pending, part, fields[upto - 1].schema);
        }
    }
}

/// Resolving is idempotent: once a schema has resolved, resolving
/// it again in that registry or in any later one gives the same reference
/// and appends nothing, wherever the schema stands.
pub proof fn lemma_resolve_again(
    universe: Seq<DefinitionModel>,
    types: Seq<GeneratedTypeModel>,
    pending: Seq<Seq<char>>,
    part: DocumentPart,
    schema: SchemaModel,
    later: Seq<GeneratedTypeModel>,
    later_pending: Seq<Seq<char>>,
    later_part: DocumentPart,
)
    requires
        resolve(universe, types, pending, part, schema) matches Ok((grown, _)) && extends(
            grown,
            later,
        ),
    ensures
        resolve(universe, later, later_pending, later_part, schema) == Ok::<_, GenerateErrorModel>(
            (later, resolve(universe, types, pending, part, schema)->Ok_0.1),
        ),
    decreases unvisited(universe, pending, universe.len()), schema, 1nat,
{
    match schema {
        SchemaModel::Primitive(_) => {},
        SchemaModel::Array(item) => {
            lemma_resolve_again(
                universe,
                types,
                pending,
                part,
                *item,
                later,
                later_pending,
                later_part,
            );
        },
        SchemaModel::Reference(name) => {
            if declares_definition(types, name) {
                let i = choose|i: int|
                    0 <= i < types.len() && !(#[trigger] types[i]).anonymous && types[i].name
                        == name;
                assert(later[i] == types[i]);
            } else {
                let grown = resolve(universe, types, pending, part, schema)->Ok_0.0;
                let last = grown.len() - 1;
                assert(later[last] == grown[last]);
            }
        },
        SchemaModel::Object(fields) => {
            let (grown, resolved) = resolve_fields(
                universe,
                types,
                pending,
                part,
                fields,
                fields.len(),
            )->Ok_0;
            let body = TypeBodyModel::Struct(resolved);
            lemma_register_shape(universe, grown, body, later);
            lemma_extends_chain(grown, register_shape(universe, grown, body).0, later);
            lemma_fields_again(
                universe,
                types,
                pending,
                part,
                fields,
                fields.len(),
                later,
                later_pending,
                later_part,
            );
        },
        SchemaModel::Enum(variants) => {
            lemma_register_shape(universe, types, TypeBodyModel::Enum(variants), later);
        },
    }
}

pub proof fn lemma_extends_chain(
    first: Seq<GeneratedTypeModel>,
    second: Seq<GeneratedTypeModel>,
    third: Seq<GeneratedTypeModel>,
)
    requires
        extends(first, second),
        extends(second, third),
    ensures
        extends(first, third),
{
}

pub proof fn lemma_fields_again(
    universe: Seq<DefinitionModel>,
    types: Seq<GeneratedTypeModel>,
    pending: Seq<Seq<char>>,
    part: DocumentPart,
    fields: Seq<FieldModel>,
    upto: nat,
    later: Seq<GeneratedTypeModel>,
    later_pending: Seq<Seq<char>>,
    later_part: DocumentPart,
)
    requires
        resolve_fields(universe, types, pending, part, fields, upto) matches Ok((grown, _))
            && extends(grown, later),
    ensures
        resolve_fields(universe, later, later_pending, later_part, fields, upto) == Ok::<
            _,
            GenerateErrorModel,
        >((later, resolve_fields(universe, types, pending, part, fields, upto)->Ok_0.1)),
    decreases unvisited(universe, pending, universe.len()), fields, upto,
{
    if upto == 0 || upto > fields.len() {
    } else {
        let (grown, resolved) = resolve_fields(
            universe,
            types,
            pending,
            part,
            fields,
            (upto - 1) as nat,
        )->Ok_0;
        let schema = fields[upto - 1].schema;
        lemma_resolve_grows(universe, grown, pending, part, schema);
        let grown_more = resolve(universe, grown, pending, part, schema)->Ok_0.0;
        lemma_extends_chain(grown, grown_more, later);
        lemma_fields_again(
            universe,
            types,
            pending,
            part,
            fields,
            (upto - 1) as nat,
            later,
            later_pending,
            later_part,
        );
        lemma_resolve_again(
            universe,
            grown,
            pending,
            part,
            schema,
            later,
            later_pending,
            later_part,
        );
    }
}

pub proof fn lemma_declared_later(
    types: Seq<GeneratedTypeModel>,
    later: Seq<GeneratedTypeModel>,
    reference: TypeReferenceModel,
)
    requires
        extends(types, later),
        reference_declared(types, reference),
    ensures
        reference_declared(later, reference),
    decreases reference,
{
    match reference {
        TypeReferenceModel::Scalar(_) => {},
        TypeReferenceModel::Array(item) => {
            lemma_declared_later(types, later, *item);
        },
        TypeReferenceModel::Named(name) => {
            let i = choose|i: int| 0 <= i < types.len() && (#[trigger] types[i]).name == name;
            assert(later[i] == types[i]);
        },
    }
}

pub proof fn lemma_fields_declared_later(
    types: Seq<GeneratedTypeModel>,
    later: Seq<GeneratedTypeModel>,
    fields: Seq<GeneratedFieldModel>,
)
    requires
        extends(types, later),
        fields_declared(types, fields),
    ensures
        fields_declared(later, fields),
{
    assert forall|k: int| 0 <= k < fields.len() implies reference_declared(
        later,
        (#[trigger] fields[k]).ty,
    ) by {
        lemma_declared_later(types, later, fields[k].ty);
    }
}

pub proof fn lemma_shape_from_declared(
    types: Seq<GeneratedTypeModel>,
    body: TypeBodyModel,
    from: nat,
)
    ensures
        shape_from(types, body, from) matches Some(name) ==> declares_name(types, name),
        shape_from(types, body, from) is None ==> forall|i: int|
            from <= i < types.len() && (#[trigger] types[i]).anonymous ==> types[i].body != body,
    decreases types.len() - from,
{
    if from < types.len() {
        lemma_shape_from_declared(types, body, from + 1);
    }
}

pub proof fn lemma_fresh_name_is_free(
    universe: Seq<DefinitionModel>,
    types: Seq<GeneratedTypeModel>,
    candidate: Seq<char>,
)
    ensures
        !defines(universe, fresh_name(universe, types, candidate)),
        !declares_name(types, fresh_name(universe, types, candidate)),
    decreases longest_taken(universe, types) + 1 - candidate.len(),
{
    if defines(universe, candidate) || declares_name(types, candidate) {
        lemma_taken_is_bounded(universe, types, candidate);
        lemma_fresh_name_is_free(universe, types, candidate.push('_'));
    }
}

pub proof fn lemma_push_keeps_well_formed(
    universe: Seq<DefinitionModel>,
    types: Seq<GeneratedTypeModel>,
    declaration: GeneratedTypeModel,
)
    requires
        well_formed(universe, types),
        !declares_name(types, declaration.name),
        declaration.anonymous ==> !defines(universe, declaration.name),
        declaration.anonymous ==> forall|i: int|
            0 <= i < types.len() && (#[trigger] types[i]).anonymous ==> types[i].body
                != declaration.body,
        body_declared(types, declaration.body),
    ensures
        well_formed(universe, types.push(declaration)),
{
    let pushed = types.push(declaration);
    assert forall|i: int| 0 <= i < pushed.len() implies body_declared(
        pushed.take(i),
        (#[trigger] pushed[i]).body,
    ) by {
        if i < types.len() {
            assert(pushed.take(i) =~= types.take(i));
            assert(pushed[i] == types[i]);
        } else {
            assert(pushed.take(i) =~= types);
        }
    }
    assert forall|i: int, j: int| 0 <= i < j < pushed.len() implies (#[trigger] pushed[i]).name != (
    #[trigger] pushed[j]).name by {
        assert(pushed[i] == types[i]);
        if j < types.len() {
            assert(pushed[j] == types[j]);
        }
    }
    assert forall|i: int, j: int|
        0 <= i < j < pushed.len() && (#[trigger] pushed[i]).anonymous && (
        #[trigger] pushed[j]).anonymous implies pushed[i].body != pushed[j].body by {
        assert(pushed[i] == types[i]);
        if j < types.len() {
            assert(pushed[j] == types[j]);
        }
    }
    assert forall|i: int|
        0 <= i < pushed.len() && (#[trigger] pushed[i]).anonymous implies !defines(
        universe,
        pushed[i].name,
    ) by {
        if i < types.len() {
            assert(pushed[i] == types[i]);
        }
    }
}

/// Registering a shape keeps the registry well formed, and the reference it
/// gives names a type of the registry.
pub proof fn lemma_register_shape_well_formed(
    universe: Seq<DefinitionModel>,
    types: Seq<GeneratedTypeModel>,
    body: TypeBodyModel,
    pending: Seq<Seq<char>>,
)
    requires
        well_formed(universe, types),
        body_declared(types, body),
    ensures
        well_formed(universe, register_shape(universe, types, body).0),
        reference_declared(
            register_shape(universe, types, body).0,
            register_shape(universe, types, body).1,
        ),
        appended_outside(types, register_shape(universe, types, body).0, pending),
{
    lemma_shape_from_declared(types, body, 0);
    if shape_from(types, body, 0) is None {
        let name = fresh_name(universe, types, anonymous_candidate(types));
        lemma_fresh_name_is_free(universe, types, anonymous_candidate(types));
        let declaration = GeneratedTypeModel { name, anonymous: true, body };
        lemma_push_keeps_well_formed(universe, types, declaration);
        assert(types.push(declaration)[types.len() as int].name == name);
    }
}

pub proof fn lemma_pending_push(pending: Seq<Seq<char>>, name: Seq<char>, other: Seq<char>)
    ensures
        pending.push(name).contains(other) <==> pending.contains(other) || other == name,
{
    let pushed = pending.push(name);
    assert(pushed[pending.len() as int] == name);
    if pending.contains(other) {
        let i = choose|i: int| 0 <= i < pending.len() && pending[i] == other;
        assert(pushed[i] == other);
    }
    if pushed.contains(other) && other != name {
        let i = choose|i: int| 0 <= i < pushed.len() && pushed[i] == other;
        assert(pending[i] == other);
    }
}

/// Resolving keeps the registry well formed; the reference it gives names
/// types of the registry; and the types of definitions that it appends are of
/// definitions that were not being resolved.
pub proof fn lemma_resolve_well_formed(
    universe: Seq<DefinitionModel>,
    types: Seq<GeneratedTypeModel>,
    pending: Seq<Seq<char>>,
    part: DocumentPart,
    schema: SchemaModel,
)
    requires
        well_formed(universe, types),
    ensures
        resolve(universe, types, pending, part, schema) matches Ok((grown, reference)) ==> {
            &&& well_formed(universe, grown)
            &&& reference_declared(grown, reference)
            &&& appended_outside(types, grown, pending)
        },
    decreases unvisited(universe, pending, universe.len()), schema, 1nat,
{
    match schema {
        SchemaModel::Primitive(_) => {},
        SchemaModel::Array(item) => {
            lemma_resolve_well_formed(universe, types, pending, part, *item);
        },
        SchemaModel::Reference(name) => {
            if declares_definition(types, name) {
                let i = choose|i: int|
                    0 <= i < types.len() && !(#[trigger] types[i]).anonymous && types[i].name
                        == name;
            } else if !pending.contains(name) {
                if let Some(definition) = definition_from(universe, name, 0) {
                    lemma_follow_decreases(universe, pending, name);
                    lemma_definition_from_defines(universe, name, 0);
                    let deeper = pending.push(name);
                    lemma_definition_well_formed(universe, types, deeper, part, definition);
                    lemma_definition_grows(universe, types, deeper, part, definition);
                    if let Ok((grown, body)) = resolve_definition(
                        universe,
                        types,
                        deeper,
                        part,
                        definition,
                    ) {
                        let declaration = GeneratedTypeModel { name, anonymous: false, body };
                        assert(!declares_name(grown, name)) by {
                            assert forall|i: int| 0 <= i < grown.len() implies (
                            #[trigger] grown[i]).name != name by {
                                if grown[i].anonymous {
                                } else if i < types.len() {
                                    assert(grown[i] == types[i]);
                                } else {
                                    lemma_pending_push(pending, name, grown[i].name);
                                }
                            }
                        }
                        lemma_push_keeps_well_formed(universe, grown, declaration);
                        let pushed = grown.push(declaration);
                        assert(pushed[grown.len() as int].name == name);
                        assert forall|i: int|
                            types.len() <= i < pushed.len() && !(
                            #[trigger] pushed[i]).anonymous implies !pending.contains(
                            pushed[i].name,
                        ) by {
                            if i < grown.len() {
                                assert(pushed[i] == grown[i]);
                                lemma_pending_push(pending, name, grown[i].name);
                            }
                        }
                    }
                }
            }
        },
        SchemaModel::Object(fields) => {
            lemma_fields_well_formed(universe, types, pending, part, fields, fields.len());
            if let Ok((grown, resolved)) = resolve_fields(
                universe,
                types,
                pending,
                part,
                fields,
                fields.len(),
            ) {
                let body = TypeBodyModel::Struct(resolved);
                lemma_register_shape_well_formed(universe, grown, body, pending);
                let registered = register_shape(universe, grown, body).0;
                assert forall|i: int|
                    types.len() <= i < registered.len() && !(
                    #[trigger] registered[i]).anonymous implies !pending.contains(
                    registered[i].name,
                ) by {
                    if i < grown.len() {
                        lemma_register_shape(universe, grown, body, registered);
                        assert(registered[i] == grown[i]);
                    }
                }
            }
        },
        SchemaModel::Enum(variants) => {
            lemma_register_shape_well_formed(
                universe,
                types,
                TypeBodyModel::Enum(variants),
                pending,
            );
        },
    }
}

pub proof fn lemma_definition_well_formed(
    universe: Seq<DefinitionModel>,
    types: Seq<GeneratedTypeModel>,
    pending: Seq<Seq<char>>,
    part: DocumentPart,
    schema: SchemaModel,
)
    requires
        well_formed(universe, types),
    ensures
        resolve_definition(universe, types, pending, part, schema) matches Ok((grown, body)) ==> {
            &&& well_formed(universe, grown)
            &&& body_declared(grown, body)
            &&& appended_outside(types, grown, pending)
        },
    decreases unvisited(universe, pending, universe.len()), schema, 2nat,
{
    match schema {
        SchemaModel::Object(fields) => {
            lemma_fields_well_formed(universe, types, pending, part, fields, fields.len());
        },
        SchemaModel::Enum(_) => {},
        _ => {
            lemma_resolve_well_formed(universe, types, pending, part, schema);
        },
    }
}

pub proof fn lemma_fields_well_formed(
    universe: Seq<DefinitionModel>,
    types: Seq<GeneratedTypeModel>,
    pending: Seq<Seq<char>>,
    part: DocumentPart,
    fields: Seq<FieldModel>,
    upto: nat,
)
    requires
        well_formed(universe, types),
    ensures
        resolve_fields(universe, types, pending, part, fields, upto) matches Ok(
            (grown, resolved),
        ) ==> {
            &&& well_formed(universe, grown)
            &&& fields_declared(grown, resolved)
            &&& appended_outside(types, grown, pending)
        },
    decreases unvisited(universe, pending, universe.len()), fields, upto,
{
    if upto == 0 || upto > fields.len() {
    } else {
        lemma_fields_well_formed(universe, types, pending, part, fields, (upto - 1) as nat);
        if let Ok((grown, resolved)) = resolve_fields(
            universe,
            types,
            pending,
            part,
            fields,
            (upto - 1) as nat,
        ) {
            let schema = fields[upto - 1].schema;
            lemma_fields_grow(universe, types, pending, part, fields, (upto - 1) as nat);
            lemma_resolve_well_formed(universe, grown, pending, part, schema);
            lemma_resolve_grows(universe, grown, pending, part, schema);
            if let Ok((grown_more, ty)) = resolve(universe, grown, pending, part, schema) {
                lemma_fields_declared_later(grown, grown_more, resolved);
                let field = GeneratedFieldModel {
                    name: fields[upto - 1].name,
                    ty,
                    nullable: !fields[upto - 1].required,
                };
                let all = resolved.push(field);
                assert forall|k: int| 0 <= k < all.len() implies reference_declared(
                    grown_more,
                    (#[trigger] all[k]).ty,
                ) by {
                    if k < resolved.len() {
                        assert(all[k] == resolved[k]);
                    }
                }
            }
        }
    }
}

pub proof fn lemma_method_declared_later(
    types: Seq<GeneratedTypeModel>,
    later: Seq<GeneratedTypeModel>,
    method: MethodModel,
)
    requires
        extends(types, later),
        method_declared(types, method),
    ensures
        method_declared(later, method),
{
    assert forall|a: int| 0 <= a < method.params.len() implies reference_declared(
        later,
        (#[trigger] method.params[a]).ty,
    ) by {
        lemma_declared_later(types, later, method.params[a].ty);
    }
    if let Some(result) = method.result {
        lemma_declared_later(types, later, result);
    }
}

pub proof fn lemma_emit_type_facts(
    universe: Seq<DefinitionModel>,
    types: Seq<GeneratedTypeModel>,
    part: DocumentPart,
    function: Seq<char>,
    parameter: Option<usize>,
    ty: TypeRefModel,
)
    requires
        well_formed(universe, types),
    ensures
        emit_type(universe, types, part, function, parameter, ty) matches Ok(
            (grown, reference),
        ) ==> {
            &&& extends(types, grown)
            &&& well_formed(universe, grown)
            &&& reference_declared(grown, reference)
        },
{
    if let TypeRefModel::JsonSchema(schema) = ty {
        lemma_resolve_grows(universe, types, Seq::empty(), part, schema);
        lemma_resolve_well_formed(universe, types, Seq::empty(), part, schema);
    }
}

pub proof fn lemma_emit_params_facts(
    universe: Seq<DefinitionModel>,
    types: Seq<GeneratedTypeModel>,
    index: usize,
    function: Seq<char>,
    params: Seq<ParamModel>,
    upto: nat,
)
    requires
        well_formed(universe, types),
        upto <= params.len(),
    ensures
        emit_params(universe, types, index, function, params, upto) matches Ok(
            (grown, emitted),
        ) ==> {
            &&& extends(types, grown)
            &&& well_formed(universe, grown)
            &&& emitted.len() == upto
            &&& forall|a: int|
                0 <= a < upto ==> (#[trigger] emitted[a]).name == parameter_name_of(
                    params[a].name,
                    a as nat,
                ) && reference_declared(grown, emitted[a].ty)
        },
    decreases upto,
{
    if upto > 0 {
        lemma_emit_params_facts(universe, types, index, function, params, (upto - 1) as nat);
        if let Ok((grown, emitted)) = emit_params(
            universe,
            types,
            index,
            function,
            params,
            (upto - 1) as nat,
        ) {
            let part = DocumentPart::Parameter(index, (upto - 1) as usize);
            let parameter = Some((upto - 1) as usize);
            lemma_emit_type_facts(universe, grown, part, function, parameter, params[upto - 1].ty);
            if let Ok((grown_more, ty)) = emit_type(
                universe,
                grown,
                part,
                function,
                parameter,
                params[upto - 1].ty,
            ) {
                let last = ParameterModel {
                    name: parameter_name_of(params[upto - 1].name, (upto - 1) as nat),
                    ty,
                };
                let all = emitted.push(last);
                assert forall|a: int| 0 <= a < upto implies (#[trigger] all[a]).name
                    == parameter_name_of(params[a].name, a as nat) && reference_declared(
                    grown_more,
                    all[a].ty,
                ) by {
                    if a < upto - 1 {
                        assert(all[a] == emitted[a]);
                        lemma_declared_later(grown, grown_more, emitted[a].ty);
                    }
                }
            }
        }
    }
}

pub proof fn lemma_emit_method_facts(
    universe: Seq<DefinitionModel>,
    types: Seq<GeneratedTypeModel>,
    index: usize,
    function: FunctionModel,
)
    requires
        well_formed(universe, types),
    ensures
        emit_method(universe, types, index, function) matches Ok((grown, method)) ==> {
            &&& extends(types, grown)
            &&& well_formed(universe, grown)
            &&& mirrors(function, method)
            &&& method_declared(grown, method)
        },
{
    lemma_emit_params_facts(
        universe,
        types,
        index,
        function.name,
        function.params,
        function.params.len(),
    );
    if let Ok((grown, params)) = emit_params(
        universe,
        types,
        index,
        function.name,
        function.params,
        function.params.len(),
    ) {
        if let Some(ty) = function.result {
            lemma_emit_type_facts(
                universe,
                grown,
                DocumentPart::Result(index),
                function.name,
                None,
                ty,
            );
        }
        if let Ok((grown_more, result)) = emit_result(
            universe,
            grown,
            index,
            function.name,
            function.result,
        ) {
            let method = MethodModel { name: function.name, params, result };
            assert forall|a: int| 0 <= a < method.params.len() implies reference_declared(
                grown_more,
                (#[trigger] method.params[a]).ty,
            ) by {
                lemma_declared_later(grown, grown_more, params[a].ty);
            }
        }
    }
}

pub proof fn lemma_emit_methods_facts(
    universe: Seq<DefinitionModel>,
    types: Seq<GeneratedTypeModel>,
    functions: Seq<FunctionModel>,
    upto: nat,
)
    requires
        well_formed(universe, types),
        upto <= functions.len(),
    ensures
        emit_methods(universe, types, functions, upto) matches Ok((grown, methods)) ==> {
            &&& extends(types, grown)
            &&& well_formed(universe, grown)
            &&& methods.len() == upto
            &&& forall|i: int|
                0 <= i < upto ==> mirrors(functions[i], #[trigger] methods[i]) && method_declared(
                    grown,
                    methods[i],
                )
        },
    decreases upto,
{
    if upto > 0 {
        lemma_emit_methods_facts(universe, types, functions, (upto - 1) as nat);
        if let Ok((grown, methods)) = emit_methods(
            universe,
            types,
            functions,
            (upto - 1) as nat,
        ) {
            lemma_emit_method_facts(universe, grown, (upto - 1) as usize, functions[upto - 1]);
            if let Ok((grown_more, method)) = emit_method(
                universe,
                grown,
                (upto - 1) as usize,
                functions[upto - 1],
            ) {
                let all = methods.push(method);
                assert forall|i: int| 0 <= i < upto implies mirrors(
                    functions[i],
                    #[trigger] all[i],
                ) && method_declared(grown_more, all[i]) by {
                    if i < upto - 1 {
                        assert(all[i] == methods[i]);
                        lemma_method_declared_later(grown, grown_more, methods[i]);
                    }
                }
            }
        }
    }
}

pub proof fn lemma_emit_type_grows(
    universe: Seq<DefinitionModel>,
    types: Seq<GeneratedTypeModel>,
    part: DocumentPart,
    function: Seq<char>,
    parameter: Option<usize>,
    ty: TypeRefModel,
)
    ensures
        emit_type(universe, types, part, function, parameter, ty) matches Ok((grown, _))
            ==> extends(types, grown),
{
    if let TypeRefModel::JsonSchema(schema) = ty {
        lemma_resolve_grows(universe, types, Seq::empty(), part, schema);
    }
}

pub proof fn lemma_emit_params_grow(
    universe: Seq<DefinitionModel>,
    types: Seq<GeneratedTypeModel>,
    index: usize,
    function: Seq<char>,
    params: Seq<ParamModel>,
    upto: nat,
)
    ensures
        emit_params(universe, types, index, function, params, upto) matches Ok((grown, emitted))
            ==> extends(types, grown) && (upto <= params.len() ==> emitted.len() == upto),
    decreases upto,
{
    if upto == 0 || upto > params.len() {
    } else {
        lemma_emit_params_grow(universe, types, index, function, params, (upto - 1) as nat);
        if let Ok((grown, _)) = emit_params(
            universe,
            types,
            index,
            function,
            params,
            (upto - 1) as nat,
        ) {
            lemma_emit_type_grows(
                universe,
                grown,
                DocumentPart::Parameter(index, (upto - 1) as usize),
                function,
                Some((upto - 1) as usize),
                params[upto - 1].ty,
            );
        }
    }
}

pub proof fn lemma_emit_method_grows(
    universe: Seq<DefinitionModel>,
    types: Seq<GeneratedTypeModel>,
    index: usize,
    function: FunctionModel,
)
    ensures
        emit_method(universe, types, index, function) matches Ok((grown, _)) ==> extends(
            types,
            grown,
        ),
{
    lemma_emit_params_grow(
        universe,
        types,
        index,
        function.name,
        function.params,
        function.params.len(),
    );
    if let Ok((grown, _)) = emit_params(
        universe,
        types,
        index,
        function.name,
        function.params,
        function.params.len(),
    ) {
        if let Some(ty) = function.result {
            lemma_emit_type_grows(
                universe,
                grown,
                DocumentPart::Result(index),
                function.name,
                None,
                ty,
            );
        }
    }
}

pub proof fn lemma_emit_methods_grow(
    universe: Seq<DefinitionModel>,
    types: Seq<GeneratedTypeModel>,
    functions: Seq<FunctionModel>,
    upto: nat,
)
    ensures
        emit_methods(universe, types, functions, upto) matches Ok((grown, methods)) ==> extends(
            types,
            grown,
        ) && (upto <= functions.len() ==> methods.len() == upto),
    decreases upto,
{
    if upto == 0 || upto > functions.len() {
    } else {
        lemma_emit_methods_grow(universe, types, functions, (upto - 1) as nat);
        if let Ok((grown, _)) = emit_methods(universe, types, functions, (upto - 1) as nat) {
            lemma_emit_method_grows(universe, grown, (upto - 1) as usize, functions[upto - 1]);
        }
    }
}

pub proof fn lemma_param_call_site(
    universe: Seq<DefinitionModel>,
    types: Seq<GeneratedTypeModel>,
    index: usize,
    function: Seq<char>,
    params: Seq<ParamModel>,
    upto: nat,
    parameter: int,
    later: Seq<GeneratedTypeModel>,
    later_pending: Seq<Seq<char>>,
    later_part: DocumentPart,
)
    requires
        emit_params(universe, types, index, function, params, upto) matches Ok((grown, _))
            && extends(grown, later),
        0 <= parameter < upto <= params.len(),
    ensures
        params[parameter].ty matches TypeRefModel::JsonSchema(schema) && resolve(
            universe,
            later,
            later_pending,
            later_part,
            schema,
        ) == Ok::<_, GenerateErrorModel>(
            (
                later,
                emit_params(universe, types, index, function, params, upto)->Ok_0.1[parameter].ty,
            ),
        ),
    decreases upto,
{
    let (grown, emitted) = emit_params(
        universe,
        types,
        index,
        function,
        params,
        (upto - 1) as nat,
    )->Ok_0;
    let part = DocumentPart::Parameter(index, (upto - 1) as usize);
    let step = emit_type(
        universe,
        grown,
        part,
        function,
        Some((upto - 1) as usize),
        params[upto - 1].ty,
    );
    let (grown_more, ty) = step->Ok_0;
    lemma_emit_type_grows(
        universe,
        grown,
        part,
        function,
        Some((upto - 1) as usize),
        params[upto - 1].ty,
    );
    lemma_emit_params_grow(universe, types, index, function, params, (upto - 1) as nat);
    if parameter == upto - 1 {
        let schema = params[parameter].ty->JsonSchema_0;
        lemma_resolve_again(
            universe,
            grown,
            Seq::empty(),
            part,
            schema,
            later,
            later_pending,
            later_part,
        );
    } else {
        lemma_extends_chain(grown, grown_more, later);
        lemma_param_call_site(
            universe,
            types,
            index,
            function,
            params,
            (upto - 1) as nat,
            parameter,
            later,
            later_pending,
            later_part,
        );
    }
}

pub proof fn lemma_method_call_site(
    universe: Seq<DefinitionModel>,
    types: Seq<GeneratedTypeModel>,
    index: usize,
    function: FunctionModel,
    parameter: Option<int>,
    later: Seq<GeneratedTypeModel>,
    later_pending: Seq<Seq<char>>,
    later_part: DocumentPart,
)
    requires
        emit_method(universe, types, index, function) matches Ok((grown, _)) && extends(
            grown,
            later,
        ),
        call_site(seq![function], 0, parameter) is Some,
    ensures
        call_site(seq![function], 0, parameter) matches Some(TypeRefModel::JsonSchema(schema))
            && resolve(universe, later, later_pending, later_part, schema) == Ok::<
            _,
            GenerateErrorModel,
        >(
            (
                later,
                emitted_at(
                    seq![emit_method(universe, types, index, function)->Ok_0.1],
                    0,
                    parameter,
                )->0,
            ),
        ),
{
    let (grown, params) = emit_params(
        universe,
        types,
        index,
        function.name,
        function.params,
        function.params.len(),
    )->Ok_0;
    let (grown_more, result) = emit_result(
        universe,
        grown,
        index,
        function.name,
        function.result,
    )->Ok_0;
    lemma_emit_params_grow(
        universe,
        types,
        index,
        function.name,
        function.params,
        function.params.len(),
    );
    assert(seq![function][0] == function);
    let method = emit_method(universe, types, index, function)->Ok_0.1;
    assert(seq![method][0] == method);
    match parameter {
        Some(position) => {
            if let Some(ty) = function.result {
                lemma_emit_type_grows(
                    universe,
                    grown,
                    DocumentPart::Result(index),
                    function.name,
                    None,
                    ty,
                );
            }
            lemma_extends_chain(grown, grown_more, later);
            lemma_param_call_site(
                universe,
                types,
                index,
                function.name,
                function.params,
                function.params.len(),
                position,
                later,
                later_pending,
                later_part,
            );
        },
        None => {
            let ty = function.result->0;
            let schema = ty->JsonSchema_0;
            lemma_resolve_again(
                universe,
                grown,
                Seq::empty(),
                DocumentPart::Result(index),
                schema,
                later,
                later_pending,
                later_part,
            );
        },
    }
}

pub proof fn lemma_methods_call_site(
    universe: Seq<DefinitionModel>,
    types: Seq<GeneratedTypeModel>,
    functions: Seq<FunctionModel>,
    upto: nat,
    function: int,
    parameter: Option<int>,
    later: Seq<GeneratedTypeModel>,
    later_pending: Seq<Seq<char>>,
    later_part: DocumentPart,
)
    requires
        emit_methods(universe, types, functions, upto) matches Ok((grown, _)) && extends(
            grown,
            later,
        ),
        0 <= function < upto <= functions.len(),
        call_site(functions, function, parameter) is Some,
    ensures
        call_site(functions, function, parameter) matches Some(TypeRefModel::JsonSchema(schema))
            && resolve(universe, later, later_pending, later_part, schema) == Ok::<
            _,
            GenerateErrorModel,
        >(
            (
                later,
                emitted_at(
                    emit_methods(universe, types, functions, upto)->Ok_0.1,
                    function,
                    parameter,
                )->0,
            ),
        ),
    decreases upto,
{
    let (grown, methods) = emit_methods(universe, types, functions, (upto - 1) as nat)->Ok_0;
    let step = emit_method(universe, grown, (upto - 1) as usize, functions[upto - 1]);
    let (grown_more, method) = step->Ok_0;
    lemma_emit_methods_grow(universe, types, functions, (upto - 1) as nat);
    lemma_emit_method_grows(universe, grown, (upto - 1) as usize, functions[upto - 1]);
    let all = methods.push(method);
    if function == upto - 1 {
        assert(seq![functions[function]][0] == functions[function]);
        assert(seq![method][0] == method);
        assert(all[function] == method);
        lemma_method_call_site(
            universe,
            grown,
            (upto - 1) as usize,
            functions[function],
            parameter,
            later,
            later_pending,
            later_part,
        );
    } else {
        assert(all[function] == methods[function]);
        lemma_extends_chain(grown, grown_more, later);
        lemma_methods_call_site(
            universe,
            types,
            functions,
            (upto - 1) as nat,
            function,
            parameter,
            later,
            later_pending,
            later_part,
        );
    }
}

pub proof fn lemma_borsh_param_from(params: Seq<ParamModel>, from: nat)
    ensures
        borsh_param_from(params, from) is Some <==> exists|j: int|
            from <= j < params.len() && (#[trigger] params[j]).ty is BorshEncoded,
    decreases params.len() - from,
{
    if from < params.len() {
        lemma_borsh_param_from(params, from + 1);
        if !(params[from as int].ty is BorshEncoded) {
            if exists|j: int|
                from <= j < params.len() && (#[trigger] params[j]).ty is BorshEncoded {
                let j = choose|j: int|
                    from <= j < params.len() && (#[trigger] params[j]).ty is BorshEncoded;
                assert(from + 1 <= j);
            }
        }
    }
}

/// A function fails the check of encodings exactly if it uses the Borsh
/// encoding, and the failure bears its name.
pub proof fn lemma_unsupported_in(function: FunctionModel)
    ensures
        unsupported_in(function) is Some <==> uses_borsh(function),
        unsupported_in(function) matches Some(error) ==> error is UnsupportedEncoding
            && error->UnsupportedEncoding_function == function.name,
{
    lemma_borsh_param_from(function.params, 0);
}

pub proof fn lemma_unsupported_from(functions: Seq<FunctionModel>, from: nat, function: int)
    requires
        from <= function < functions.len(),
        uses_borsh(functions[function]),
    ensures
        unsupported_from(functions, from) matches Some(error) && error is UnsupportedEncoding
            && exists|k: int|
            from <= k <= function && uses_borsh(#[trigger] functions[k]) && functions[k].name
                == error->UnsupportedEncoding_function,
    decreases functions.len() - from,
{
    lemma_unsupported_in(functions[from as int]);
    if unsupported_in(functions[from as int]) is Some {
        assert(uses_borsh(functions[from as int]));
    } else {
        lemma_unsupported_from(functions, from + 1, function);
    }
}

pub open spec fn schema_lies_under(
    universe: Seq<DefinitionModel>,
    pending: Seq<Seq<char>>,
    schema: SchemaModel,
) -> bool {
    &&& is_chain(universe, pending)
    &&& pending.len() > 0 ==> forall|name: Seq<char>| #[trigger]
        mentions(schema, name) ==> refers(universe, pending.last(), name)
}

pub open spec fn fields_lie_under(
    universe: Seq<DefinitionModel>,
    pending: Seq<Seq<char>>,
    fields: Seq<FieldModel>,
) -> bool {
    &&& is_chain(universe, pending)
    &&& pending.len() > 0 ==> forall|name: Seq<char>| #[trigger]
        fields_mention(fields, name, fields.len()) ==> refers(universe, pending.last(), name)
}

pub proof fn lemma_fields_mention(fields: Seq<FieldModel>, name: Seq<char>, upto: nat, k: int)
    requires
        0 <= k < upto <= fields.len(),
        mentions(fields[k].schema, name),
    ensures
        fields_mention(fields, name, upto),
    decreases upto,
{
    if k < upto - 1 {
        lemma_fields_mention(fields, name, (upto - 1) as nat, k);
    }
}

pub proof fn lemma_cycle_closes(
    universe: Seq<DefinitionModel>,
    pending: Seq<Seq<char>>,
    name: Seq<char>,
)
    requires
        is_chain(universe, pending),
        pending.contains(name),
        refers(universe, pending.last(), name),
    ensures
        on_cycle(universe, name),
{
    let k = choose|k: int| 0 <= k < pending.len() && pending[k] == name;
    let chain = pending.subrange(k, pending.len() as int).push(name);
    assert forall|i: int| 0 <= i < chain.len() - 1 implies refers(
        universe,
        #[trigger] chain[i],
        chain[i + 1],
    ) by {
        assert(chain[i] == pending[k + i]);
        if i < chain.len() - 2 {
            assert(chain[i + 1] == pending[k + i + 1]);
        }
    }
    assert(chain.first() == name);
    assert(chain.last() == name);
    assert(chain.len() >= 2 && is_chain(universe, chain) && chain.first() == name && chain.last()
        == name);
}

pub proof fn lemma_resolve_failures(
    universe: Seq<DefinitionModel>,
    types: Seq<GeneratedTypeModel>,
    pending: Seq<Seq<char>>,
    part: DocumentPart,
    schema: SchemaModel,
)
    requires
        schema_lies_under(universe, pending, schema),
    ensures
        resolve(universe, types, pending, part, schema) matches Err(error)
            ==> is_resolution_failure(universe, part, error),
    decreases unvisited(universe, pending, universe.len()), schema, 1nat,
{
    match schema {
        SchemaModel::Primitive(_) => {},
        SchemaModel::Enum(_) => {},
        SchemaModel::Array(item) => {
            assert forall|name: Seq<char>| #[trigger] mentions(*item, name) implies mentions(
                schema,
                name,
            ) by {}
            lemma_resolve_failures(universe, types, pending, part, *item);
        },
        SchemaModel::Reference(name) => {
            assert(mentions(schema, name));
            if declares_definition(types, name) {
            } else if pending.contains(name) {
                lemma_cycle_closes(universe, pending, name);
            } else if let Some(definition) = definition_from(universe, name, 0) {
                lemma_follow_decreases(universe, pending, name);
                let deeper = pending.push(name);
                assert forall|i: int| 0 <= i < deeper.len() - 1 implies refers(
                    universe,
                    #[trigger] deeper[i],
                    deeper[i + 1],
                ) by {
                    if i < pending.len() - 1 {
                        assert(deeper[i] == pending[i]);
                        assert(deeper[i + 1] == pending[i + 1]);
                    } else {
                        assert(deeper[i] == pending.last());
                    }
                }
                assert(deeper.last() == name);
                lemma_definition_failures(universe, types, deeper, part, definition);
            }
        },
        SchemaModel::Object(fields) => {
            assert forall|name: Seq<char>| #[trigger]
                fields_mention(fields, name, fields.len()) implies mentions(schema, name) by {}
            lemma_fields_failures(universe, types, pending, part, fields, fields.len());
        },
    }
}

pub proof fn lemma_definition_failures(
    universe: Seq<DefinitionModel>,
    types: Seq<GeneratedTypeModel>,
    pending: Seq<Seq<char>>,
    part: DocumentPart,
    schema: SchemaModel,
)
    requires
        schema_lies_under(universe, pending, schema),
    ensures
        resolve_definition(universe, types, pending, part, schema) matches Err(error)
            ==> is_resolution_failure(universe, part, error),
    decreases unvisited(universe, pending, universe.len()), schema, 2nat,
{
    match schema {
        SchemaModel::Object(fields) => {
            assert forall|name: Seq<char>| #[trigger]
                fields_mention(fields, name, fields.len()) implies mentions(schema, name) by {}
            lemma_fields_failures(universe, types, pending, part, fields, fields.len());
        },
        SchemaModel::Enum(_) => {},
        _ => {
            lemma_resolve_failures(universe, types, pending, part, schema);
        },
    }
}

pub proof fn lemma_fields_failures(
    universe: Seq<DefinitionModel>,
    types: Seq<GeneratedTypeModel>,
    pending: Seq<Seq<char>>,
    part: DocumentPart,
    fields: Seq<FieldModel>,
    upto: nat,
)
    requires
        fields_lie_under(universe, pending, fields),
    ensures
        resolve_fields(universe, types, pending, part, fields, upto) matches Err(error)
            ==> is_resolution_failure(universe, part, error),
    decreases unvisited(universe, pending, universe.len()), fields, upto,
{
    if upto == 0 || upto > fields.len() {
    } else {
        lemma_fields_failures(universe, types, pending, part, fields, (upto - 1) as nat);
        if let Ok((grown, _)) = resolve_fields(
            universe,
            types,
            pending,
            part,
            fields,
            (upto - 1) as nat,
        ) {
            let schema = fields[upto - 1].schema;
            assert forall|name: Seq<char>| #[trigger] mentions(schema, name) implies fields_mention(
                fields,
                name,
                fields.len(),
            ) by {
                lemma_fields_mention(fields, name, fields.len(), upto - 1);
            }
            lemma_resolve_failures(universe, grown, pending, part, schema);
        }
    }
}

pub proof fn lemma_emit_type_failures(
    universe: Seq<DefinitionModel>,
    types: Seq<GeneratedTypeModel>,
    part: DocumentPart,
    function: Seq<char>,
    parameter: Option<usize>,
    ty: TypeRefModel,
)
    requires
        part is Parameter || part is Result,
    ensures
        emit_type(universe, types, part, function, parameter, ty) matches Err(error) ==> (ty
            is BorshEncoded && error is UnsupportedEncoding) || is_signature_failure(
            universe,
            error,
        ),
{
    if let TypeRefModel::JsonSchema(schema) = ty {
        law_resolution_failures(universe, types, part, schema);
    }
}

pub proof fn lemma_emit_params_failures(
    universe: Seq<DefinitionModel>,
    types: Seq<GeneratedTypeModel>,
    index: usize,
    function: FunctionModel,
    upto: nat,
)
    ensures
        emit_params(universe, types, index, function.name, function.params, upto) matches Err(
            error,
        ) ==> (uses_borsh(function) && error is UnsupportedEncoding) || is_signature_failure(
            universe,
            error,
        ),
    decreases upto,
{
    if upto == 0 || upto > function.params.len() {
    } else {
        lemma_emit_params_failures(universe, types, index, function, (upto - 1) as nat);
        if let Ok((grown, _)) = emit_params(
            universe,
            types,
            index,
            function.name,
            function.params,
            (upto - 1) as nat,
        ) {
            lemma_emit_type_failures(
                universe,
                grown,
                DocumentPart::Parameter(index, (upto - 1) as usize),
                function.name,
                Some((upto - 1) as usize),
                function.params[upto - 1].ty,
            );
        }
    }
}

pub proof fn lemma_emit_method_failures(
    universe: Seq<DefinitionModel>,
    types: Seq<GeneratedTypeModel>,
    index: usize,
    function: FunctionModel,
)
    ensures
        emit_method(universe, types, index, function) matches Err(error) ==> (uses_borsh(function)
            && error is UnsupportedEncoding) || is_signature_failure(universe, error),
{
    lemma_emit_params_failures(universe, types, index, function, function.params.len());
    if let Ok((grown, _)) = emit_params(
        universe,
        types,
        index,
        function.name,
        function.params,
        function.params.len(),
    ) {
        if let Some(ty) = function.result {
            lemma_emit_type_failures(
                universe,
                grown,
                DocumentPart::Result(index),
                function.name,
                None,
                ty,
            );
        }
    }
}

pub proof fn lemma_emit_methods_failures(
    universe: Seq<DefinitionModel>,
    types: Seq<GeneratedTypeModel>,
    functions: Seq<FunctionModel>,
    upto: nat,
)
    ensures
        emit_methods(universe, types, functions, upto) matches Err(error) ==> (exists|i: int|
            0 <= i < functions.len() && uses_borsh(#[trigger] functions[i])) && error
            is UnsupportedEncoding || is_signature_failure(universe, error),
    decreases upto,
{
    if upto == 0 || upto > functions.len() {
    } else {
        lemma_emit_methods_failures(universe, types, functions, (upto - 1) as nat);
        if let Ok((grown, _)) = emit_methods(universe, types, functions, (upto - 1) as nat) {
            lemma_emit_method_failures(universe, grown, (upto - 1) as usize, functions[upto - 1]);
        }
    }
}

pub proof fn lemma_unsupported_from_some(functions: Seq<FunctionModel>, from: nat)
    requires
        unsupported_from(functions, from) is Some,
    ensures
        exists|i: int| 0 <= i < functions.len() && uses_borsh(#[trigger] functions[i]),
    decreases functions.len() - from,
{
    if from < functions.len() {
        lemma_unsupported_in(functions[from as int]);
        if unsupported_in(functions[from as int]) is Some {
            assert(uses_borsh(functions[from as int]));
        } else {
            lemma_unsupported_from_some(functions, from + 1);
        }
    }
}

pub proof fn lemma_declares_definition_later(
    types: Seq<GeneratedTypeModel>,
    later: Seq<GeneratedTypeModel>,
    name: Seq<char>,
)
    requires
        extends(types, later),
        declares_definition(types, name),
    ensures
        declares_definition(later, name),
{
    let i = choose|i: int|
        0 <= i < types.len() && !(#[trigger] types[i]).anonymous && types[i].name == name;
    assert(later[i] == types[i]);
}

pub proof fn lemma_grounded_push(
    universe: Seq<DefinitionModel>,
    types: Seq<GeneratedTypeModel>,
    declaration: GeneratedTypeModel,
)
    requires
        grounded(universe, types),
        !declaration.anonymous ==> stems(universe, types.push(declaration), types.len() as int),
    ensures
        grounded(universe, types.push(declaration)),
{
    let pushed = types.push(declaration);
    assert forall|i: int| 0 <= i < pushed.len() && !(#[trigger] pushed[i]).anonymous implies stems(
        universe,
        pushed,
        i,
    ) by {
        if i < types.len() {
            assert(pushed[i] == types[i]);
            assert(pushed.take(i) =~= types.take(i));
            assert(stems(universe, types, i));
        }
    }
}

pub proof fn lemma_register_shape_grounded(
    universe: Seq<DefinitionModel>,
    types: Seq<GeneratedTypeModel>,
    body: TypeBodyModel,
)
    requires
        grounded(universe, types),
    ensures
        grounded(universe, register_shape(universe, types, body).0),
        extends(types, register_shape(universe, types, body).0),
{
    if shape_from(types, body, 0) is None {
        let name = fresh_name(universe, types, anonymous_candidate(types));
        lemma_grounded_push(universe, types, GeneratedTypeModel { name, anonymous: true, body });
    }
}

pub proof fn lemma_resolve_grounded(
    universe: Seq<DefinitionModel>,
    types: Seq<GeneratedTypeModel>,
    pending: Seq<Seq<char>>,
    part: DocumentPart,
    schema: SchemaModel,
)
    requires
        grounded(universe, types),
    ensures
        resolve(universe, types, pending, part, schema) matches Ok((grown, _)) ==> {
            &&& grounded(universe, grown)
            &&& forall|name: Seq<char>| #[trigger]
                mentions(schema, name) ==> declares_definition(grown, name)
        },
    decreases unvisited(universe, pending, universe.len()), schema, 1nat,
{
    if let Ok((result, _)) = resolve(universe, types, pending, part, schema) {
        match schema {
            SchemaModel::Primitive(_) => {
                assert forall|name: Seq<char>| #[trigger] mentions(schema, name) implies false by {}
            },
            SchemaModel::Array(item) => {
                lemma_resolve_grounded(universe, types, pending, part, *item);
                assert forall|name: Seq<char>| #[trigger]
                    mentions(schema, name) implies declares_definition(result, name) by {
                    assert(mentions(*item, name));
                }
            },
            SchemaModel::Reference(name) => {
                if declares_definition(types, name) {
                    assert forall|other: Seq<char>| #[trigger]
                        mentions(schema, other) implies declares_definition(result, other) by {
                        assert(other == name);
                    }
                } else {
                    let definition = definition_from(universe, name, 0)->0;
                    lemma_follow_decreases(universe, pending, name);
                    let deeper = pending.push(name);
                    lemma_definition_grounded(universe, types, deeper, part, definition);
                    let (grown, body) = resolve_definition(
                        universe,
                        types,
                        deeper,
                        part,
                        definition,
                    )->Ok_0;
                    let declaration = GeneratedTypeModel { name, anonymous: false, body };
                    let pushed = grown.push(declaration);
                    assert(result == pushed);
                    assert(pushed.take(grown.len() as int) =~= grown);
                    assert(pushed[grown.len() as int] == declaration);
                    assert(stems(universe, pushed, grown.len() as int)) by {
                        assert forall|other: Seq<char>| #[trigger]
                            mentions(definition, other) implies declares_definition(
                            pushed.take(grown.len() as int),
                            other,
                        ) by {}
                    }
                    lemma_grounded_push(universe, grown, declaration);
                    assert forall|other: Seq<char>| #[trigger]
                        mentions(schema, other) implies declares_definition(result, other) by {
                        assert(other == name);
                        assert(!pushed[grown.len() as int].anonymous);
                    }
                }
            },
            SchemaModel::Object(fields) => {
                lemma_fields_grounded(universe, types, pending, part, fields, fields.len());
                let (grown, resolved) = resolve_fields(
                    universe,
                    types,
                    pending,
                    part,
                    fields,
                    fields.len(),
                )->Ok_0;
                let body = TypeBodyModel::Struct(resolved);
                lemma_register_shape_grounded(universe, grown, body);
                assert(result == register_shape(universe, grown, body).0);
                assert forall|name: Seq<char>| #[trigger]
                    mentions(schema, name) implies declares_definition(result, name) by {
                    assert(fields_mention(fields, name, fields.len()));
                    lemma_declares_definition_later(grown, result, name);
                }
            },
            SchemaModel::Enum(variants) => {
                lemma_register_shape_grounded(universe, types, TypeBodyModel::Enum(variants));
                assert forall|name: Seq<char>| #[trigger] mentions(schema, name) implies false by {}
            },
        }
    }
}

pub proof fn lemma_definition_grounded(
    universe: Seq<DefinitionModel>,
    types: Seq<GeneratedTypeModel>,
    pending: Seq<Seq<char>>,
    part: DocumentPart,
    schema: SchemaModel,
)
    requires
        grounded(universe, types),
    ensures
        resolve_definition(universe, types, pending, part, schema) matches Ok((grown, _)) ==> {
            &&& grounded(universe, grown)
            &&& forall|name: Seq<char>| #[trigger]
                mentions(schema, name) ==> declares_definition(grown, name)
        },
    decreases unvisited(universe, pending, universe.len()), schema, 2nat,
{
    if let Ok((result, _)) = resolve_definition(universe, types, pending, part, schema) {
        match schema {
            SchemaModel::Object(fields) => {
                lemma_fields_grounded(universe, types, pending, part, fields, fields.len());
                assert forall|name: Seq<char>| #[trigger]
                    mentions(schema, name) implies declares_definition(result, name) by {
                    assert(fields_mention(fields, name, fields.len()));
                }
            },
            SchemaModel::Enum(_) => {
                assert forall|name: Seq<char>| #[trigger] mentions(schema, name) implies false by {}
            },
            _ => {
                lemma_resolve_grounded(universe, types, pending, part, schema);
            },
        }
    }
}

pub proof fn lemma_fields_grounded(
    universe: Seq<DefinitionModel>,
    types: Seq<GeneratedTypeModel>,
    pending: Seq<Seq<char>>,
    part: DocumentPart,
    fields: Seq<FieldModel>,
    upto: nat,
)
    requires
        grounded(universe, types),
    ensures
        resolve_fields(universe, types, pending, part, fields, upto) matches Ok((grown, _)) ==> {
            &&& grounded(universe, grown)
            &&& forall|name: Seq<char>| #[trigger]
                fields_mention(fields, name, upto) ==> declares_definition(grown, name)
        },
    decreases unvisited(universe, pending, universe.len()), fields, upto,
{
    if upto == 0 || upto > fields.len() {
        assert forall|name: Seq<char>| #[trigger]
            fields_mention(fields, name, upto) implies false by {}
    } else if let Ok((result, _)) = resolve_fields(universe, types, pending, part, fields, upto) {
        lemma_fields_grounded(universe, types, pending, part, fields, (upto - 1) as nat);
        let (grown, _) = resolve_fields(
            universe,
            types,
            pending,
            part,
            fields,
            (upto - 1) as nat,
        )->Ok_0;
        let schema = fields[upto - 1].schema;
        lemma_resolve_grounded(universe, grown, pending, part, schema);
        lemma_resolve_grows(universe, grown, pending, part, schema);
        let (grown_more, _) = resolve(universe, grown, pending, part, schema)->Ok_0;
        assert(result == grown_more);
        assert forall|name: Seq<char>| #[trigger]
            fields_mention(fields, name, upto) implies declares_definition(result, name) by {
            if fields_mention(fields, name, (upto - 1) as nat) {
                lemma_declares_definition_later(grown, grown_more, name);
            } else {
                assert(mentions(schema, name));
            }
        }
    }
}

/// Along a chain of references, the types of the definitions stand ever
/// earlier in a grounded registry.
pub proof fn lemma_chain_descends(
    universe: Seq<DefinitionModel>,
    types: Seq<GeneratedTypeModel>,
    chain: Seq<Seq<char>>,
    k: int,
    i: int,
) -> (j: int)
    requires
        grounded(universe, types),
        is_chain(universe, chain),
        0 <= k < chain.len(),
        0 <= i < types.len(),
        !types[i].anonymous,
        types[i].name == chain[0],
    ensures
        0 <= j <= i - k,
        !types[j].anonymous,
        types[j].name == chain[k],
    decreases k,
{
    if k == 0 {
        i
    } else {
        let p = lemma_chain_descends(universe, types, chain, k - 1, i);
        assert(stems(universe, types, p));
        assert(refers(universe, chain[k - 1], chain[k - 1 + 1]));
        let schema = definition_from(universe, chain[k - 1], 0)->0;
        assert(mentions(schema, chain[k]));
        let before = types.take(p);
        assert(declares_definition(before, chain[k]));
        let j = choose|j: int|
            0 <= j < before.len() && !(#[trigger] before[j]).anonymous && before[j].name
                == chain[k];
        assert(before[j] == types[j]);
        j
    }
}

/// No type of a grounded registry is that of a definition on a cycle.
pub proof fn lemma_declared_off_cycle(
    universe: Seq<DefinitionModel>,
    types: Seq<GeneratedTypeModel>,
    name: Seq<char>,
    i: int,
)
    requires
        grounded(universe, types),
        0 <= i < types.len(),
        !types[i].anonymous,
        types[i].name == name,
    ensures
        !on_cycle(universe, name),
    decreases i,
{
    if on_cycle(universe, name) {
        let cycle = choose|cycle: Seq<Seq<char>>|
            #![auto]
            cycle.len() >= 2 && is_chain(universe, cycle) && cycle.first() == name
                && cycle.last() == name;
        let j = lemma_chain_descends(universe, types, cycle, cycle.len() - 1, i);
        lemma_declared_off_cycle(universe, types, name, j);
    }
}

pub proof fn lemma_defined_is_found(universe: Seq<DefinitionModel>, name: Seq<char>, from: nat)
    requires
        exists|i: int| from <= i < universe.len() && (#[trigger] universe[i]).name == name,
    ensures
        definition_from(universe, name, from) matches Some(schema) && exists|k: int|
            0 <= k < universe.len() && (#[trigger] universe[k]).schema == schema,
    decreases universe.len() - from,
{
    if universe[from as int].name != name {
        let i = choose|i: int| from <= i < universe.len() && (#[trigger] universe[i]).name == name;
        assert(from + 1 <= i);
        lemma_defined_is_found(universe, name, from + 1);
    }
}

/// Where every reference names a definition, resolving never fails for want
/// of one.
pub proof fn lemma_resolve_finds_definitions(
    universe: Seq<DefinitionModel>,
    types: Seq<GeneratedTypeModel>,
    pending: Seq<Seq<char>>,
    part: DocumentPart,
    schema: SchemaModel,
)
    requires
        closed(universe),
        refers_within(universe, schema),
    ensures
        resolve(universe, types, pending, part, schema) matches Err(error) ==> !(error
            is InvalidSchemaShape),
    decreases unvisited(universe, pending, universe.len()), schema, 1nat,
{
    match schema {
        SchemaModel::Primitive(_) => {},
        SchemaModel::Enum(_) => {},
        SchemaModel::Array(item) => {
            assert forall|name: Seq<char>| #[trigger] mentions(*item, name) implies defines(
                universe,
                name,
            ) by {
                assert(mentions(schema, name));
            }
            lemma_resolve_finds_definitions(universe, types, pending, part, *item);
        },
        SchemaModel::Reference(name) => {
            assert(mentions(schema, name));
            lemma_defined_is_found(universe, name, 0);
            if !declares_definition(types, name) && !pending.contains(name) {
                let definition = definition_from(universe, name, 0)->0;
                lemma_follow_decreases(universe, pending, name);
                lemma_definition_finds_definitions(
                    universe,
                    types,
                    pending.push(name),
                    part,
                    definition,
                );
            }
        },
        SchemaModel::Object(fields) => {
            assert forall|name: Seq<char>| #[trigger]
                fields_mention(fields, name, fields.len()) implies defines(universe, name) by {
                assert(mentions(schema, name));
            }
            lemma_fields_find_definitions(universe, types, pending, part, fields, fields.len());
        },
    }
}

pub proof fn lemma_definition_finds_definitions(
    universe: Seq<DefinitionModel>,
    types: Seq<GeneratedTypeModel>,
    pending: Seq<Seq<char>>,
    part: DocumentPart,
    schema: SchemaModel,
)
    requires
        closed(universe),
        refers_within(universe, schema),
    ensures
        resolve_definition(universe, types, pending, part, schema) matches Err(error) ==> !(error
            is InvalidSchemaShape),
    decreases unvisited(universe, pending, universe.len()), schema, 2nat,
{
    match schema {
        SchemaModel::Object(fields) => {
            assert forall|name: Seq<char>| #[trigger]
                fields_mention(fields, name, fields.len()) implies defines(universe, name) by {
                assert(mentions(schema, name));
            }
            lemma_fields_find_definitions(universe, types, pending, part, fields, fields.len());
        },
        SchemaModel::Enum(_) => {},
        _ => {
            lemma_resolve_finds_definitions(universe, types, pending, part, schema);
        },
    }
}

pub proof fn lemma_fields_find_definitions(
    universe: Seq<DefinitionModel>,
    types: Seq<GeneratedTypeModel>,
    pending: Seq<Seq<char>>,
    part: DocumentPart,
    fields: Seq<FieldModel>,
    upto: nat,
)
    requires
        closed(universe),
        forall|name: Seq<char>| #[trigger]
            fields_mention(fields, name, fields.len()) ==> defines(universe, name),
    ensures
        resolve_fields(universe, types, pending, part, fields, upto) matches Err(error) ==> !(error
            is InvalidSchemaShape),
    decreases unvisited(universe, pending, universe.len()), fields, upto,
{
    if upto == 0 || upto > fields.len() {
    } else {
        lemma_fields_find_definitions(universe, types, pending, part, fields, (upto - 1) as nat);
        if let Ok((grown, _)) = resolve_fields(
            universe,
            types,
            pending,
            part,
            fields,
            (upto - 1) as nat,
        ) {
            let schema = fields[upto - 1].schema;
            assert forall|name: Seq<char>| #[trigger] mentions(schema, name) implies defines(
                universe,
                name,
            ) by {
                lemma_fields_mention(fields, name, fields.len(), upto - 1);
            }
            lemma_resolve_finds_definitions(universe, grown, pending, part, schema);
        }
    }
}

pub proof fn lemma_emit_type_grounded(
    universe: Seq<DefinitionModel>,
    types: Seq<GeneratedTypeModel>,
    part: DocumentPart,
    function: Seq<char>,
    parameter: Option<usize>,
    ty: TypeRefModel,
)
    requires
        grounded(universe, types),
    ensures
        emit_type(universe, types, part, function, parameter, ty) matches Ok((grown, _))
            ==> grounded(universe, grown),
        (ty matches TypeRefModel::JsonSchema(schema) && closed(universe) && refers_within(
            universe,
            schema,
        )) ==> (emit_type(universe, types, part, function, parameter, ty) matches Err(error)
            ==> !(error is InvalidSchemaShape)),
{
    if let TypeRefModel::JsonSchema(schema) = ty {
        lemma_resolve_grounded(universe, types, Seq::empty(), part, schema);
        if closed(universe) && refers_within(universe, schema) {
            lemma_resolve_finds_definitions(universe, types, Seq::empty(), part, schema);
        }
    }
}

pub proof fn lemma_emit_params_grounded(
    universe: Seq<DefinitionModel>,
    types: Seq<GeneratedTypeModel>,
    index: usize,
    function: FunctionModel,
    upto: nat,
)
    requires
        grounded(universe, types),
    ensures
        emit_params(universe, types, index, function.name, function.params, upto) matches Ok(
            (grown, _),
        ) ==> grounded(universe, grown),
        closed(universe) && signature_refers_within(universe, function) ==> (emit_params(
            universe,
            types,
            index,
            function.name,
            function.params,
            upto,
        ) matches Err(error) ==> !(error is InvalidSchemaShape)),
    decreases upto,
{
    if upto == 0 || upto > function.params.len() {
    } else {
        lemma_emit_params_grounded(universe, types, index, function, (upto - 1) as nat);
        if let Ok((grown, _)) = emit_params(
            universe,
            types,
            index,
            function.name,
            function.params,
            (upto - 1) as nat,
        ) {
            lemma_emit_type_grounded(
                universe,
                grown,
                DocumentPart::Parameter(index, (upto - 1) as usize),
                function.name,
                Some((upto - 1) as usize),
                function.params[upto - 1].ty,
            );
        }
    }
}

pub proof fn lemma_emit_method_grounded(
    universe: Seq<DefinitionModel>,
    types: Seq<GeneratedTypeModel>,
    index: usize,
    function: FunctionModel,
)
    requires
        grounded(universe, types),
    ensures
        emit_method(universe, types, index, function) matches Ok((grown, _)) ==> grounded(
            universe,
            grown,
        ),
        closed(universe) && signature_refers_within(universe, function) ==> (emit_method(
            universe,
            types,
            index,
            function,
        ) matches Err(error) ==> !(error is InvalidSchemaShape)),
{
    lemma_emit_params_grounded(universe, types, index, function, function.params.len());
    if let Ok((grown, _)) = emit_params(
        universe,
        types,
        index,
        function.name,
        function.params,
        function.params.len(),
    ) {
        if let Some(ty) = function.result {
            lemma_emit_type_grounded(
                universe,
                grown,
                DocumentPart::Result(index),
                function.name,
                None,
                ty,
            );
        }
    }
}

pub proof fn lemma_emit_methods_grounded(
    universe: Seq<DefinitionModel>,
    types: Seq<GeneratedTypeModel>,
    functions: Seq<FunctionModel>,
    upto: nat,
)
    requires
        grounded(universe, types),
    ensures
        emit_methods(universe, types, functions, upto) matches Ok((grown, _)) ==> grounded(
            universe,
            grown,
        ),
    decreases upto,
{
    if upto == 0 || upto > functions.len() {
    } else {
        lemma_emit_methods_grounded(universe, types, functions, (upto - 1) as nat);
        if let Ok((grown, _)) = emit_methods(universe, types, functions, (upto - 1) as nat) {
            lemma_emit_method_grounded(universe, grown, (upto - 1) as usize, functions[upto - 1]);
        }
    }
}

pub proof fn lemma_emit_methods_find_definitions(
    universe: Seq<DefinitionModel>,
    types: Seq<GeneratedTypeModel>,
    functions: Seq<FunctionModel>,
    upto: nat,
)
    requires
        grounded(universe, types),
        closed(universe),
        forall|i: int|
            0 <= i < functions.len() ==> signature_refers_within(universe, #[trigger] functions[i]),
    ensures
        emit_methods(universe, types, functions, upto) matches Err(error) ==> !(error
            is InvalidSchemaShape),
    decreases upto,
{
    if upto == 0 || upto > functions.len() {
    } else {
        lemma_emit_methods_find_definitions(universe, types, functions, (upto - 1) as nat);
        lemma_emit_methods_grounded(universe, types, functions, (upto - 1) as nat);
        if let Ok((grown, _)) = emit_methods(universe, types, functions, (upto - 1) as nat) {
            lemma_emit_method_grounded(universe, grown, (upto - 1) as usize, functions[upto - 1]);
        }
    }
}

} // verus!
