//! The resolver: from a schema to a reference to a concrete type, generating
//! each declaration once, in the order of first use.
//!
//! Resolution is stated as a function on mathematical values, [`resolve`]. The
//! registry is the sequence of the types generated so far; resolving never
//! changes what is in it, it only appends, and a resolution that fails
//! leaves it as it was.
use crate::document::{Definition, DefinitionModel};
use crate::error::{DocumentPart, GenerateError, GenerateErrorModel};
use crate::lemmas::{lemma_resolve_grows, lemma_resolve_well_formed};
use crate::schema::{lemma_schema_view, FieldModel, FieldSchema, Schema, SchemaModel};
use crate::text::{copy_texts, holds_text, numbered, numbered_text, same_text, texts_with};
use crate::types::{
    GeneratedField, GeneratedFieldModel, GeneratedType, GeneratedTypeModel, TypeBody,
    TypeBodyModel, TypeReference, TypeReferenceModel,
};
use vstd::prelude::*;

verus! {

/// The schema of the first definition named `name`, from position `from` on.
pub open spec fn definition_from(universe: Seq<DefinitionModel>, name: Seq<char>, from: nat)
    -> Option<SchemaModel>
    decreases universe.len() - from,
{
    if from >= universe.len() {
        None
    } else if universe[from as int].name == name {
        Some(universe[from as int].schema)
    } else {
        definition_from(universe, name, from + 1)
    }
}

/// Whether the universe holds a definition named `name`.
pub open spec fn defines(universe: Seq<DefinitionModel>, name: Seq<char>) -> bool {
    exists|i: int| 0 <= i < universe.len() && (#[trigger] universe[i]).name == name
}

/// Whether the type of the definition named `name` has been generated.
pub open spec fn declares_definition(types: Seq<GeneratedTypeModel>, name: Seq<char>) -> bool {
    exists|i: int|
        0 <= i < types.len() && !(#[trigger] types[i]).anonymous && types[i].name == name
}

/// Whether a generated type bears the name `name`.
pub open spec fn declares_name(types: Seq<GeneratedTypeModel>, name: Seq<char>) -> bool {
    exists|i: int| 0 <= i < types.len() && (#[trigger] types[i]).name == name
}

/// The name of the first anonymous type of the shape `body`, from position
/// `from` on.
pub open spec fn shape_from(types: Seq<GeneratedTypeModel>, body: TypeBodyModel, from: nat)
    -> Option<Seq<char>>
    decreases types.len() - from,
{
    if from >= types.len() {
        None
    } else if types[from as int].anonymous && types[from as int].body == body {
        Some(types[from as int].name)
    } else {
        shape_from(types, body, from + 1)
    }
}

/// The length of the longest name among the first `upto` definitions.
pub open spec fn longest_definition(universe: Seq<DefinitionModel>, upto: nat) -> nat
    decreases upto,
{
    if upto == 0 || upto > universe.len() {
        0
    } else {
        let before = longest_definition(universe, (upto - 1) as nat);
        if universe[upto - 1].name.len() > before {
            universe[upto - 1].name.len()
        } else {
            before
        }
    }
}

/// The length of the longest name among the first `upto` generated types.
pub open spec fn longest_type(types: Seq<GeneratedTypeModel>, upto: nat) -> nat
    decreases upto,
{
    if upto == 0 || upto > types.len() {
        0
    } else {
        let before = longest_type(types, (upto - 1) as nat);
        if types[upto - 1].name.len() > before {
            types[upto - 1].name.len()
        } else {
            before
        }
    }
}

/// A bound on the length of every name that is taken.
pub open spec fn longest_taken(universe: Seq<DefinitionModel>, types: Seq<GeneratedTypeModel>)
    -> nat {
    longest_definition(universe, universe.len()) + longest_type(types, types.len())
}

proof fn lemma_longest_definition(universe: Seq<DefinitionModel>, upto: nat, i: int)
    requires
        0 <= i < upto <= universe.len(),
    ensures
        universe[i].name.len() <= longest_definition(universe, upto),
    decreases upto,
{
    if i < upto - 1 {
        lemma_longest_definition(universe, (upto - 1) as nat, i);
    }
}

proof fn lemma_longest_type(types: Seq<GeneratedTypeModel>, upto: nat, i: int)
    requires
        0 <= i < upto <= types.len(),
    ensures
        types[i].name.len() <= longest_type(types, upto),
    decreases upto,
{
    if i < upto - 1 {
        lemma_longest_type(types, (upto - 1) as nat, i);
    }
}

/// A name that is taken is no longer than [`longest_taken`].
pub proof fn lemma_taken_is_bounded(
    universe: Seq<DefinitionModel>,
    types: Seq<GeneratedTypeModel>,
    name: Seq<char>,
)
    requires
        defines(universe, name) || declares_name(types, name),
    ensures
        name.len() <= longest_taken(universe, types),
{
    if defines(universe, name) {
        let i = choose|i: int| 0 <= i < universe.len() && (#[trigger] universe[i]).name == name;
        lemma_longest_definition(universe, universe.len(), i);
    } else {
        let i = choose|i: int| 0 <= i < types.len() && (#[trigger] types[i]).name == name;
        lemma_longest_type(types, types.len(), i);
    }
}

/// The name that a new anonymous type gets when `candidate` is proposed for
/// it: `candidate` itself, followed by as many `_` as it takes to differ from
/// the name of every definition and of every generated type.
pub open spec fn fresh_name(
    universe: Seq<DefinitionModel>,
    types: Seq<GeneratedTypeModel>,
    candidate: Seq<char>,
) -> Seq<char>
    decreases longest_taken(universe, types) + 1 - candidate.len(),
{
    if defines(universe, candidate) || declares_name(types, candidate) {
        proof {
            lemma_taken_is_bounded(universe, types, candidate);
        }
        fresh_name(universe, types, candidate.push('_'))
    } else {
        candidate
    }
}

/// The name proposed for the anonymous type that would be generated next.
pub open spec fn anonymous_candidate(types: Seq<GeneratedTypeModel>) -> Seq<char> {
    numbered("Anonymous"@, types.len())
}

/// Registers the anonymous shape `body`: the type of that shape if one was
/// generated before, else a new type at the end of the registry.
pub open spec fn register_shape(
    universe: Seq<DefinitionModel>,
    types: Seq<GeneratedTypeModel>,
    body: TypeBodyModel,
) -> (Seq<GeneratedTypeModel>, TypeReferenceModel) {
    match shape_from(types, body, 0) {
        Some(name) => (types, TypeReferenceModel::Named(name)),
        None => {
            let name = fresh_name(universe, types, anonymous_candidate(types));
            (
                types.push(GeneratedTypeModel { name, anonymous: true, body }),
                TypeReferenceModel::Named(name),
            )
        },
    }
}

/// How many of the first `upto` definitions are not being resolved.
pub open spec fn unvisited(universe: Seq<DefinitionModel>, pending: Seq<Seq<char>>, upto: nat)
    -> nat
    decreases upto,
{
    if upto == 0 || upto > universe.len() {
        0
    } else if pending.contains(universe[upto - 1].name) {
        unvisited(universe, pending, (upto - 1) as nat)
    } else {
        unvisited(universe, pending, (upto - 1) as nat) + 1
    }
}

/// A definition that is found is one that the universe holds.
pub proof fn lemma_definition_from_defines(
    universe: Seq<DefinitionModel>,
    name: Seq<char>,
    from: nat,
)
    requires
        definition_from(universe, name, from) is Some,
    ensures
        defines(universe, name),
    decreases universe.len() - from,
{
    if from < universe.len() {
        if universe[from as int].name == name {
        } else {
            lemma_definition_from_defines(universe, name, from + 1);
        }
    }
}

proof fn lemma_unvisited_push(
    universe: Seq<DefinitionModel>,
    pending: Seq<Seq<char>>,
    name: Seq<char>,
    upto: nat,
)
    requires
        upto <= universe.len(),
    ensures
        unvisited(universe, pending.push(name), upto) <= unvisited(universe, pending, upto),
        !pending.contains(name) && (exists|k: int|
            0 <= k < upto && (#[trigger] universe[k]).name == name) ==> unvisited(
            universe,
            pending.push(name),
            upto,
        ) < unvisited(universe, pending, upto),
    decreases upto,
{
    if upto > 0 {
        lemma_unvisited_push(universe, pending, name, (upto - 1) as nat);
        let last = universe[upto - 1].name;
        let pushed = pending.push(name);
        assert(pushed[pending.len() as int] == name);
        if pending.contains(last) {
            let i = choose|i: int| 0 <= i < pending.len() && pending[i] == last;
            assert(pushed[i] == last);
        }
        if pushed.contains(last) && last != name {
            let i = choose|i: int| 0 <= i < pushed.len() && pushed[i] == last;
            assert(pending[i] == last);
        }
    }
}

/// Following a reference to a definition that is not being resolved leaves
/// fewer definitions to visit.
pub proof fn lemma_follow_decreases(
    universe: Seq<DefinitionModel>,
    pending: Seq<Seq<char>>,
    name: Seq<char>,
)
    requires
        !pending.contains(name),
        definition_from(universe, name, 0) is Some,
    ensures
        unvisited(universe, pending.push(name), universe.len()) < unvisited(
            universe,
            pending,
            universe.len(),
        ),
{
    lemma_definition_from_defines(universe, name, 0);
    lemma_unvisited_push(universe, pending, name, universe.len());
}

/// The outcome of resolving `schema` against `universe`, with the types in
/// `types` generated so far and the definitions in `pending` being resolved:
/// the registry after it and the reference to the type of `schema`, or the
/// failure.
///
/// - A scalar and an array are built in; an array resolves its item.
/// - A reference to a definition whose type was generated is that type. One
///   to a definition that is being resolved is a cycle. Else the definition
///   is resolved, its children first, and its type is generated after them
///   under the definition's name.
/// - An inline object or enumeration resolves its fields in order, then
///   registers its shape.
///
/// `part` is where the schema stands in the document; a failure for want of a
/// definition reports it.
pub open spec fn resolve(
    universe: Seq<DefinitionModel>,
    types: Seq<GeneratedTypeModel>,
    pending: Seq<Seq<char>>,
    part: DocumentPart,
    schema: SchemaModel,
) -> Result<(Seq<GeneratedTypeModel>, TypeReferenceModel), GenerateErrorModel>
    decreases unvisited(universe, pending, universe.len()), schema, 1nat,
{
    match schema {
        SchemaModel::Primitive(scalar) => Ok((types, TypeReferenceModel::Scalar(scalar))),
        SchemaModel::Array(item) => match resolve(universe, types, pending, part, *item) {
            Err(error) => Err(error),
            Ok((grown, item_type)) => Ok((grown, TypeReferenceModel::Array(Box::new(item_type)))),
        },
        SchemaModel::Reference(name) => {
            if declares_definition(types, name) {
                Ok((types, TypeReferenceModel::Named(name)))
            } else if pending.contains(name) {
                Err(GenerateErrorModel::CyclicSchema { definition: name })
            } else {
                match definition_from(universe, name, 0) {
                    None => Err(GenerateErrorModel::InvalidSchemaShape(part)),
                    Some(definition) => {
                        proof {
                            lemma_follow_decreases(universe, pending, name);
                        }
                        match resolve_definition(
                            universe,
                            types,
                            pending.push(name),
                            part,
                            definition,
                        ) {
                            Err(error) => Err(error),
                            Ok((grown, body)) => Ok(
                                (
                                    grown.push(
                                        GeneratedTypeModel { name, anonymous: false, body },
                                    ),
                                    TypeReferenceModel::Named(name),
                                ),
                            ),
                        }
                    },
                }
            }
        },
        SchemaModel::Object(fields) => match resolve_fields(
            universe,
            types,
            pending,
            part,
            fields,
            fields.len(),
        ) {
            Err(error) => Err(error),
            Ok((grown, resolved)) => Ok(
                register_shape(universe, grown, TypeBodyModel::Struct(resolved)),
            ),
        },
        SchemaModel::Enum(variants) => Ok(
            register_shape(universe, types, TypeBodyModel::Enum(variants)),
        ),
    }
}

/// The outcome of resolving the schema of a definition: the registry after
/// its children and the shape that the definition's own type is declared
/// with. An object is a record, an enumeration a closed sum, and anything
/// else another name for the type it resolves to.
pub open spec fn resolve_definition(
    universe: Seq<DefinitionModel>,
    types: Seq<GeneratedTypeModel>,
    pending: Seq<Seq<char>>,
    part: DocumentPart,
    schema: SchemaModel,
) -> Result<(Seq<GeneratedTypeModel>, TypeBodyModel), GenerateErrorModel>
    decreases unvisited(universe, pending, universe.len()), schema, 2nat,
{
    match schema {
        SchemaModel::Object(fields) => match resolve_fields(
            universe,
            types,
            pending,
            part,
            fields,
            fields.len(),
        ) {
            Err(error) => Err(error),
            Ok((grown, resolved)) => Ok((grown, TypeBodyModel::Struct(resolved))),
        },
        SchemaModel::Enum(variants) => Ok((types, TypeBodyModel::Enum(variants))),
        _ => match resolve(universe, types, pending, part, schema) {
            Err(error) => Err(error),
            Ok((grown, target)) => Ok((grown, TypeBodyModel::Alias(target))),
        },
    }
}

/// The outcome of resolving the first `upto` of `fields`, in order: the
/// registry after them and the fields of the record, or the first failure.
pub open spec fn resolve_fields(
    universe: Seq<DefinitionModel>,
    types: Seq<GeneratedTypeModel>,
    pending: Seq<Seq<char>>,
    part: DocumentPart,
    fields: Seq<FieldModel>,
    upto: nat,
) -> Result<(Seq<GeneratedTypeModel>, Seq<GeneratedFieldModel>), GenerateErrorModel>
    decreases unvisited(universe, pending, universe.len()), fields, upto,
{
    if upto == 0 || upto > fields.len() {
        Ok((types, Seq::empty()))
    } else {
        match resolve_fields(universe, types, pending, part, fields, (upto - 1) as nat) {
            Err(error) => Err(error),
            Ok((grown, resolved)) => match resolve(
                universe,
                grown,
                pending,
                part,
                fields[upto - 1].schema,
            ) {
                Err(error) => Err(error),
                Ok((grown_more, ty)) => Ok(
                    (
                        grown_more,
                        resolved.push(
                            GeneratedFieldModel {
                                name: fields[upto - 1].name,
                                ty,
                                nullable: !fields[upto - 1].required,
                            },
                        ),
                    ),
                ),
            },
        }
    }
}

/// Whether `after` is `before` with types appended: what was generated stays
/// where it is.
pub open spec fn extends(before: Seq<GeneratedTypeModel>, after: Seq<GeneratedTypeModel>) -> bool {
    &&& before.len() <= after.len()
    &&& forall|i: int| 0 <= i < before.len() ==> after[i] == before[i]
}

/// Whether every generated type that `reference` names is among `types`.
pub open spec fn reference_declared(types: Seq<GeneratedTypeModel>, reference: TypeReferenceModel)
    -> bool
    decreases reference,
{
    match reference {
        TypeReferenceModel::Scalar(_) => true,
        TypeReferenceModel::Array(item) => reference_declared(types, *item),
        TypeReferenceModel::Named(name) => declares_name(types, name),
    }
}

/// Whether every generated type that the fields name is among `types`.
pub open spec fn fields_declared(types: Seq<GeneratedTypeModel>, fields: Seq<GeneratedFieldModel>)
    -> bool {
    forall|k: int| 0 <= k < fields.len() ==> reference_declared(types, (#[trigger] fields[k]).ty)
}

/// Whether every generated type that `body` names is among `types`.
pub open spec fn body_declared(types: Seq<GeneratedTypeModel>, body: TypeBodyModel) -> bool {
    match body {
        TypeBodyModel::Struct(fields) => fields_declared(types, fields),
        TypeBodyModel::Enum(_) => true,
        TypeBodyModel::Alias(target) => reference_declared(types, target),
    }
}

/// The invariant of a registry for the type universe `universe`:
/// - no two types bear the same name;
/// - no two anonymous types have the same shape;
/// - an anonymous type bears the name of no definition;
/// - a type names only types that stand before it.
pub open spec fn well_formed(universe: Seq<DefinitionModel>, types: Seq<GeneratedTypeModel>)
    -> bool {
    &&& forall|i: int, j: int|
        0 <= i < j < types.len() ==> (#[trigger] types[i]).name != (#[trigger] types[j]).name
    &&& forall|i: int, j: int|
        0 <= i < j < types.len() && (#[trigger] types[i]).anonymous && (
        #[trigger] types[j]).anonymous ==> types[i].body != types[j].body
    &&& forall|i: int|
        0 <= i < types.len() && (#[trigger] types[i]).anonymous ==> !defines(
            universe,
            types[i].name,
        )
    &&& forall|i: int|
        0 <= i < types.len() ==> body_declared(types.take(i), (#[trigger] types[i]).body)
}

/// Whether the types of definitions that `after` holds beyond `before` are
/// all of definitions that are not in `pending`.
pub open spec fn appended_outside(
    before: Seq<GeneratedTypeModel>,
    after: Seq<GeneratedTypeModel>,
    pending: Seq<Seq<char>>,
) -> bool {
    forall|i: int|
        before.len() <= i < after.len() && !(#[trigger] after[i]).anonymous ==> !pending.contains(
            after[i].name,
        )
}

/// The value of the outcome of a resolution that left the registry as
/// `registry`.
pub open spec fn resolution_view<T: DeepView>(
    outcome: Result<T, GenerateError>,
    registry: Seq<GeneratedTypeModel>,
) -> Result<(Seq<GeneratedTypeModel>, T::V), GenerateErrorModel> {
    match outcome {
        Ok(value) => Ok((registry, value.deep_view())),
        Err(error) => Err(error.deep_view()),
    }
}

proof fn lemma_resolve_fields_stays(
    universe: Seq<DefinitionModel>,
    types: Seq<GeneratedTypeModel>,
    pending: Seq<Seq<char>>,
    part: DocumentPart,
    fields: Seq<FieldModel>,
    failed: nat,
    upto: nat,
)
    requires
        resolve_fields(universe, types, pending, part, fields, failed) is Err,
        failed <= upto <= fields.len(),
    ensures
        resolve_fields(universe, types, pending, part, fields, upto) == resolve_fields(
            universe,
            types,
            pending,
            part,
            fields,
            failed,
        ),
    decreases upto,
{
    if failed < upto {
        lemma_resolve_fields_stays(
            universe,
            types,
            pending,
            part,
            fields,
            failed,
            (upto - 1) as nat,
        );
    }
}

/// Looks up the schema of the first definition named `name`.
pub fn find_definition<'a>(universe: &'a Vec<Definition>, name: &str) -> (found: Option<
    &'a Schema,
>)
    ensures
        found.deep_view() == definition_from(universe.deep_view(), name@, 0),
{
    let mut i: usize = 0;
    while i < universe.len()
        invariant
            i <= universe.len(),
            definition_from(universe.deep_view(), name@, 0) == definition_from(
                universe.deep_view(),
                name@,
                i as nat,
            ),
        decreases universe.len() - i,
    {
        assert(universe.deep_view()[i as int] == universe[i as int].deep_view());
        if same_text(universe[i].name.as_str(), name) {
            return Some(&universe[i].schema);
        }
        i += 1;
    }
    None
}

/// Whether the universe holds a definition named `name`.
pub fn universe_defines(universe: &Vec<Definition>, name: &str) -> (held: bool)
    ensures
        held == defines(universe.deep_view(), name@),
{
    let mut i: usize = 0;
    while i < universe.len()
        invariant
            i <= universe.len(),
            forall|j: int| 0 <= j < i ==> (#[trigger] universe.deep_view()[j]).name != name@,
        decreases universe.len() - i,
    {
        assert(universe.deep_view()[i as int] == universe[i as int].deep_view());
        if same_text(universe[i].name.as_str(), name) {
            return true;
        }
        i += 1;
    }
    false
}

/// Whether the type of the definition named `name` is among `types`.
pub fn has_definition_type(types: &Vec<GeneratedType>, name: &str) -> (held: bool)
    ensures
        held == declares_definition(types.deep_view(), name@),
{
    let mut i: usize = 0;
    while i < types.len()
        invariant
            i <= types.len(),
            forall|j: int|
                0 <= j < i ==> (#[trigger] types.deep_view()[j]).anonymous
                    || types.deep_view()[j].name != name@,
        decreases types.len() - i,
    {
        assert(types.deep_view()[i as int] == types[i as int].deep_view());
        if !types[i].anonymous && same_text(types[i].name.as_str(), name) {
            return true;
        }
        i += 1;
    }
    false
}

/// Whether one of `types` bears the name `name`.
pub fn has_type_named(types: &Vec<GeneratedType>, name: &str) -> (held: bool)
    ensures
        held == declares_name(types.deep_view(), name@),
{
    let mut i: usize = 0;
    while i < types.len()
        invariant
            i <= types.len(),
            forall|j: int| 0 <= j < i ==> (#[trigger] types.deep_view()[j]).name != name@,
        decreases types.len() - i,
    {
        assert(types.deep_view()[i as int] == types[i as int].deep_view());
        if same_text(types[i].name.as_str(), name) {
            return true;
        }
        i += 1;
    }
    false
}

/// Looks up the name of the first anonymous type of the shape `body`.
pub fn find_shape(types: &Vec<GeneratedType>, body: &TypeBody) -> (found: Option<String>)
    ensures
        found.deep_view() == shape_from(types.deep_view(), body.deep_view(), 0),
{
    let mut i: usize = 0;
    while i < types.len()
        invariant
            i <= types.len(),
            shape_from(types.deep_view(), body.deep_view(), 0) == shape_from(
                types.deep_view(),
                body.deep_view(),
                i as nat,
            ),
        decreases types.len() - i,
    {
        assert(types.deep_view()[i as int] == types[i as int].deep_view());
        if types[i].anonymous && types[i].body.same(body) {
            return Some(types[i].name.clone());
        }
        i += 1;
    }
    None
}

/// Makes `candidate` differ from every name that is taken, by appending `_`.
pub fn fresh_name_text(universe: &Vec<Definition>, types: &Vec<GeneratedType>, candidate: String)
    -> (name: String)
    ensures
        name@ == fresh_name(universe.deep_view(), types.deep_view(), candidate@),
{
    let mut name = candidate;
    while universe_defines(universe, name.as_str()) || has_type_named(types, name.as_str())
        invariant
            fresh_name(universe.deep_view(), types.deep_view(), candidate@) == fresh_name(
                universe.deep_view(),
                types.deep_view(),
                name@,
            ),
        decreases longest_taken(universe.deep_view(), types.deep_view()) + 1 - name@.len(),
    {
        proof {
            lemma_taken_is_bounded(universe.deep_view(), types.deep_view(), name@);
            reveal_strlit("_");
            assert("_"@ =~= seq!['_']);
            assert(name@ + seq!['_'] =~= name@.push('_'));
        }
        name.append("_");
    }
    name
}

/// Whether `after` holds the declarations of `before`, in place, and perhaps
/// more after them.
spec fn keeps(before: Seq<GeneratedType>, after: Seq<GeneratedType>) -> bool {
    &&& before.len() <= after.len()
    &&& forall|i: int| 0 <= i < before.len() ==> #[trigger] after[i] == before[i]
}

/// The registry of one generation: the types generated so far, in the order
/// in which they were first needed. It serves one document and is not shared.
pub struct Resolver {
    types: Vec<GeneratedType>,
}

impl Resolver {
    /// The types generated so far, in emission order.
    pub closed spec fn registry(&self) -> Seq<GeneratedTypeModel> {
        self.types.deep_view()
    }

    /// A resolver that has generated nothing.
    pub fn new() -> (resolver: Resolver)
        ensures
            resolver.registry() == Seq::<GeneratedTypeModel>::empty(),
    {
        let resolver = Resolver { types: Vec::new() };
        assert(resolver.types.deep_view() =~= Seq::empty());
        resolver
    }

    /// The types generated so far, in emission order.
    pub fn types(&self) -> (types: &Vec<GeneratedType>)
        ensures
            types.deep_view() == self.registry(),
    {
        &self.types
    }

    /// Hands over the types that were generated, in emission order.
    pub fn into_types(self) -> (types: Vec<GeneratedType>)
        ensures
            types.deep_view() == self.registry(),
    {
        self.types
    }

    fn register(&mut self, declaration: GeneratedType)
        ensures
            final(self).registry() == old(self).registry().push(declaration.deep_view()),
            keeps(old(self).types@, final(self).types@),
    {
        let ghost before = self.types.deep_view();
        self.types.push(declaration);
        assert(self.types.deep_view() =~= before.push(declaration.deep_view()));
    }

    fn register_shape(&mut self, universe: &Vec<Definition>, body: TypeBody) -> (reference:
        TypeReference)
        ensures
            (final(self).registry(), reference.deep_view()) == register_shape(
                universe.deep_view(),
                old(self).registry(),
                body.deep_view(),
            ),
            keeps(old(self).types@, final(self).types@),
    {
        match find_shape(&self.types, &body) {
            Some(name) => TypeReference::Named(name),
            None => {
                let candidate = numbered_text("Anonymous", self.types.len());
                let name = fresh_name_text(universe, &self.types, candidate);
                self.register(GeneratedType { name: name.clone(), anonymous: true, body });
                TypeReference::Named(name)
            },
        }
    }

    /// Resolves `schema`, which stands at `part` of the document, against
    /// `universe`: returns the reference to its type and appends to the
    /// registry the types that had to be generated for it, children first.
    /// What was in the registry stays, and a well-formed registry stays
    /// well formed. A failure leaves the registry as it was.
    pub fn resolve(
        &mut self,
        universe: &Vec<Definition>,
        part: DocumentPart,
        schema: &Schema,
    ) -> (outcome: Result<TypeReference, GenerateError>)
        ensures
            resolution_view(outcome, final(self).registry()) == resolve(
                universe.deep_view(),
                old(self).registry(),
                Seq::empty(),
                part,
                schema.deep_view(),
            ),
            outcome is Err ==> final(self).registry() == old(self).registry(),
            extends(old(self).registry(), final(self).registry()),
            well_formed(universe.deep_view(), old(self).registry()) ==> well_formed(
                universe.deep_view(),
                final(self).registry(),
            ),
            outcome matches Ok(reference) ==> (well_formed(
                universe.deep_view(),
                old(self).registry(),
            ) ==> reference_declared(final(self).registry(), reference.deep_view())),
    {
        let pending: Vec<String> = Vec::new();
        assert(pending.deep_view() =~= Seq::empty());
        proof {
            lemma_resolve_grows(
                universe.deep_view(),
                self.registry(),
                Seq::empty(),
                part,
                schema.deep_view(),
            );
            if well_formed(universe.deep_view(), self.registry()) {
                lemma_resolve_well_formed(
                    universe.deep_view(),
                    self.registry(),
                    Seq::empty(),
                    part,
                    schema.deep_view(),
                );
            }
        }
        let held = self.types.len();
        let outcome = self.resolve_within(universe, &pending, part, schema);
        match outcome {
            Ok(reference) => Ok(reference),
            Err(error) => {
                self.types.truncate(held);
                assert(self.types@ =~= old(self).types@);
                assert(self.types.deep_view() =~= old(self).types.deep_view());
                Err(error)
            },
        }
    }

    fn resolve_within(
        &mut self,
        universe: &Vec<Definition>,
        pending: &Vec<String>,
        part: DocumentPart,
        schema: &Schema,
    ) -> (outcome: Result<TypeReference, GenerateError>)
        ensures
            resolution_view(outcome, final(self).registry()) == resolve(
                universe.deep_view(),
                old(self).registry(),
                pending.deep_view(),
                part,
                schema.deep_view(),
            ),
            keeps(old(self).types@, final(self).types@),
        decreases unvisited(universe.deep_view(), pending.deep_view(), universe.len() as nat),
            schema,
            1nat,
    {
        match schema {
            Schema::Primitive(scalar) => Ok(TypeReference::Scalar(*scalar)),
            Schema::Array(item) => match self.resolve_within(universe, pending, part, item) {
                Err(error) => Err(error),
                Ok(item_type) => Ok(TypeReference::Array(Box::new(item_type))),
            },
            Schema::Reference(name) => {
                if has_definition_type(&self.types, name.as_str()) {
                    return Ok(TypeReference::Named(name.clone()));
                }
                if holds_text(pending, name.as_str()) {
                    return Err(GenerateError::CyclicSchema { definition: name.clone() });
                }
                match find_definition(universe, name.as_str()) {
                    None => Err(GenerateError::InvalidSchemaShape(part)),
                    Some(definition) => {
                        let deeper = texts_with(pending, name);
                        proof {
                            lemma_follow_decreases(
                                universe.deep_view(),
                                pending.deep_view(),
                                name@,
                            );
                        }
                        match self.resolve_definition(universe, &deeper, part, definition) {
                            Err(error) => Err(error),
                            Ok(body) => {
                                self.register(
                                    GeneratedType { name: name.clone(), anonymous: false, body },
                                );
                                Ok(TypeReference::Named(name.clone()))
                            },
                        }
                    },
                }
            },
            Schema::Object(fields) => {
                proof {
                    lemma_schema_view(*schema);
                }
                match self.resolve_fields(universe, pending, part, fields) {
                    Err(error) => Err(error),
                    Ok(resolved) => Ok(self.register_shape(universe, TypeBody::Struct(resolved))),
                }
            },
            Schema::Enum(variants) => Ok(
                self.register_shape(universe, TypeBody::Enum(copy_texts(variants))),
            ),
        }
    }

    fn resolve_definition(
        &mut self,
        universe: &Vec<Definition>,
        pending: &Vec<String>,
        part: DocumentPart,
        schema: &Schema,
    ) -> (outcome: Result<TypeBody, GenerateError>)
        ensures
            resolution_view(outcome, final(self).registry()) == resolve_definition(
                universe.deep_view(),
                old(self).registry(),
                pending.deep_view(),
                part,
                schema.deep_view(),
            ),
            keeps(old(self).types@, final(self).types@),
        decreases unvisited(universe.deep_view(), pending.deep_view(), universe.len() as nat),
            schema,
            2nat,
    {
        match schema {
            Schema::Object(fields) => {
                proof {
                    lemma_schema_view(*schema);
                }
                match self.resolve_fields(universe, pending, part, fields) {
                    Err(error) => Err(error),
                    Ok(resolved) => Ok(TypeBody::Struct(resolved)),
                }
            },
            Schema::Enum(variants) => Ok(TypeBody::Enum(copy_texts(variants))),
            _ => match self.resolve_within(universe, pending, part, schema) {
                Err(error) => Err(error),
                Ok(target) => Ok(TypeBody::Alias(target)),
            },
        }
    }

    fn resolve_fields(
        &mut self,
        universe: &Vec<Definition>,
        pending: &Vec<String>,
        part: DocumentPart,
        fields: &Vec<FieldSchema>,
    ) -> (outcome: Result<Vec<GeneratedField>, GenerateError>)
        ensures
            resolution_view(outcome, final(self).registry()) == resolve_fields(
                universe.deep_view(),
                old(self).registry(),
                pending.deep_view(),
                part,
                fields.deep_view(),
                fields.len() as nat,
            ),
            keeps(old(self).types@, final(self).types@),
        decreases unvisited(universe.deep_view(), pending.deep_view(), universe.len() as nat),
            fields,
            0nat,
    {
        let ghost start = self.registry();
        let mut resolved: Vec<GeneratedField> = Vec::new();
        let mut i: usize = 0;
        assert(resolved.deep_view() =~= Seq::empty());
        while i < fields.len()
            invariant
                i <= fields.len(),
                start == old(self).registry(),
                keeps(old(self).types@, self.types@),
                resolve_fields(
                    universe.deep_view(),
                    start,
                    pending.deep_view(),
                    part,
                    fields.deep_view(),
                    i as nat,
                ) == Ok::<_, GenerateErrorModel>((self.registry(), resolved.deep_view())),
            decreases fields.len() - i,
        {
            assert(fields.deep_view()[i as int] == fields[i as int].deep_view());
            proof {
                vstd::std_specs::vec::axiom_vec_index_decreases(*fields, i as int);
                assert(decreases_to!(*fields => fields[i as int]));
                assert(decreases_to!(fields[i as int] => fields[i as int].schema));
            }
            match self.resolve_within(universe, pending, part, &fields[i].schema) {
                Err(error) => {
                    proof {
                        assert(resolve_fields(
                            universe.deep_view(),
                            start,
                            pending.deep_view(),
                            part,
                            fields.deep_view(),
                            (i + 1) as nat,
                        ) == Err::<(Seq<GeneratedTypeModel>, Seq<GeneratedFieldModel>), _>(
                            error.deep_view(),
                        ));
                        lemma_resolve_fields_stays(
                            universe.deep_view(),
                            start,
                            pending.deep_view(),
                            part,
                            fields.deep_view(),
                            (i + 1) as nat,
                            fields.len() as nat,
                        );
                    }
                    return Err(error);
                },
                Ok(ty) => {
                    let ghost before = resolved.deep_view();
                    let field = GeneratedField {
                        name: fields[i].name.clone(),
                        ty,
                        nullable: !fields[i].required,
                    };
                    resolved.push(field);
                    assert(resolved.deep_view() =~= before.push(field.deep_view()));
                },
            }
            i += 1;
        }
        Ok(resolved)
    }
}

} // verus!
