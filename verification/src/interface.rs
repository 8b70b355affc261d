//! The interface: one method for each function of the document, in the
//! document's order, under one name.
use crate::document::{
    Definition, DefinitionModel, FunctionModel, FunctionSpec, ParamModel, ParamSpec, TypeRef,
    TypeRefModel,
};
use crate::error::{DocumentPart, GenerateError, GenerateErrorModel};
use crate::resolver::{
    extends, reference_declared, resolution_view, resolve, well_formed, Resolver,
};
use crate::text::{numbered, numbered_text};
use crate::types::{GeneratedTypeModel, TypeReference, TypeReferenceModel};
use convert_case::{Case, Casing};
use vstd::prelude::*;

verus! {

/// One parameter of a method.
#[derive(Debug, PartialEq, Eq)]
pub struct Parameter {
    pub name: String,
    pub ty: TypeReference,
}

/// One method of the interface: the stub of one function of the contract.
#[derive(Debug, PartialEq, Eq)]
pub struct Method {
    pub name: String,
    pub params: Vec<Parameter>,
    pub result: Option<TypeReference>,
}

/// The one interface generated for a document. Where `module` is given, the
/// stubs are to be placed in a module of that name.
#[derive(Debug, PartialEq, Eq)]
pub struct GeneratedInterface {
    pub name: String,
    pub module: Option<String>,
    pub methods: Vec<Method>,
}

/// The mathematical value of a [`Parameter`].
pub struct ParameterModel {
    pub name: Seq<char>,
    pub ty: TypeReferenceModel,
}

/// The mathematical value of a [`Method`].
pub struct MethodModel {
    pub name: Seq<char>,
    pub params: Seq<ParameterModel>,
    pub result: Option<TypeReferenceModel>,
}

/// The mathematical value of a [`GeneratedInterface`].
pub struct InterfaceModel {
    pub name: Seq<char>,
    pub module: Option<Seq<char>>,
    pub methods: Seq<MethodModel>,
}

impl DeepView for Parameter {
    type V = ParameterModel;

    open spec fn deep_view(&self) -> ParameterModel {
        ParameterModel { name: self.name@, ty: self.ty.deep_view() }
    }
}

impl DeepView for Method {
    type V = MethodModel;

    open spec fn deep_view(&self) -> MethodModel {
        MethodModel {
            name: self.name@,
            params: self.params.deep_view(),
            result: self.result.deep_view(),
        }
    }
}

impl DeepView for GeneratedInterface {
    type V = InterfaceModel;

    open spec fn deep_view(&self) -> InterfaceModel {
        InterfaceModel {
            name: self.name@,
            module: self.module.deep_view(),
            methods: self.methods.deep_view(),
        }
    }
}

/// The upper-camel-case form of a name, as `convert_case` computes it.
pub uninterp spec fn upper_camel(name: Seq<char>) -> Seq<char>;

/// Calls `Casing::to_case` of `convert_case` with `Case::UpperCamel`, which
/// splits the text into words and joins them again, each capitalised. The
/// contract only names the result: it is a function of the text alone.
#[verifier::external_body]
fn to_upper_camel(name: &str) -> (converted: String)
    ensures
        converted@ == upper_camel(name@),
{
    name.to_case(Case::UpperCamel)
}

/// The interface name that a contract name gives once it is in upper camel
/// case: the fixed prefix `Ext`, then the name.
pub open spec fn prefixed(camel: Seq<char>) -> Seq<char> {
    "Ext"@ + camel
}

/// Puts the fixed prefix `Ext` before a contract name that is in upper camel
/// case.
pub fn prefixed_name(camel: &str) -> (name: String)
    ensures
        name@ == prefixed(camel@),
{
    let mut name = String::from_str("Ext");
    name.append(camel);
    name
}

/// The name of the interface: the name that the caller supplied, if any; else
/// the one derived from the contract name that the document carries; else
/// none.
pub open spec fn interface_name_of(explicit: Option<Seq<char>>, contract: Option<Seq<char>>)
    -> Option<Seq<char>> {
    match explicit {
        Some(name) => Some(name),
        None => match contract {
            Some(contract_name) => Some(prefixed(upper_camel(contract_name))),
            None => None,
        },
    }
}

/// Settles the name of the interface; fails where none was supplied and the
/// document carries no contract name.
pub fn interface_name(explicit: Option<String>, contract: &Option<String>) -> (outcome: Result<
    String,
    GenerateError,
>)
    ensures
        match outcome {
            Ok(name) => interface_name_of(explicit.deep_view(), contract.deep_view()) == Some(
                name@,
            ),
            Err(error) => interface_name_of(explicit.deep_view(), contract.deep_view()) is None
                && error.deep_view() == GenerateErrorModel::UnresolvableName,
        },
{
    match explicit {
        Some(name) => Ok(name),
        None => match contract {
            Some(contract_name) => {
                let camel = to_upper_camel(contract_name.as_str());
                Ok(prefixed_name(camel.as_str()))
            },
            None => Err(GenerateError::UnresolvableName),
        },
    }
}

/// The name of the parameter at position `index`: its own where it has one,
/// else `arg` followed by the position.
pub open spec fn parameter_name_of(name: Option<Seq<char>>, index: nat) -> Seq<char> {
    match name {
        Some(name) => name,
        None => numbered("arg"@, index),
    }
}

/// Names the parameter at position `index`.
pub fn parameter_name(name: &Option<String>, index: usize) -> (chosen: String)
    ensures
        chosen@ == parameter_name_of(name.deep_view(), index as nat),
{
    match name {
        Some(name) => name.clone(),
        None => numbered_text("arg", index),
    }
}

/// The position of the first Borsh-encoded parameter, from position `from`
/// on.
pub open spec fn borsh_param_from(params: Seq<ParamModel>, from: nat) -> Option<nat>
    decreases params.len() - from,
{
    if from >= params.len() {
        None
    } else if params[from as int].ty is BorshEncoded {
        Some(from)
    } else {
        borsh_param_from(params, from + 1)
    }
}

/// Whether `function` uses the Borsh encoding anywhere in its signature.
pub open spec fn uses_borsh(function: FunctionModel) -> bool {
    ||| exists|j: int|
        0 <= j < function.params.len() && (#[trigger] function.params[j]).ty is BorshEncoded
    ||| function.result matches Some(ty) && ty is BorshEncoded
}

/// The failure that `function` causes if it uses the Borsh encoding: it names
/// the function and the first parameter that does, or no parameter where only
/// the result does.
pub open spec fn unsupported_in(function: FunctionModel) -> Option<GenerateErrorModel> {
    match borsh_param_from(function.params, 0) {
        Some(index) => Some(
            GenerateErrorModel::UnsupportedEncoding {
                function: function.name,
                parameter: Some(index as usize),
            },
        ),
        None => match function.result {
            Some(TypeRefModel::BorshEncoded(_)) => Some(
                GenerateErrorModel::UnsupportedEncoding {
                    function: function.name,
                    parameter: None,
                },
            ),
            _ => None,
        },
    }
}

/// The failure of the first function that uses the Borsh encoding, from
/// position `from` on.
pub open spec fn unsupported_from(functions: Seq<FunctionModel>, from: nat) -> Option<
    GenerateErrorModel,
>
    decreases functions.len() - from,
{
    if from >= functions.len() {
        None
    } else if unsupported_in(functions[from as int]) is Some {
        unsupported_in(functions[from as int])
    } else {
        unsupported_from(functions, from + 1)
    }
}

/// Looks for the first Borsh-encoded parameter.
pub fn find_borsh_param(params: &Vec<ParamSpec>) -> (found: Option<usize>)
    ensures
        match found {
            Some(index) => borsh_param_from(params.deep_view(), 0) == Some(index as nat),
            None => borsh_param_from(params.deep_view(), 0) is None,
        },
{
    let mut i: usize = 0;
    while i < params.len()
        invariant
            i <= params.len(),
            borsh_param_from(params.deep_view(), 0) == borsh_param_from(
                params.deep_view(),
                i as nat,
            ),
        decreases params.len() - i,
    {
        assert(params.deep_view()[i as int] == params[i as int].deep_view());
        match &params[i].ty {
            TypeRef::BorshEncoded(_) => {
                return Some(i);
            },
            TypeRef::JsonSchema(_) => {},
        }
        i += 1;
    }
    None
}

/// Checks one function for the Borsh encoding.
pub fn check_function_encoding(function: &FunctionSpec) -> (outcome: Result<(), GenerateError>)
    ensures
        match outcome {
            Ok(_) => unsupported_in(function.deep_view()) is None,
            Err(error) => unsupported_in(function.deep_view()) == Some(error.deep_view()),
        },
{
    match find_borsh_param(&function.params) {
        Some(index) => Err(
            GenerateError::UnsupportedEncoding {
                function: function.name.clone(),
                parameter: Some(index),
            },
        ),
        None => match &function.result {
            Some(TypeRef::BorshEncoded(_)) => Err(
                GenerateError::UnsupportedEncoding {
                    function: function.name.clone(),
                    parameter: None,
                },
            ),
            _ => Ok(()),
        },
    }
}

/// Checks every function for the Borsh encoding, in order, before anything
/// is generated.
pub fn check_encodings(functions: &Vec<FunctionSpec>) -> (outcome: Result<(), GenerateError>)
    ensures
        match outcome {
            Ok(_) => unsupported_from(functions.deep_view(), 0) is None,
            Err(error) => unsupported_from(functions.deep_view(), 0) == Some(error.deep_view()),
        },
{
    let mut i: usize = 0;
    while i < functions.len()
        invariant
            i <= functions.len(),
            unsupported_from(functions.deep_view(), 0) == unsupported_from(
                functions.deep_view(),
                i as nat,
            ),
        decreases functions.len() - i,
    {
        assert(functions.deep_view()[i as int] == functions[i as int].deep_view());
        match check_function_encoding(&functions[i]) {
            Err(error) => {
                return Err(error);
            },
            Ok(_) => {},
        }
        i += 1;
    }
    Ok(())
}

/// The outcome of resolving the type of a parameter or of a result of the
/// function named `function`; `parameter` is the parameter's position, or
/// none for the result.
pub open spec fn emit_type(
    universe: Seq<DefinitionModel>,
    types: Seq<GeneratedTypeModel>,
    part: DocumentPart,
    function: Seq<char>,
    parameter: Option<usize>,
    ty: TypeRefModel,
) -> Result<(Seq<GeneratedTypeModel>, TypeReferenceModel), GenerateErrorModel> {
    match ty {
        TypeRefModel::JsonSchema(schema) => resolve(universe, types, Seq::empty(), part, schema),
        TypeRefModel::BorshEncoded(_) => Err(
            GenerateErrorModel::UnsupportedEncoding { function, parameter },
        ),
    }
}

/// The outcome of emitting the first `upto` parameters of function `index`,
/// in order.
pub open spec fn emit_params(
    universe: Seq<DefinitionModel>,
    types: Seq<GeneratedTypeModel>,
    index: usize,
    function: Seq<char>,
    params: Seq<ParamModel>,
    upto: nat,
) -> Result<(Seq<GeneratedTypeModel>, Seq<ParameterModel>), GenerateErrorModel>
    decreases upto,
{
    if upto == 0 || upto > params.len() {
        Ok((types, Seq::empty()))
    } else {
        match emit_params(universe, types, index, function, params, (upto - 1) as nat) {
            Err(error) => Err(error),
            Ok((grown, emitted)) => match emit_type(
                universe,
                grown,
                DocumentPart::Parameter(index, (upto - 1) as usize),
                function,
                Some((upto - 1) as usize),
                params[upto - 1].ty,
            ) {
                Err(error) => Err(error),
                Ok((grown_more, ty)) => Ok(
                    (
                        grown_more,
                        emitted.push(
                            ParameterModel {
                                name: parameter_name_of(params[upto - 1].name, (upto - 1) as nat),
                                ty,
                            },
                        ),
                    ),
                ),
            },
        }
    }
}

/// The outcome of emitting the result of function `index`.
pub open spec fn emit_result(
    universe: Seq<DefinitionModel>,
    types: Seq<GeneratedTypeModel>,
    index: usize,
    function: Seq<char>,
    result: Option<TypeRefModel>,
) -> Result<(Seq<GeneratedTypeModel>, Option<TypeReferenceModel>), GenerateErrorModel> {
    match result {
        None => Ok((types, None)),
        Some(ty) => match emit_type(
            universe,
            types,
            DocumentPart::Result(index),
            function,
            None,
            ty,
        ) {
            Err(error) => Err(error),
            Ok((grown, resolved)) => Ok((grown, Some(resolved))),
        },
    }
}

/// The outcome of emitting the method of function `index`: its parameters in
/// order, then its result. The method bears the function's name as it is.
pub open spec fn emit_method(
    universe: Seq<DefinitionModel>,
    types: Seq<GeneratedTypeModel>,
    index: usize,
    function: FunctionModel,
) -> Result<(Seq<GeneratedTypeModel>, MethodModel), GenerateErrorModel> {
    match emit_params(
        universe,
        types,
        index,
        function.name,
        function.params,
        function.params.len(),
    ) {
        Err(error) => Err(error),
        Ok((grown, params)) => match emit_result(
            universe,
            grown,
            index,
            function.name,
            function.result,
        ) {
            Err(error) => Err(error),
            Ok((grown_more, result)) => Ok(
                (grown_more, MethodModel { name: function.name, params, result }),
            ),
        },
    }
}

/// The outcome of emitting the methods of the first `upto` functions, in
/// order: the registry after them and the methods, or the first failure.
pub open spec fn emit_methods(
    universe: Seq<DefinitionModel>,
    types: Seq<GeneratedTypeModel>,
    functions: Seq<FunctionModel>,
    upto: nat,
) -> Result<(Seq<GeneratedTypeModel>, Seq<MethodModel>), GenerateErrorModel>
    decreases upto,
{
    if upto == 0 || upto > functions.len() {
        Ok((types, Seq::empty()))
    } else {
        match emit_methods(universe, types, functions, (upto - 1) as nat) {
            Err(error) => Err(error),
            Ok((grown, methods)) => match emit_method(
                universe,
                grown,
                (upto - 1) as usize,
                functions[upto - 1],
            ) {
                Err(error) => Err(error),
                Ok((grown_more, method)) => Ok((grown_more, methods.push(method))),
            },
        }
    }
}

/// Whether `method` is the stub of `function`: it bears the function's name,
/// and has a parameter for each of the function's parameters, in order, each
/// under the parameter's own name or, for want of one, under `arg` and its
/// position; and it has a result exactly if the function has one.
pub open spec fn mirrors(function: FunctionModel, method: MethodModel) -> bool {
    &&& method.name == function.name
    &&& method.params.len() == function.params.len()
    &&& forall|a: int|
        0 <= a < method.params.len() ==> (#[trigger] method.params[a]).name == parameter_name_of(
            function.params[a].name,
            a as nat,
        )
    &&& method.result is Some <==> function.result is Some
}

/// Whether every generated type that the signature of `method` names is
/// among `types`.
pub open spec fn method_declared(types: Seq<GeneratedTypeModel>, method: MethodModel) -> bool {
    &&& forall|a: int|
        0 <= a < method.params.len() ==> reference_declared(
            types,
            (#[trigger] method.params[a]).ty,
        )
    &&& method.result matches Some(result) ==> reference_declared(types, result)
}

proof fn lemma_emit_params_stays(
    universe: Seq<DefinitionModel>,
    types: Seq<GeneratedTypeModel>,
    index: usize,
    function: Seq<char>,
    params: Seq<ParamModel>,
    failed: nat,
    upto: nat,
)
    requires
        emit_params(universe, types, index, function, params, failed) is Err,
        failed <= upto <= params.len(),
    ensures
        emit_params(universe, types, index, function, params, upto) == emit_params(
            universe,
            types,
            index,
            function,
            params,
            failed,
        ),
    decreases upto,
{
    if failed < upto {
        lemma_emit_params_stays(
            universe,
            types,
            index,
            function,
            params,
            failed,
            (upto - 1) as nat,
        );
    }
}

proof fn lemma_emit_methods_stays(
    universe: Seq<DefinitionModel>,
    types: Seq<GeneratedTypeModel>,
    functions: Seq<FunctionModel>,
    failed: nat,
    upto: nat,
)
    requires
        emit_methods(universe, types, functions, failed) is Err,
        failed <= upto <= functions.len(),
    ensures
        emit_methods(universe, types, functions, upto) == emit_methods(
            universe,
            types,
            functions,
            failed,
        ),
    decreases upto,
{
    if failed < upto {
        lemma_emit_methods_stays(universe, types, functions, failed, (upto - 1) as nat);
    }
}

/// Resolves the type of a parameter or of a result.
pub fn emit_type_of(
    resolver: &mut Resolver,
    universe: &Vec<Definition>,
    part: DocumentPart,
    function: &String,
    parameter: Option<usize>,
    ty: &TypeRef,
) -> (outcome: Result<TypeReference, GenerateError>)
    ensures
        resolution_view(outcome, final(resolver).registry()) == emit_type(
            universe.deep_view(),
            old(resolver).registry(),
            part,
            function@,
            parameter,
            ty.deep_view(),
        ),
        extends(old(resolver).registry(), final(resolver).registry()),
        well_formed(universe.deep_view(), old(resolver).registry()) ==> well_formed(
            universe.deep_view(),
            final(resolver).registry(),
        ),
{
    match ty {
        TypeRef::JsonSchema(schema) => resolver.resolve(universe, part, schema),
        TypeRef::BorshEncoded(_) => Err(
            GenerateError::UnsupportedEncoding { function: function.clone(), parameter },
        ),
    }
}

/// Emits the parameters of function `index`, in order.
pub fn emit_params_of(
    resolver: &mut Resolver,
    universe: &Vec<Definition>,
    index: usize,
    function: &FunctionSpec,
) -> (outcome: Result<Vec<Parameter>, GenerateError>)
    ensures
        resolution_view(outcome, final(resolver).registry()) == emit_params(
            universe.deep_view(),
            old(resolver).registry(),
            index,
            function.name@,
            function.params.deep_view(),
            function.params.len() as nat,
        ),
        extends(old(resolver).registry(), final(resolver).registry()),
        well_formed(universe.deep_view(), old(resolver).registry()) ==> well_formed(
            universe.deep_view(),
            final(resolver).registry(),
        ),
{
    let ghost start = resolver.registry();
    let params = &function.params;
    let mut emitted: Vec<Parameter> = Vec::new();
    let mut i: usize = 0;
    assert(emitted.deep_view() =~= Seq::empty());
    while i < params.len()
        invariant
            i <= params.len(),
            start == old(resolver).registry(),
            extends(start, resolver.registry()),
            well_formed(universe.deep_view(), start) ==> well_formed(
                universe.deep_view(),
                resolver.registry(),
            ),
            *params == function.params,
            emit_params(
                universe.deep_view(),
                start,
                index,
                function.name@,
                params.deep_view(),
                i as nat,
            ) == Ok::<_, GenerateErrorModel>((resolver.registry(), emitted.deep_view())),
        decreases params.len() - i,
    {
        assert(params.deep_view()[i as int] == params[i as int].deep_view());
        match emit_type_of(
            resolver,
            universe,
            DocumentPart::Parameter(index, i),
            &function.name,
            Some(i),
            &params[i].ty,
        ) {
            Err(error) => {
                proof {
                    assert(emit_params(
                        universe.deep_view(),
                        start,
                        index,
                        function.name@,
                        params.deep_view(),
                        (i + 1) as nat,
                    ) == Err::<(Seq<GeneratedTypeModel>, Seq<ParameterModel>), _>(
                        error.deep_view(),
                    ));
                    lemma_emit_params_stays(
                        universe.deep_view(),
                        start,
                        index,
                        function.name@,
                        params.deep_view(),
                        (i + 1) as nat,
                        params.len() as nat,
                    );
                }
                return Err(error);
            },
            Ok(ty) => {
                let ghost before = emitted.deep_view();
                let parameter = Parameter { name: parameter_name(&params[i].name, i), ty };
                emitted.push(parameter);
                assert(emitted.deep_view() =~= before.push(parameter.deep_view()));
            },
        }
        i += 1;
    }
    Ok(emitted)
}

/// Emits the method of function `index`.
pub fn emit_method_of(
    resolver: &mut Resolver,
    universe: &Vec<Definition>,
    index: usize,
    function: &FunctionSpec,
) -> (outcome: Result<Method, GenerateError>)
    ensures
        resolution_view(outcome, final(resolver).registry()) == emit_method(
            universe.deep_view(),
            old(resolver).registry(),
            index,
            function.deep_view(),
        ),
        extends(old(resolver).registry(), final(resolver).registry()),
        well_formed(universe.deep_view(), old(resolver).registry()) ==> well_formed(
            universe.deep_view(),
            final(resolver).registry(),
        ),
{
    let params = match emit_params_of(resolver, universe, index, function) {
        Err(error) => {
            return Err(error);
        },
        Ok(params) => params,
    };
    let result = match &function.result {
        None => None,
        Some(ty) => match emit_type_of(
            resolver,
            universe,
            DocumentPart::Result(index),
            &function.name,
            None,
            ty,
        ) {
            Err(error) => {
                return Err(error);
            },
            Ok(resolved) => Some(resolved),
        },
    };
    Ok(Method { name: function.name.clone(), params, result })
}

/// Emits the methods of `functions`, in order.
pub fn emit_methods_of(
    resolver: &mut Resolver,
    universe: &Vec<Definition>,
    functions: &Vec<FunctionSpec>,
) -> (outcome: Result<Vec<Method>, GenerateError>)
    ensures
        resolution_view(outcome, final(resolver).registry()) == emit_methods(
            universe.deep_view(),
            old(resolver).registry(),
            functions.deep_view(),
            functions.len() as nat,
        ),
        extends(old(resolver).registry(), final(resolver).registry()),
        well_formed(universe.deep_view(), old(resolver).registry()) ==> well_formed(
            universe.deep_view(),
            final(resolver).registry(),
        ),
{
    let ghost start = resolver.registry();
    let mut methods: Vec<Method> = Vec::new();
    let mut i: usize = 0;
    assert(methods.deep_view() =~= Seq::empty());
    while i < functions.len()
        invariant
            i <= functions.len(),
            start == old(resolver).registry(),
            extends(start, resolver.registry()),
            well_formed(universe.deep_view(), start) ==> well_formed(
                universe.deep_view(),
                resolver.registry(),
            ),
            emit_methods(universe.deep_view(), start, functions.deep_view(), i as nat) == Ok::<
                _,
                GenerateErrorModel,
            >((resolver.registry(), methods.deep_view())),
        decreases functions.len() - i,
    {
        assert(functions.deep_view()[i as int] == functions[i as int].deep_view());
        match emit_method_of(resolver, universe, i, &functions[i]) {
            Err(error) => {
                proof {
                    assert(emit_methods(
                        universe.deep_view(),
                        start,
                        functions.deep_view(),
                        (i + 1) as nat,
                    ) == Err::<(Seq<GeneratedTypeModel>, Seq<MethodModel>), _>(
                        error.deep_view(),
                    ));
                    lemma_emit_methods_stays(
                        universe.deep_view(),
                        start,
                        functions.deep_view(),
                        (i + 1) as nat,
                        functions.len() as nat,
                    );
                }
                return Err(error);
            },
            Ok(method) => {
                let ghost before = methods.deep_view();
                methods.push(method);
                assert(methods.deep_view() =~= before.push(method.deep_view()));
            },
        }
        i += 1;
    }
    Ok(methods)
}

} // verus!
