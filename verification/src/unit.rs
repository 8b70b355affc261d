//! The output unit: the generated types, then the interface.
use crate::document::{AbiDocument, AbiDocumentModel};
use crate::error::{outcome_view, GenerateError, GenerateErrorModel};
use crate::interface::{
    check_encodings, emit_methods, emit_methods_of, interface_name, interface_name_of,
    method_declared, mirrors, unsupported_from, uses_borsh, GeneratedInterface, InterfaceModel,
};
use crate::laws::{law_borsh_is_rejected, law_unit_follows_document};
use crate::resolver::{well_formed, Resolver};
use crate::types::{GeneratedType, GeneratedTypeModel};
use vstd::prelude::*;

verus! {

/// All that is generated for one document: the type declarations in the
/// order in which they were first needed, and after them the interface.
#[derive(Debug, PartialEq, Eq)]
pub struct OutputUnit {
    pub types: Vec<GeneratedType>,
    pub interface: GeneratedInterface,
}

/// The mathematical value of an [`OutputUnit`].
pub struct OutputUnitModel {
    pub types: Seq<GeneratedTypeModel>,
    pub interface: InterfaceModel,
}

impl DeepView for OutputUnit {
    type V = OutputUnitModel;

    open spec fn deep_view(&self) -> OutputUnitModel {
        OutputUnitModel { types: self.types.deep_view(), interface: self.interface.deep_view() }
    }
}

/// What is generated for `document` under the interface name `contract_name`,
/// or why nothing is.
///
/// A function that uses the Borsh encoding fails the generation before
/// anything is resolved. Else the functions are emitted in order against an
/// empty registry; the types are what the registry holds at the end.
pub open spec fn generated(
    document: AbiDocumentModel,
    contract_name: Seq<char>,
    mod_name: Option<Seq<char>>,
) -> Result<OutputUnitModel, GenerateErrorModel> {
    match unsupported_from(document.functions, 0) {
        Some(error) => Err(error),
        None => match emit_methods(
            document.type_universe,
            Seq::empty(),
            document.functions,
            document.functions.len(),
        ) {
            Err(error) => Err(error),
            Ok((types, methods)) => Ok(
                OutputUnitModel {
                    types,
                    interface: InterfaceModel { name: contract_name, module: mod_name, methods },
                },
            ),
        },
    }
}

/// What is generated for `document` when the caller supplies `explicit_name`
/// for the interface, or none; or why nothing is.
///
/// A use of the Borsh encoding is reported first, then the want of a name.
pub open spec fn bindings_of(document: AbiDocumentModel, explicit_name: Option<Seq<char>>)
    -> Result<OutputUnitModel, GenerateErrorModel> {
    match unsupported_from(document.functions, 0) {
        Some(error) => Err(error),
        None => match interface_name_of(explicit_name, document.name) {
            None => Err(GenerateErrorModel::UnresolvableName),
            Some(name) => generated(document, name, None),
        },
    }
}

/// Whether any function of `document` uses the Borsh encoding.
pub open spec fn uses_borsh_anywhere(document: AbiDocumentModel) -> bool {
    exists|i: int| 0 <= i < document.functions.len() && uses_borsh(#[trigger] document.functions[i])
}

/// Whether `unit` is a unit for `document`: its types form a well-formed
/// registry for the document's type universe, and its interface has one
/// method for each function, in the document's order, each the stub of its
/// function and naming only types that the unit declares.
pub open spec fn follows(document: AbiDocumentModel, unit: OutputUnitModel) -> bool {
    &&& well_formed(document.type_universe, unit.types)
    &&& unit.interface.methods.len() == document.functions.len()
    &&& forall|i: int|
        0 <= i < document.functions.len() ==> mirrors(
            document.functions[i],
            #[trigger] unit.interface.methods[i],
        ) && method_declared(unit.types, unit.interface.methods[i])
}

/// Puts the type declarations and the interface together, types first.
pub fn compose(types: Vec<GeneratedType>, interface: GeneratedInterface) -> (unit: OutputUnit)
    ensures
        unit.deep_view() == (OutputUnitModel {
            types: types.deep_view(),
            interface: interface.deep_view(),
        }),
{
    OutputUnit { types, interface }
}

/// Generates the bindings for `near_abi`: the interface `contract_name` with
/// one method for each function, in the document's order, and the types that
/// their signatures need. With `mod_name` the stubs are meant for a module of
/// that name.
pub fn generate_ext(
    near_abi: &AbiDocument,
    contract_name: String,
    mod_name: Option<String>,
) -> (outcome: Result<OutputUnit, GenerateError>)
    ensures
        outcome_view(outcome) == generated(
            near_abi.deep_view(),
            contract_name@,
            mod_name.deep_view(),
        ),
        outcome matches Ok(unit) ==> follows(near_abi.deep_view(), unit.deep_view()),
        uses_borsh_anywhere(near_abi.deep_view()) ==> (outcome matches Err(error) && error
            is UnsupportedEncoding),
{
    proof {
        law_unit_follows_document(near_abi.deep_view(), contract_name@, mod_name.deep_view());
        if uses_borsh_anywhere(near_abi.deep_view()) {
            let function = choose|i: int|
                0 <= i < near_abi.deep_view().functions.len() && uses_borsh(
                    #[trigger] near_abi.deep_view().functions[i],
                );
            law_borsh_is_rejected(
                near_abi.deep_view(),
                contract_name@,
                mod_name.deep_view(),
                None,
                function,
            );
        }
    }
    match check_encodings(&near_abi.functions) {
        Err(error) => {
            return Err(error);
        },
        Ok(_) => {},
    }
    let mut resolver = Resolver::new();
    match emit_methods_of(&mut resolver, &near_abi.type_universe, &near_abi.functions) {
        Err(error) => Err(error),
        Ok(methods) => Ok(
            compose(
                resolver.into_types(),
                GeneratedInterface { name: contract_name, module: mod_name, methods },
            ),
        ),
    }
}

/// Generates the bindings for `document` under the name that the caller
/// supplied or, without one, under the name derived from the contract name
/// that the document carries.
pub fn generate_bindings(document: &AbiDocument, explicit_name: Option<String>) -> (outcome:
    Result<OutputUnit, GenerateError>)
    ensures
        outcome_view(outcome) == bindings_of(document.deep_view(), explicit_name.deep_view()),
        outcome matches Ok(unit) ==> follows(document.deep_view(), unit.deep_view()),
        uses_borsh_anywhere(document.deep_view()) ==> (outcome matches Err(error) && error
            is UnsupportedEncoding),
{
    proof {
        if uses_borsh_anywhere(document.deep_view()) {
            let function = choose|i: int|
                0 <= i < document.deep_view().functions.len() && uses_borsh(
                    #[trigger] document.deep_view().functions[i],
                );
            law_borsh_is_rejected(
                document.deep_view(),
                Seq::empty(),
                None,
                explicit_name.deep_view(),
                function,
            );
        }
    }
    match check_encodings(&document.functions) {
        Err(error) => {
            return Err(error);
        },
        Ok(_) => {},
    }
    match interface_name(explicit_name, &document.metadata.name) {
        Err(error) => Err(error),
        Ok(name) => generate_ext(document, name, None),
    }
}

} // verus!
