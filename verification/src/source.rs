//! The Rust source text of a generated unit: one declaration after the other
//! in the unit's order, then the interface as a trait of remote-call stubs.
//!
//! The text is laid out plainly; a formatter may rearrange its white space.
//! Names go into it as they are.
use crate::interface::{
    GeneratedInterface, InterfaceModel, Method, MethodModel, Parameter, ParameterModel,
};
use crate::schema::Scalar;
use crate::types::{
    GeneratedField, GeneratedFieldModel, GeneratedType, GeneratedTypeModel, TypeBody,
    TypeBodyModel, TypeReference, TypeReferenceModel,
};
use crate::unit::{OutputUnit, OutputUnitModel};
use vstd::prelude::*;

verus! {

/// The Rust type that stands for a built-in scalar.
pub open spec fn scalar_source(scalar: Scalar) -> Seq<char> {
    match scalar {
        Scalar::Text => "String"@,
        Scalar::Number => "f64"@,
        Scalar::Integer => "i64"@,
        Scalar::Boolean => "bool"@,
        Scalar::Null => "()"@,
    }
}

/// The Rust type that a reference is written as: a scalar's type, a `Vec` of
/// the item's type, or the name of the generated type.
pub open spec fn reference_source(reference: TypeReferenceModel) -> Seq<char>
    decreases reference,
{
    match reference {
        TypeReferenceModel::Scalar(scalar) => scalar_source(scalar),
        TypeReferenceModel::Array(item) => "Vec<"@ + reference_source(*item) + ">"@,
        TypeReferenceModel::Named(name) => name,
    }
}

/// One field of a record, on a line of its own; a nullable field is an
/// `Option`.
pub open spec fn field_source(field: GeneratedFieldModel) -> Seq<char> {
    if field.nullable {
        "    pub "@ + field.name + ": Option<"@ + reference_source(field.ty) + ">,\n"@
    } else {
        "    pub "@ + field.name + ": "@ + reference_source(field.ty) + ",\n"@
    }
}

/// The first `upto` fields of a record, one after the other.
pub open spec fn fields_source(fields: Seq<GeneratedFieldModel>, upto: nat) -> Seq<char>
    decreases upto,
{
    if upto == 0 || upto > fields.len() {
        Seq::empty()
    } else {
        fields_source(fields, (upto - 1) as nat) + field_source(fields[upto - 1])
    }
}

/// One variant of a closed sum, on a line of its own.
pub open spec fn variant_source(variant: Seq<char>) -> Seq<char> {
    "    "@ + variant + ",\n"@
}

/// The first `upto` variants of a closed sum, one after the other.
pub open spec fn variants_source(variants: Seq<Seq<char>>, upto: nat) -> Seq<char>
    decreases upto,
{
    if upto == 0 || upto > variants.len() {
        Seq::empty()
    } else {
        variants_source(variants, (upto - 1) as nat) + variant_source(variants[upto - 1])
    }
}

/// The line of derives that stands before a record and before a closed sum.
pub open spec fn derives_source() -> Seq<char> {
    "#[derive(Clone, PartialEq, Debug, Deserialize, Serialize)]\n"@
}

/// The declaration of one generated type: a `struct`, an `enum` or a `type`
/// alias.
pub open spec fn declaration_source(declared: GeneratedTypeModel) -> Seq<char> {
    match declared.body {
        TypeBodyModel::Struct(fields) => derives_source() + "pub struct "@ + declared.name
            + " {\n"@ + fields_source(fields, fields.len()) + "}\n"@,
        TypeBodyModel::Enum(variants) => derives_source() + "pub enum "@ + declared.name
            + " {\n"@ + variants_source(variants, variants.len()) + "}\n"@,
        TypeBodyModel::Alias(target) => "pub type "@ + declared.name + " = "@ + reference_source(
            target,
        ) + ";\n"@,
    }
}

/// The declarations of the first `upto` types, one after the other.
pub open spec fn declarations_source(types: Seq<GeneratedTypeModel>, upto: nat) -> Seq<char>
    decreases upto,
{
    if upto == 0 || upto > types.len() {
        Seq::empty()
    } else {
        declarations_source(types, (upto - 1) as nat) + declaration_source(types[upto - 1])
    }
}

/// One parameter of a stub, after the receiver.
pub open spec fn parameter_source(parameter: ParameterModel) -> Seq<char> {
    ", "@ + parameter.name + ": "@ + reference_source(parameter.ty)
}

/// The first `upto` parameters of a stub, one after the other.
pub open spec fn parameters_source(parameters: Seq<ParameterModel>, upto: nat) -> Seq<char>
    decreases upto,
{
    if upto == 0 || upto > parameters.len() {
        Seq::empty()
    } else {
        parameters_source(parameters, (upto - 1) as nat) + parameter_source(parameters[upto - 1])
    }
}

/// The result of a stub: an arrow and the type, or nothing.
pub open spec fn result_source(result: Option<TypeReferenceModel>) -> Seq<char> {
    match result {
        Some(reference) => " -> "@ + reference_source(reference),
        None => Seq::empty(),
    }
}

/// One stub, on a line of its own: it borrows the receiver and takes the
/// method's parameters in order.
pub open spec fn method_source(method: MethodModel) -> Seq<char> {
    "    fn "@ + method.name + "(&self"@ + parameters_source(method.params, method.params.len())
        + ")"@ + result_source(method.result) + ";\n"@
}

/// The first `upto` stubs, one after the other.
pub open spec fn methods_source(methods: Seq<MethodModel>, upto: nat) -> Seq<char>
    decreases upto,
{
    if upto == 0 || upto > methods.len() {
        Seq::empty()
    } else {
        methods_source(methods, (upto - 1) as nat) + method_source(methods[upto - 1])
    }
}

/// The attribute that marks the trait as a contract's remote interface; it
/// names the module for the stubs where one is wanted.
pub open spec fn attribute_source(module: Option<Seq<char>>) -> Seq<char> {
    match module {
        Some(name) => "#[near_sdk::ext_contract("@ + name + ")]\n"@,
        None => "#[near_sdk::ext_contract]\n"@,
    }
}

/// The interface: the attribute, then the trait with its stubs in order.
pub open spec fn interface_source(interface: InterfaceModel) -> Seq<char> {
    attribute_source(interface.module) + "pub trait "@ + interface.name + " {\n"@
        + methods_source(interface.methods, interface.methods.len()) + "}\n"@
}

/// The unit: its declarations in order, then the interface.
pub open spec fn unit_source(unit: OutputUnitModel) -> Seq<char> {
    declarations_source(unit.types, unit.types.len()) + interface_source(unit.interface)
}

/// The unit as a file of its own: the import that the derives need, then the
/// unit.
pub open spec fn file_source(unit: OutputUnitModel) -> Seq<char> {
    "use serde::{Deserialize, Serialize};\n"@ + unit_source(unit)
}

/// The Rust type that stands for a built-in scalar.
pub fn scalar_text(scalar: Scalar) -> (text: &'static str)
    ensures
        text@ == scalar_source(scalar),
{
    match scalar {
        Scalar::Text => "String",
        Scalar::Number => "f64",
        Scalar::Integer => "i64",
        Scalar::Boolean => "bool",
        Scalar::Null => "()",
    }
}

/// Appends the Rust type that `reference` is written as.
pub fn write_reference(out: &mut String, reference: &TypeReference)
    ensures
        final(out)@ == old(out)@ + reference_source(reference.deep_view()),
    decreases reference,
{
    match reference {
        TypeReference::Scalar(scalar) => {
            out.append(scalar_text(*scalar));
        },
        TypeReference::Array(item) => {
            out.append("Vec<");
            write_reference(out, item);
            out.append(">");
            assert(out@ =~= old(out)@ + ("Vec<"@ + reference_source(item.deep_view()) + ">"@));
        },
        TypeReference::Named(name) => {
            out.append(name.as_str());
        },
    }
}

/// Appends one field of a record.
pub fn write_field(out: &mut String, field: &GeneratedField)
    ensures
        final(out)@ == old(out)@ + field_source(field.deep_view()),
{
    out.append("    pub ");
    out.append(field.name.as_str());
    if field.nullable {
        out.append(": Option<");
        write_reference(out, &field.ty);
        out.append(">,\n");
    } else {
        out.append(": ");
        write_reference(out, &field.ty);
        out.append(",\n");
    }
    assert(out@ =~= old(out)@ + field_source(field.deep_view()));
}

/// Appends the fields of a record, in order.
pub fn write_fields(out: &mut String, fields: &Vec<GeneratedField>)
    ensures
        final(out)@ == old(out)@ + fields_source(fields.deep_view(), fields.len() as nat),
{
    let mut i: usize = 0;
    assert(out@ =~= old(out)@ + fields_source(fields.deep_view(), 0));
    while i < fields.len()
        invariant
            i <= fields.len(),
            out@ == old(out)@ + fields_source(fields.deep_view(), i as nat),
        decreases fields.len() - i,
    {
        assert(fields.deep_view()[i as int] == fields[i as int].deep_view());
        write_field(out, &fields[i]);
        i += 1;
        assert(out@ =~= old(out)@ + fields_source(fields.deep_view(), i as nat));
    }
}

/// Appends the variants of a closed sum, in order.
pub fn write_variants(out: &mut String, variants: &Vec<String>)
    ensures
        final(out)@ == old(out)@ + variants_source(variants.deep_view(), variants.len() as nat),
{
    let mut i: usize = 0;
    assert(out@ =~= old(out)@ + variants_source(variants.deep_view(), 0));
    while i < variants.len()
        invariant
            i <= variants.len(),
            out@ == old(out)@ + variants_source(variants.deep_view(), i as nat),
        decreases variants.len() - i,
    {
        assert(variants.deep_view()[i as int] == variants[i as int]@);
        let ghost before = out@;
        out.append("    ");
        out.append(variants[i].as_str());
        out.append(",\n");
        assert(out@ =~= before + variant_source(variants[i as int]@));
        i += 1;
        assert(out@ =~= old(out)@ + variants_source(variants.deep_view(), i as nat));
    }
}

/// Appends the declaration of one generated type.
pub fn write_declaration(out: &mut String, declared: &GeneratedType)
    ensures
        final(out)@ == old(out)@ + declaration_source(declared.deep_view()),
{
    match &declared.body {
        TypeBody::Struct(fields) => {
            out.append("#[derive(Clone, PartialEq, Debug, Deserialize, Serialize)]\n");
            out.append("pub struct ");
            out.append(declared.name.as_str());
            out.append(" {\n");
            write_fields(out, fields);
            out.append("}\n");
        },
        TypeBody::Enum(variants) => {
            out.append("#[derive(Clone, PartialEq, Debug, Deserialize, Serialize)]\n");
            out.append("pub enum ");
            out.append(declared.name.as_str());
            out.append(" {\n");
            write_variants(out, variants);
            out.append("}\n");
        },
        TypeBody::Alias(target) => {
            out.append("pub type ");
            out.append(declared.name.as_str());
            out.append(" = ");
            write_reference(out, target);
            out.append(";\n");
        },
    }
    assert(out@ =~= old(out)@ + declaration_source(declared.deep_view()));
}

/// Appends the declarations of `types`, in order.
pub fn write_declarations(out: &mut String, types: &Vec<GeneratedType>)
    ensures
        final(out)@ == old(out)@ + declarations_source(types.deep_view(), types.len() as nat),
{
    let mut i: usize = 0;
    assert(out@ =~= old(out)@ + declarations_source(types.deep_view(), 0));
    while i < types.len()
        invariant
            i <= types.len(),
            out@ == old(out)@ + declarations_source(types.deep_view(), i as nat),
        decreases types.len() - i,
    {
        assert(types.deep_view()[i as int] == types[i as int].deep_view());
        write_declaration(out, &types[i]);
        i += 1;
        assert(out@ =~= old(out)@ + declarations_source(types.deep_view(), i as nat));
    }
}

/// Appends the parameters of a stub, in order.
pub fn write_parameters(out: &mut String, parameters: &Vec<Parameter>)
    ensures
        final(out)@ == old(out)@ + parameters_source(
            parameters.deep_view(),
            parameters.len() as nat,
        ),
{
    let mut i: usize = 0;
    assert(out@ =~= old(out)@ + parameters_source(parameters.deep_view(), 0));
    while i < parameters.len()
        invariant
            i <= parameters.len(),
            out@ == old(out)@ + parameters_source(parameters.deep_view(), i as nat),
        decreases parameters.len() - i,
    {
        assert(parameters.deep_view()[i as int] == parameters[i as int].deep_view());
        let ghost before = out@;
        out.append(", ");
        out.append(parameters[i].name.as_str());
        out.append(": ");
        write_reference(out, &parameters[i].ty);
        assert(out@ =~= before + parameter_source(parameters[i as int].deep_view()));
        i += 1;
        assert(out@ =~= old(out)@ + parameters_source(parameters.deep_view(), i as nat));
    }
}

/// Appends one stub.
pub fn write_method(out: &mut String, method: &Method)
    ensures
        final(out)@ == old(out)@ + method_source(method.deep_view()),
{
    out.append("    fn ");
    out.append(method.name.as_str());
    out.append("(&self");
    write_parameters(out, &method.params);
    out.append(")");
    match &method.result {
        Some(reference) => {
            out.append(" -> ");
            write_reference(out, reference);
        },
        None => {},
    }
    out.append(";\n");
    assert(out@ =~= old(out)@ + method_source(method.deep_view()));
}

/// Appends the stubs of `methods`, in order.
pub fn write_methods(out: &mut String, methods: &Vec<Method>)
    ensures
        final(out)@ == old(out)@ + methods_source(methods.deep_view(), methods.len() as nat),
{
    let mut i: usize = 0;
    assert(out@ =~= old(out)@ + methods_source(methods.deep_view(), 0));
    while i < methods.len()
        invariant
            i <= methods.len(),
            out@ == old(out)@ + methods_source(methods.deep_view(), i as nat),
        decreases methods.len() - i,
    {
        assert(methods.deep_view()[i as int] == methods[i as int].deep_view());
        write_method(out, &methods[i]);
        i += 1;
        assert(out@ =~= old(out)@ + methods_source(methods.deep_view(), i as nat));
    }
}

/// Appends the interface.
pub fn write_interface(out: &mut String, interface: &GeneratedInterface)
    ensures
        final(out)@ == old(out)@ + interface_source(interface.deep_view()),
{
    match &interface.module {
        Some(name) => {
            out.append("#[near_sdk::ext_contract(");
            out.append(name.as_str());
            out.append(")]\n");
        },
        None => {
            out.append("#[near_sdk::ext_contract]\n");
        },
    }
    out.append("pub trait ");
    out.append(interface.name.as_str());
    out.append(" {\n");
    write_methods(out, &interface.methods);
    out.append("}\n");
    assert(out@ =~= old(out)@ + interface_source(interface.deep_view()));
}

/// The Rust source of `unit`: its declarations in order, then the interface.
pub fn unit_text(unit: &OutputUnit) -> (text: String)
    ensures
        text@ == unit_source(unit.deep_view()),
{
    let mut text = String::new();
    write_declarations(&mut text, &unit.types);
    write_interface(&mut text, &unit.interface);
    assert(text@ =~= unit_source(unit.deep_view()));
    text
}

/// The Rust source of `unit` as a file of its own.
pub fn file_text(unit: &OutputUnit) -> (text: String)
    ensures
        text@ == file_source(unit.deep_view()),
{
    let mut text = String::from_str("use serde::{Deserialize, Serialize};\n");
    write_declarations(&mut text, &unit.types);
    write_interface(&mut text, &unit.interface);
    assert(text@ =~= file_source(unit.deep_view()));
    text
}

} // verus!
