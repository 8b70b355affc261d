//! What generation produces: references to types, and the declarations of the
//! types that had to be generated.
use crate::schema::Scalar;
use crate::text::{same_text, same_texts};
use vstd::prelude::*;

verus! {

/// A use of a type: what a parameter, a result or a field is declared to be.
#[derive(Debug, PartialEq, Eq)]
pub enum TypeReference {
    /// A built-in scalar; nothing is declared for it.
    Scalar(Scalar),
    /// The built-in array of another type; nothing is declared for it.
    Array(Box<TypeReference>),
    /// The generated type of that name.
    Named(String),
}

/// One field of a generated record. A field that its schema does not require
/// is nullable.
#[derive(Debug, PartialEq, Eq)]
pub struct GeneratedField {
    pub name: String,
    pub ty: TypeReference,
    pub nullable: bool,
}

/// What a generated type is declared as.
#[derive(Debug, PartialEq, Eq)]
pub enum TypeBody {
    /// A record of fields, in the order of the schema.
    Struct(Vec<GeneratedField>),
    /// A closed sum of literal variants.
    Enum(Vec<String>),
    /// Another name for a type.
    Alias(TypeReference),
}

/// One generated declaration. It stems from exactly one schema: a definition
/// of the type universe, whose name it bears, or an anonymous schema found
/// inline.
#[derive(Debug, PartialEq, Eq)]
pub struct GeneratedType {
    pub name: String,
    pub anonymous: bool,
    pub body: TypeBody,
}

/// The mathematical value of a [`TypeReference`].
pub enum TypeReferenceModel {
    Scalar(Scalar),
    Array(Box<TypeReferenceModel>),
    Named(Seq<char>),
}

/// The mathematical value of a [`GeneratedField`].
pub struct GeneratedFieldModel {
    pub name: Seq<char>,
    pub ty: TypeReferenceModel,
    pub nullable: bool,
}

/// The mathematical value of a [`TypeBody`].
pub enum TypeBodyModel {
    Struct(Seq<GeneratedFieldModel>),
    Enum(Seq<Seq<char>>),
    Alias(TypeReferenceModel),
}

/// The mathematical value of a [`GeneratedType`].
pub struct GeneratedTypeModel {
    pub name: Seq<char>,
    pub anonymous: bool,
    pub body: TypeBodyModel,
}

/// What tells one generated type from another: for the type of a definition
/// the definition's name, for an anonymous type its shape.
pub enum IdentityKey {
    Definition(Seq<char>),
    Shape(TypeBodyModel),
}

impl GeneratedTypeModel {
    /// The key under which this type is registered.
    pub open spec fn identity_key(self) -> IdentityKey {
        if self.anonymous {
            IdentityKey::Shape(self.body)
        } else {
            IdentityKey::Definition(self.name)
        }
    }
}

/// The value of `reference`.
pub open spec fn reference_model(reference: TypeReference) -> TypeReferenceModel
    decreases reference,
{
    match reference {
        TypeReference::Scalar(scalar) => TypeReferenceModel::Scalar(scalar),
        TypeReference::Array(item) => TypeReferenceModel::Array(Box::new(reference_model(*item))),
        TypeReference::Named(name) => TypeReferenceModel::Named(name@),
    }
}

impl DeepView for TypeReference {
    type V = TypeReferenceModel;

    open spec fn deep_view(&self) -> TypeReferenceModel {
        reference_model(*self)
    }
}

impl DeepView for GeneratedField {
    type V = GeneratedFieldModel;

    open spec fn deep_view(&self) -> GeneratedFieldModel {
        GeneratedFieldModel { name: self.name@, ty: self.ty.deep_view(), nullable: self.nullable }
    }
}

impl DeepView for TypeBody {
    type V = TypeBodyModel;

    open spec fn deep_view(&self) -> TypeBodyModel {
        match self {
            TypeBody::Struct(fields) => TypeBodyModel::Struct(fields.deep_view()),
            TypeBody::Enum(variants) => TypeBodyModel::Enum(variants.deep_view()),
            TypeBody::Alias(target) => TypeBodyModel::Alias(target.deep_view()),
        }
    }
}

impl DeepView for GeneratedType {
    type V = GeneratedTypeModel;

    open spec fn deep_view(&self) -> GeneratedTypeModel {
        GeneratedTypeModel {
            name: self.name@,
            anonymous: self.anonymous,
            body: self.body.deep_view(),
        }
    }
}

impl TypeReference {
    /// Whether `self` and `other` are the same reference.
    pub fn same(&self, other: &TypeReference) -> (same: bool)
        ensures
            same == (self.deep_view() == other.deep_view()),
        decreases self,
    {
        match (self, other) {
            (TypeReference::Scalar(a), TypeReference::Scalar(b)) => *a == *b,
            (TypeReference::Array(a), TypeReference::Array(b)) => a.same(b),
            (TypeReference::Named(a), TypeReference::Named(b)) => same_text(
                a.as_str(),
                b.as_str(),
            ),
            _ => false,
        }
    }

    /// A copy of this reference.
    pub fn duplicate(&self) -> (copy: TypeReference)
        ensures
            copy.deep_view() == self.deep_view(),
        decreases self,
    {
        match self {
            TypeReference::Scalar(scalar) => TypeReference::Scalar(*scalar),
            TypeReference::Array(item) => TypeReference::Array(Box::new(item.duplicate())),
            TypeReference::Named(name) => TypeReference::Named(name.clone()),
        }
    }
}

impl GeneratedField {
    /// Whether `self` and `other` are the same field.
    pub fn same(&self, other: &GeneratedField) -> (same: bool)
        ensures
            same == (self.deep_view() == other.deep_view()),
    {
        same_text(self.name.as_str(), other.name.as_str()) && self.ty.same(&other.ty)
            && self.nullable == other.nullable
    }
}

/// Whether two lists of fields hold the same fields in the same order.
pub fn same_fields(a: &Vec<GeneratedField>, b: &Vec<GeneratedField>) -> (same: bool)
    ensures
        same == (a.deep_view() == b.deep_view()),
{
    if a.len() != b.len() {
        assert(a.deep_view().len() != b.deep_view().len());
        return false;
    }
    let mut i: usize = 0;
    while i < a.len()
        invariant
            i <= a.len(),
            a.len() == b.len(),
            forall|j: int| 0 <= j < i ==> a.deep_view()[j] == b.deep_view()[j],
        decreases a.len() - i,
    {
        assert(a.deep_view()[i as int] == a[i as int].deep_view());
        assert(b.deep_view()[i as int] == b[i as int].deep_view());
        if !a[i].same(&b[i]) {
            return false;
        }
        i += 1;
    }
    assert(a.deep_view() =~= b.deep_view());
    true
}

impl TypeBody {
    /// Whether `self` and `other` declare the same shape.
    pub fn same(&self, other: &TypeBody) -> (same: bool)
        ensures
            same == (self.deep_view() == other.deep_view()),
    {
        match (self, other) {
            (TypeBody::Struct(a), TypeBody::Struct(b)) => same_fields(a, b),
            (TypeBody::Enum(a), TypeBody::Enum(b)) => same_texts(a, b),
            (TypeBody::Alias(a), TypeBody::Alias(b)) => a.same(b),
            _ => false,
        }
    }
}

} // verus!
