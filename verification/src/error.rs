//! Why a generation can fail.
use vstd::prelude::*;

verus! {

/// A place in an ABI document. Functions, their parameters and the
/// definitions of the type universe are counted from 0, in document order.
#[derive(Clone, Copy, PartialEq, Eq, Structural, Debug)]
pub enum DocumentPart {
    /// The document as a whole: its source could not be read as JSON.
    Source,
    /// The `metadata` section.
    Metadata,
    /// The `body` section.
    Body,
    /// The list of functions.
    Functions,
    /// The type universe as a whole.
    TypeUniverse,
    /// One definition of the type universe.
    Definition(usize),
    /// One function: its name, its list of parameters.
    Function(usize),
    /// One parameter of one function, in that order.
    Parameter(usize, usize),
    /// The result of one function.
    Result(usize),
}

/// Every failure is fatal to the generation that met it: nothing is produced.
#[derive(Debug, PartialEq, Eq)]
pub enum GenerateError {
    /// The document does not have the expected shape at this part.
    MalformedDocument(DocumentPart),
    /// No interface name was supplied and the document carries none.
    UnresolvableName,
    /// A Borsh-encoded type stands where a JSON schema is needed: at a
    /// parameter of the function of that name, or at its result.
    UnsupportedEncoding { function: String, parameter: Option<usize> },
    /// The definition of that name refers to itself, directly or through
    /// others.
    CyclicSchema { definition: String },
    /// A schema under this part has no supported shape, or refers to a
    /// definition that the type universe does not hold.
    InvalidSchemaShape(DocumentPart),
}

/// The mathematical value of a [`GenerateError`].
pub enum GenerateErrorModel {
    MalformedDocument(DocumentPart),
    UnresolvableName,
    UnsupportedEncoding { function: Seq<char>, parameter: Option<usize> },
    CyclicSchema { definition: Seq<char> },
    InvalidSchemaShape(DocumentPart),
}

impl DeepView for GenerateError {
    type V = GenerateErrorModel;

    open spec fn deep_view(&self) -> GenerateErrorModel {
        match self {
            GenerateError::MalformedDocument(part) => GenerateErrorModel::MalformedDocument(*part),
            GenerateError::UnresolvableName => GenerateErrorModel::UnresolvableName,
            GenerateError::UnsupportedEncoding { function, parameter } => {
                GenerateErrorModel::UnsupportedEncoding {
                    function: function@,
                    parameter: *parameter,
                }
            },
            GenerateError::CyclicSchema { definition } => GenerateErrorModel::CyclicSchema {
                definition: definition@,
            },
            GenerateError::InvalidSchemaShape(part) => GenerateErrorModel::InvalidSchemaShape(
                *part,
            ),
        }
    }
}

/// The value of an outcome: that of what was produced, or that of the failure.
pub open spec fn outcome_view<T: DeepView>(outcome: Result<T, GenerateError>) -> Result<
    T::V,
    GenerateErrorModel,
> {
    match outcome {
        Ok(value) => Ok(value.deep_view()),
        Err(error) => Err(error.deep_view()),
    }
}

} // verus!
