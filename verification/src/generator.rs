//! The builder that collects what is to be generated: the ABI sources, each
//! with the interface name wanted for it, and where the output is to go.
use crate::document::{document_of, read_abi};
use crate::error::{DocumentPart, GenerateError, GenerateErrorModel};
use crate::json::{Json, JsonModel};
use crate::unit::{bindings_of, generate_bindings, OutputUnit, OutputUnitModel};
use vstd::prelude::*;

verus! {

/// A generation that failed: which source it failed on, counted from 0 in the
/// order of registration, and why.
#[derive(Debug, PartialEq, Eq)]
pub struct GenerationFailure {
    pub source: usize,
    pub error: GenerateError,
}

/// What is to be generated: the ABI sources, each with the interface name
/// wanted for it, and where the output is to go.
#[derive(Debug, PartialEq, Eq)]
pub struct Generator {
    out_dir: Option<String>,
    abis: Vec<(String, Option<String>)>,
}

/// What is generated for one source, given the JSON tree read from it, if it
/// could be read, and the interface name wanted for it, if any.
pub open spec fn unit_of(name: Option<Seq<char>>, document: Option<JsonModel>) -> Result<
    OutputUnitModel,
    GenerateErrorModel,
> {
    match document {
        None => Err(GenerateErrorModel::MalformedDocument(DocumentPart::Source)),
        Some(json) => match document_of(json) {
            Err(error) => Err(error),
            Ok(parsed) => bindings_of(parsed, name),
        },
    }
}

/// The document supplied for source `index`: none where `documents` holds
/// none for it.
pub open spec fn supplied(documents: Seq<Option<JsonModel>>, index: int) -> Option<JsonModel> {
    if 0 <= index < documents.len() {
        documents[index]
    } else {
        None
    }
}

/// What is generated for the first `upto` of `sources`, in order, or the
/// first failure with the position of its source.
pub open spec fn units_of(
    sources: Seq<(Seq<char>, Option<Seq<char>>)>,
    documents: Seq<Option<JsonModel>>,
    upto: nat,
) -> Result<Seq<OutputUnitModel>, (usize, GenerateErrorModel)>
    decreases upto,
{
    if upto == 0 || upto > sources.len() {
        Ok(Seq::empty())
    } else {
        match units_of(sources, documents, (upto - 1) as nat) {
            Err(failure) => Err(failure),
            Ok(units) => match unit_of(sources[upto - 1].1, supplied(documents, upto - 1)) {
                Err(error) => Err(((upto - 1) as usize, error)),
                Ok(unit) => Ok(units.push(unit)),
            },
        }
    }
}

proof fn lemma_units_of_stays(
    sources: Seq<(Seq<char>, Option<Seq<char>>)>,
    documents: Seq<Option<JsonModel>>,
    failed: nat,
    upto: nat,
)
    requires
        units_of(sources, documents, failed) is Err,
        failed <= upto <= sources.len(),
    ensures
        units_of(sources, documents, upto) == units_of(sources, documents, failed),
    decreases upto,
{
    if failed < upto {
        lemma_units_of_stays(sources, documents, failed, (upto - 1) as nat);
    }
}

proof fn lemma_units_of_count(
    sources: Seq<(Seq<char>, Option<Seq<char>>)>,
    documents: Seq<Option<JsonModel>>,
    upto: nat,
)
    requires
        upto <= sources.len() <= usize::MAX,
    ensures
        units_of(sources, documents, upto) matches Ok(units) ==> units.len() == upto,
        units_of(sources, documents, upto) matches Err(failure) ==> failure.0 < upto,
    decreases upto,
{
    if upto > 0 {
        lemma_units_of_count(sources, documents, (upto - 1) as nat);
    }
}

/// The value of the outcome of a whole generation.
pub open spec fn generation_view(outcome: Result<Vec<OutputUnit>, GenerationFailure>) -> Result<
    Seq<OutputUnitModel>,
    (usize, GenerateErrorModel),
> {
    match outcome {
        Ok(units) => Ok(units.deep_view()),
        Err(failure) => Err((failure.source, failure.error.deep_view())),
    }
}

impl Generator {
    /// Where the output is to go, if that was said.
    pub closed spec fn target(&self) -> Option<Seq<char>> {
        self.out_dir.deep_view()
    }

    /// The sources registered so far, in order: each a path and the interface
    /// name wanted for it, if any.
    pub closed spec fn sources(&self) -> Seq<(Seq<char>, Option<Seq<char>>)> {
        self.abis.deep_view()
    }

    /// A generator that writes to `out_dir` and has no sources yet.
    pub fn new(out_dir: String) -> (generator: Generator)
        ensures
            generator.target() == Some(out_dir@),
            generator.sources() == Seq::<(Seq<char>, Option<Seq<char>>)>::empty(),
    {
        let generator = Generator { out_dir: Some(out_dir), abis: Vec::new() };
        assert(generator.abis.deep_view() =~= Seq::empty());
        generator
    }

    /// Registers the ABI file at `path`; the interface is to be named after
    /// the contract name that the file carries.
    pub fn file(self, path: &str) -> (generator: Generator)
        ensures
            generator.target() == self.target(),
            generator.sources() == self.sources().push((path@, None)),
    {
        let mut generator = self;
        let ghost before = generator.abis.deep_view();
        let source: (String, Option<String>) = (String::from_str(path), None);
        generator.abis.push(source);
        assert(generator.abis.deep_view() =~= before.push(source.deep_view()));
        generator
    }

    /// Registers the ABI file at `path`; the interface is to be named `name`.
    pub fn file_with_name(self, path: &str, name: String) -> (generator: Generator)
        ensures
            generator.target() == self.target(),
            generator.sources() == self.sources().push((path@, Some(name@))),
    {
        let mut generator = self;
        let ghost before = generator.abis.deep_view();
        let source: (String, Option<String>) = (String::from_str(path), Some(name));
        generator.abis.push(source);
        assert(generator.abis.deep_view() =~= before.push(source.deep_view()));
        generator
    }

    /// Where the output is to go, if that was said.
    pub fn out_dir(&self) -> (out_dir: &Option<String>)
        ensures
            out_dir.deep_view() == self.target(),
    {
        &self.out_dir
    }

    /// The sources registered so far, in order.
    pub fn abis(&self) -> (abis: &Vec<(String, Option<String>)>)
        ensures
            abis.deep_view() == self.sources(),
    {
        &self.abis
    }

    /// Generates the bindings of every registered source, in order.
    /// `documents` holds, for each source in the same order, the JSON tree
    /// read from it, or none where it could not be read. The outcome is all
    /// the units or the first failure: nothing is produced for a part.
    pub fn generate(self, documents: &Vec<Option<Json>>) -> (outcome: Result<
        Vec<OutputUnit>,
        GenerationFailure,
    >)
        ensures
            generation_view(outcome) == units_of(
                self.sources(),
                documents.deep_view(),
                self.sources().len(),
            ),
            outcome matches Ok(units) ==> units.len() == self.sources().len(),
            outcome matches Err(failure) ==> failure.source < self.sources().len(),
    {
        proof {
            lemma_units_of_count(self.sources(), documents.deep_view(), self.sources().len());
        }
        let mut units: Vec<OutputUnit> = Vec::new();
        let mut i: usize = 0;
        assert(units.deep_view() =~= Seq::empty());
        while i < self.abis.len()
            invariant
                i <= self.abis.len(),
                units_of(self.abis.deep_view(), documents.deep_view(), i as nat) == Ok::<
                    _,
                    (usize, GenerateErrorModel),
                >(units.deep_view()),
            decreases self.abis.len() - i,
        {
            assert(self.abis.deep_view()[i as int] == self.abis[i as int].deep_view());
            let name = match &self.abis[i].1 {
                Some(name) => Some(name.clone()),
                None => None,
            };
            let outcome = if i < documents.len() {
                assert(documents.deep_view()[i as int] == documents[i as int].deep_view());
                match &documents[i] {
                    None => Err(GenerateError::MalformedDocument(DocumentPart::Source)),
                    Some(json) => match read_abi(json) {
                        Err(error) => Err(error),
                        Ok(document) => generate_bindings(&document, name),
                    },
                }
            } else {
                Err(GenerateError::MalformedDocument(DocumentPart::Source))
            };
            match outcome {
                Err(error) => {
                    proof {
                        assert(units_of(
                            self.abis.deep_view(),
                            documents.deep_view(),
                            (i + 1) as nat,
                        ) == Err::<Seq<OutputUnitModel>, _>((i, error.deep_view())));
                        lemma_units_of_stays(
                            self.abis.deep_view(),
                            documents.deep_view(),
                            (i + 1) as nat,
                            self.abis.len() as nat,
                        );
                    }
                    return Err(GenerationFailure { source: i, error });
                },
                Ok(unit) => {
                    let ghost before = units.deep_view();
                    units.push(unit);
                    assert(units.deep_view() =~= before.push(unit.deep_view()));
                },
            }
            i += 1;
        }
        Ok(units)
    }
}

impl Default for Generator {
    /// A generator that has no sources and has not been told where to write.
    fn default() -> (generator: Generator)
        ensures
            generator.target() is None,
            generator.sources() == Seq::<(Seq<char>, Option<Seq<char>>)>::empty(),
    {
        let generator = Generator { out_dir: None, abis: Vec::new() };
        assert(generator.abis.deep_view() =~= Seq::empty());
        generator
    }
}

} // verus!
