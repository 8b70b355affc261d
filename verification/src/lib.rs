//! Typed remote-call bindings generated from an ABI description.
//!
//! An ABI document lists a contract's functions together with the type
//! universe that their signatures draw on: a map of named JSON schemas. This
//! crate reads such a document, resolves the type of every parameter and
//! result against the universe, and produces the output unit: the type
//! declarations that had to be generated, each once and in the order of first
//! use, and after them the one interface with a method for each function.
//!
//! Reading files, parsing JSON text and formatting are left to the caller:
//! the library starts from a JSON tree and ends with the unit and its Rust
//! source text.
//!
//! The modules, leaves first:
//! - [`text`] and [`json`]: text helpers and JSON trees;
//! - [`schema`]: the shapes a type can be described to have;
//! - [`document`]: the ABI document and how a JSON tree is read as one;
//! - [`types`]: type references and generated declarations;
//! - [`resolver`]: from a schema to a type reference, with the registry of
//!   what was generated;
//! - [`interface`]: the interface, its name and its methods;
//! - [`unit`]: the output unit and the generation of one document;
//! - [`source`]: the Rust source text of a unit;
//! - [`generator`]: the builder for several sources;
//! - [`macro_input`]: the input of the macro that generates in place;
//! - [`laws`]: what holds of every generation, with the proofs in
//!   [`lemmas`].
pub mod document;
pub mod error;
pub mod generator;
pub mod interface;
pub mod json;
pub mod laws;
pub mod lemmas;
pub mod macro_input;
pub mod resolver;
pub mod schema;
pub mod source;
pub mod text;
pub mod types;
pub mod unit;

pub use document::{read_abi, AbiDocument};
pub use error::GenerateError;
pub use generator::Generator;
pub use unit::{generate_bindings, generate_ext, OutputUnit};
