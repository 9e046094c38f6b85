//! Seagrass: a scripting language for reading and writing binary file formats.
//!
//! The library holds the language's syntax tree, its runtime (values, scopes,
//! call frames, an evaluator and an executor) and the serialization of POD
//! structs to and from bytes.

pub mod ast;
pub mod deserialization;
pub mod error;
pub mod evaluation;
pub mod execution;
pub mod functions;
pub mod laws;
pub mod layout;
pub mod literals;
pub mod natives;
pub mod operators;
pub mod readback;
pub mod runtime;
pub mod scopes;
pub mod serialization;
pub mod text;
pub mod value;
pub mod values;
