//! A statement lowering engine for a small imperative language: it walks
//! rule-tagged statement nodes — variable declarations, definitions and
//! runtime calls — and translates each into instructions for a linear,
//! single-block IR builder from cranelift, reconciling the untyped
//! surface syntax with a small static type system, allocating storage
//! slots, materializing literal constants in the correct machine
//! encoding, and resolving calls to externally declared runtime
//! functions.
//!
//! The grammar that produces the statement nodes, and the backend's
//! block management, register allocation and object emission, are
//! external collaborators; the builder itself is driven through a small
//! trusted layer in [`sink`].

pub mod ast;
pub mod errors;
pub mod fbits;
pub mod ir;
pub mod laws;
pub mod literal;
pub mod lower;
pub mod runtime;
pub mod sink;
pub mod strutil;
pub mod symtab;
pub mod types;
