//! Core of an object-model compiler. Meanings are class-like entities in a
//! single-inheritance hierarchy, each with typed fields and virtual methods.
//! The library keeps them in a symbol table and generates the code that
//! makes a representation without inheritance behave as if it had it: one
//! layer of storage per meaning of a chain, accessors that reach a field
//! through the layers above it, and constructors that allocate all layers
//! and run the initializers base first.
//!
//! - `arena` and `symbol` hold the symbol table: symbols are handles that
//!   compare by identity, and every operation takes the factory that owns
//!   what they refer to.
//! - `model` describes the table as a mathematical value and states its
//!   invariant; `hierarchy` and `preservation` prove what the operations
//!   rely on.
//! - `ast` and `diagnostic` are what the generators take in and report.
//! - `layout`, `processing_step_3_2` and `processing_step_3_7` are the
//!   generators; each states the text it produces.
//! - `theorems` states what holds across calls.

pub mod arena;
pub mod ast;
pub mod diagnostic;
pub mod hierarchy;
pub mod host;
pub mod layout;
pub mod model;
pub mod preservation;
pub mod processing_step_3_2;
pub mod processing_step_3_7;
pub mod symbol;
pub mod theorems;
