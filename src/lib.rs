//! A schema-driven SQL generator: record types are described by field
//! metadata, compiled once into an immutable entity model, and that model
//! produces parameterized insert, update, delete, lookup and select statements
//! whose bound arguments line up with their placeholders.

pub mod commands;
pub mod dialect;
pub mod errors;
pub mod laws;
pub mod model;
pub mod naming;
pub mod predicates;
pub mod select;
pub mod text;
pub mod value;
