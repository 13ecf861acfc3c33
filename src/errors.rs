//! Error types of the library.

use vstd::prelude::*;

verus! {

/// A schema that cannot be compiled into an entity model.
#[derive(Debug, Clone)]
pub enum SchemaError {
    /// No field is marked as the primary key.
    MissingPrimaryKey,
    /// A second field, named here, is marked as the primary key.
    DuplicatePrimaryKey(String),
    /// No backend dialect was selected.
    NoDialect,
    /// More than one backend dialect was selected.
    MultipleDialects,
    /// The named backend is not one of the supported dialects.
    UnknownDialect(String),
    /// The named field's unset sentinel does not have the field's type.
    MalformedUnsetRule(String),
    /// The named field holds two roles that exclude each other: primary key
    /// and timestamp, or creation and update timestamp.
    ConflictingRoles(String),
    /// The table name is derived from this record name, which is not ASCII.
    NonAsciiRecordName(String),
}

/// Errors of the persistence operations.
#[derive(Debug, Clone)]
pub enum Error {
    /// A failure reported by the database executor, or a row that does not
    /// decode into the entity's columns.
    DatabaseError(String),
    /// A statement could not be prepared.
    QueryPreparationError(String),
}

} // verus!
