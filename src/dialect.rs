//! Backend dialects and their parameter markers.

use vstd::prelude::*;
use crate::errors::SchemaError;
use crate::text::{decimal, push_decimal};

verus! {

/// A supported database backend.
#[derive(Debug, Clone, Copy, PartialEq, Eq, Structural)]
pub enum Dialect {
    Postgres,
    Sqlite,
    Mysql,
}

/// The dialect a backend name selects, if it is a supported one.
pub open spec fn dialect_named(name: Seq<char>) -> Option<Dialect> {
    if name == "postgres"@ {
        Some(Dialect::Postgres)
    } else if name == "sqlite"@ {
        Some(Dialect::Sqlite)
    } else if name == "mysql"@ {
        Some(Dialect::Mysql)
    } else {
        None
    }
}

/// The parameter marker of the `pos`-th bound argument (counting from 1):
/// `$pos` for Postgres and SQLite, `?` for MySQL.
pub open spec fn placeholder(d: Dialect, pos: nat) -> Seq<char> {
    match d {
        Dialect::Mysql => seq!['?'],
        _ => seq!['$'] + decimal(pos),
    }
}

/// Appends the parameter marker of the `pos`-th bound argument to `s`.
/// Every statement of the library numbers its markers through this function.
pub fn push_placeholder(s: &mut String, d: Dialect, pos: usize)
    ensures
        final(s)@ == old(s)@ + placeholder(d, pos as nat),
{
    proof {
        reveal_strlit("?");
        reveal_strlit("$");
    }
    match d {
        Dialect::Mysql => {
            s.append("?");
        },
        _ => {
            s.append("$");
            push_decimal(s, pos);
        },
    }
    assert(final(s)@ =~= old(s)@ + placeholder(d, pos as nat));
}

/// Whether `s` holds exactly the text `t`.
pub fn same_text(s: &String, t: &str) -> (r: bool)
    ensures
        r == (s@ == t@),
{
    let owned = String::from_str(t);
    *s == owned
}

/// The dialect named by `name`, if it is a supported one.
pub fn dialect_by_name(name: &String) -> (r: Option<Dialect>)
    ensures
        r == dialect_named(name@),
{
    if same_text(name, "postgres") {
        Some(Dialect::Postgres)
    } else if same_text(name, "sqlite") {
        Some(Dialect::Sqlite)
    } else if same_text(name, "mysql") {
        Some(Dialect::Mysql)
    } else {
        None
    }
}

/// The dialect selected by the enabled backend names: every name must be a
/// supported one, and exactly one must be given.
pub fn resolve_dialect(backends: &Vec<String>) -> (r: Result<Dialect, SchemaError>)
    ensures
        match r {
            Ok(d) => backends@.len() == 1 && dialect_named(backends@[0]@) == Some(d),
            Err(SchemaError::UnknownDialect(n)) => exists|i: int|
                0 <= i < backends@.len() && dialect_named(backends@[i]@) is None
                    && n@ == backends@[i]@
                    && forall|j: int| 0 <= j < i ==> dialect_named(#[trigger] backends@[j]@) is Some,
            Err(SchemaError::NoDialect) => backends@.len() == 0,
            Err(SchemaError::MultipleDialects) => backends@.len() > 1
                && forall|j: int| 0 <= j < backends@.len() ==> dialect_named(#[trigger] backends@[j]@) is Some,
            _ => false,
        },
{
    let mut i: usize = 0;
    let mut found: Option<Dialect> = None;
    while i < backends.len()
        invariant
            i <= backends@.len(),
            forall|j: int| 0 <= j < i ==> dialect_named(#[trigger] backends@[j]@) is Some,
            i > 0 ==> found == dialect_named(backends@[0]@),
        decreases backends@.len() - i,
    {
        match dialect_by_name(&backends[i]) {
            None => {
                return Err(SchemaError::UnknownDialect(backends[i].clone()));
            },
            Some(d) => {
                if i == 0 {
                    found = Some(d);
                }
            },
        }
        i = i + 1;
    }
    if backends.len() == 0 {
        Err(SchemaError::NoDialect)
    } else if backends.len() > 1 {
        Err(SchemaError::MultipleDialects)
    } else {
        match found {
            Some(d) => Ok(d),
            None => Err(SchemaError::NoDialect),
        }
    }
}

} // verus!
