//! Column types and the values that are bound to statements and read back
//! from rows.

use vstd::prelude::*;

verus! {

/// The semantic type of a column.
#[derive(Debug, Clone, Copy, PartialEq, Eq, Structural)]
pub enum SqlType {
    Integer,
    Text,
    Boolean,
}

/// One column value.
#[derive(Debug, Clone, PartialEq)]
pub enum Value {
    Null,
    Int(i64),
    Text(String),
    Bool(bool),
}

/// Two values are the same value (texts compare by their characters).
pub open spec fn same_value(a: Value, b: Value) -> bool {
    match (a, b) {
        (Value::Null, Value::Null) => true,
        (Value::Int(x), Value::Int(y)) => x == y,
        (Value::Text(x), Value::Text(y)) => x@ == y@,
        (Value::Bool(x), Value::Bool(y)) => x == y,
        _ => false,
    }
}

/// A value can be stored in a column of type `ty`, nullable or not.
pub open spec fn value_fits(v: Value, ty: SqlType, nullable: bool) -> bool {
    match v {
        Value::Null => nullable,
        Value::Int(_) => ty == SqlType::Integer,
        Value::Text(_) => ty == SqlType::Text,
        Value::Bool(_) => ty == SqlType::Boolean,
    }
}

/// `v` is the default value of the column type: NULL for a nullable column,
/// else zero, the empty text or false.
pub open spec fn is_type_default(v: Value, ty: SqlType, nullable: bool) -> bool {
    if nullable {
        v is Null
    } else {
        match v {
            Value::Int(x) => ty == SqlType::Integer && x == 0,
            Value::Text(s) => ty == SqlType::Text && s@.len() == 0,
            Value::Bool(b) => ty == SqlType::Boolean && !b,
            Value::Null => false,
        }
    }
}

impl Value {
    /// A copy of this value.
    pub fn duplicate(&self) -> (r: Value)
        ensures
            r == *self,
    {
        match self {
            Value::Null => Value::Null,
            Value::Int(x) => Value::Int(*x),
            Value::Text(s) => Value::Text(s.clone()),
            Value::Bool(b) => Value::Bool(*b),
        }
    }

    /// Whether `self` and `other` are the same value.
    pub fn same_as(&self, other: &Value) -> (r: bool)
        ensures
            r == same_value(*self, *other),
    {
        match (self, other) {
            (Value::Null, Value::Null) => true,
            (Value::Int(x), Value::Int(y)) => *x == *y,
            (Value::Text(x), Value::Text(y)) => *x == *y,
            (Value::Bool(x), Value::Bool(y)) => *x == *y,
            _ => false,
        }
    }

    /// Whether this value can be stored in a column of type `ty`.
    pub fn fits(&self, ty: SqlType, nullable: bool) -> (r: bool)
        ensures
            r == value_fits(*self, ty, nullable),
    {
        match self {
            Value::Null => nullable,
            Value::Int(_) => ty == SqlType::Integer,
            Value::Text(_) => ty == SqlType::Text,
            Value::Bool(_) => ty == SqlType::Boolean,
        }
    }

    /// Whether this value is the default value of the column type.
    pub fn is_type_default(&self, ty: SqlType, nullable: bool) -> (r: bool)
        ensures
            r == is_type_default(*self, ty, nullable),
    {
        if nullable {
            matches!(self, Value::Null)
        } else {
            match self {
                Value::Int(x) => ty == SqlType::Integer && *x == 0,
                Value::Text(s) => ty == SqlType::Text && s.as_str().is_empty(),
                Value::Bool(b) => ty == SqlType::Boolean && !*b,
                Value::Null => false,
            }
        }
    }
}

/// A copy of a sequence of values.
pub fn duplicate_values(vs: &Vec<Value>) -> (r: Vec<Value>)
    ensures
        r@ == vs@,
{
    let mut r: Vec<Value> = Vec::new();
    let mut i: usize = 0;
    while i < vs.len()
        invariant
            i <= vs@.len(),
            r@ == vs@.take(i as int),
        decreases vs@.len() - i,
    {
        r.push(vs[i].duplicate());
        i = i + 1;
        assert(r@ =~= vs@.take(i as int));
    }
    assert(vs@.take(vs@.len() as int) =~= vs@);
    r
}

} // verus!
