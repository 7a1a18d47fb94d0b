//! The values that can be bound to a statement's placeholders.

use vstd::prelude::*;
use vstd::std_specs::convert::FromSpecImpl;

verus! {

/// A value bound to one placeholder of a statement.
///
/// The kinds are those that a database takes as a parameter: each keeps its
/// width, since a parameter's type has to agree with the column it meets.
#[derive(Debug, Clone, PartialEq, Eq)]
pub enum Value {
    /// The SQL `NULL`.
    Null,
    /// A boolean.
    Bool(bool),
    /// A 16-bit integer.
    SmallInt(i16),
    /// A 32-bit integer.
    Int(i32),
    /// A 64-bit integer.
    BigInt(i64),
    /// A text.
    Text(String),
    /// A byte string.
    Bytes(Vec<u8>),
}

impl Value {
    /// The text value that holds a copy of `text`.
    pub fn text(text: &str) -> (value: Value)
        ensures
            value matches Value::Text(held) && held@ == text@,
    {
        Value::Text(text.to_owned())
    }
}

impl From<bool> for Value {
    fn from(v: bool) -> (value: Value) {
        Value::Bool(v)
    }
}

impl FromSpecImpl<bool> for Value {
    open spec fn obeys_from_spec() -> bool {
        true
    }

    open spec fn from_spec(v: bool) -> Value {
        Value::Bool(v)
    }
}

impl From<i16> for Value {
    fn from(v: i16) -> (value: Value) {
        Value::SmallInt(v)
    }
}

impl FromSpecImpl<i16> for Value {
    open spec fn obeys_from_spec() -> bool {
        true
    }

    open spec fn from_spec(v: i16) -> Value {
        Value::SmallInt(v)
    }
}

impl From<i32> for Value {
    fn from(v: i32) -> (value: Value) {
        Value::Int(v)
    }
}

impl FromSpecImpl<i32> for Value {
    open spec fn obeys_from_spec() -> bool {
        true
    }

    open spec fn from_spec(v: i32) -> Value {
        Value::Int(v)
    }
}

impl From<i64> for Value {
    fn from(v: i64) -> (value: Value) {
        Value::BigInt(v)
    }
}

impl FromSpecImpl<i64> for Value {
    open spec fn obeys_from_spec() -> bool {
        true
    }

    open spec fn from_spec(v: i64) -> Value {
        Value::BigInt(v)
    }
}

impl From<String> for Value {
    fn from(v: String) -> (value: Value) {
        Value::Text(v)
    }
}

impl FromSpecImpl<String> for Value {
    open spec fn obeys_from_spec() -> bool {
        true
    }

    open spec fn from_spec(v: String) -> Value {
        Value::Text(v)
    }
}

impl From<Vec<u8>> for Value {
    fn from(v: Vec<u8>) -> (value: Value) {
        Value::Bytes(v)
    }
}

impl FromSpecImpl<Vec<u8>> for Value {
    open spec fn obeys_from_spec() -> bool {
        true
    }

    open spec fn from_spec(v: Vec<u8>) -> Value {
        Value::Bytes(v)
    }
}

} // verus!
