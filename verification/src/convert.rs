//! Conversions from a value to what it holds, as impls of `TryFrom`: each
//! gives what is in a value of the kind asked for, and fails with a
//! `TypeMismatch` on a value of another kind.

use crate::ast::{Kind, Value};
use crate::error::Error;
use vstd::prelude::*;
use vstd::std_specs::convert::TryFromSpecImpl;

verus! {

impl TryFrom<&Value> for bool {
    type Error = Error;

    fn try_from(value: &Value) -> (r: Result<bool, Error>) {
        value.as_bool()
    }
}

impl TryFromSpecImpl<&Value> for bool {
    open spec fn obeys_try_from_spec() -> bool {
        true
    }

    open spec fn try_from_spec(value: &Value) -> Result<bool, Error> {
        match value {
            Value::Bool(b) => Ok(*b),
            _ => Err(Error::TypeMismatch { expected: Kind::Bool, actual: value@.kind() }),
        }
    }
}

impl TryFrom<&Value> for String {
    type Error = Error;

    fn try_from(value: &Value) -> (r: Result<String, Error>) {
        match value {
            Value::Str(s) => Ok(s.clone()),
            _ => Err(Error::TypeMismatch { expected: Kind::Str, actual: value.kind() }),
        }
    }
}

impl TryFromSpecImpl<&Value> for String {
    open spec fn obeys_try_from_spec() -> bool {
        true
    }

    open spec fn try_from_spec(value: &Value) -> Result<String, Error> {
        match value {
            Value::Str(s) => Ok(*s),
            _ => Err(Error::TypeMismatch { expected: Kind::Str, actual: value@.kind() }),
        }
    }
}

impl TryFrom<Value> for i64 {
    type Error = Error;

    fn try_from(value: Value) -> (r: Result<i64, Error>) {
        value.as_int()
    }
}

impl TryFromSpecImpl<Value> for i64 {
    open spec fn obeys_try_from_spec() -> bool {
        true
    }

    open spec fn try_from_spec(value: Value) -> Result<i64, Error> {
        match value {
            Value::Int(n) => Ok(n),
            _ => Err(Error::TypeMismatch { expected: Kind::Int, actual: value@.kind() }),
        }
    }
}

} // verus!
