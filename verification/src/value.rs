//! The session's value representation: a small first-class datatype that
//! holds what a session may store under a key, as plain values.

use vstd::prelude::*;

verus! {

/// What a [`Value`] is to specifications: the same shape, with strings seen
/// as their character sequences.
pub enum SpecValue {
    Null,
    Bool(bool),
    Int(i64),
    Str(Seq<char>),
    Uid(u128),
}

/// A value stored in a session's data map. Inserting a value into a session
/// encodes it as one of these; a typed read such as
/// [`crate::session::Session::get_uid`] decodes it back, failing with
/// [`crate::store::Error::Decode`] on a shape mismatch.
#[derive(Debug)]
pub enum Value {
    Null,
    Bool(bool),
    Int(i64),
    Str(String),
    Uid(u128),
}

impl View for Value {
    type V = SpecValue;

    open spec fn view(&self) -> SpecValue {
        match self {
            Value::Null => SpecValue::Null,
            Value::Bool(b) => SpecValue::Bool(*b),
            Value::Int(i) => SpecValue::Int(*i),
            Value::Str(s) => SpecValue::Str(s@),
            Value::Uid(u) => SpecValue::Uid(*u),
        }
    }
}

impl Value {
    /// A copy equal in value to `self`.
    pub fn duplicate(&self) -> (r: Value)
        ensures
            r@ == self@,
    {
        match self {
            Value::Null => Value::Null,
            Value::Bool(b) => Value::Bool(*b),
            Value::Int(i) => Value::Int(*i),
            Value::Str(s) => Value::Str(s.clone()),
            Value::Uid(u) => Value::Uid(*u),
        }
    }
}

impl PartialEq for Value {
    fn eq(&self, other: &Value) -> (r: bool) {
        match (self, other) {
            (Value::Null, Value::Null) => true,
            (Value::Bool(a), Value::Bool(b)) => a == b,
            (Value::Int(a), Value::Int(b)) => a == b,
            (Value::Str(a), Value::Str(b)) => *a == *b,
            (Value::Uid(a), Value::Uid(b)) => a == b,
            _ => false,
        }
    }
}

impl vstd::std_specs::cmp::PartialEqSpecImpl for Value {
    open spec fn obeys_eq_spec() -> bool {
        true
    }

    open spec fn eq_spec(&self, other: &Value) -> bool {
        self@ == other@
    }
}

} // verus!
