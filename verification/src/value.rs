//! The values of the language and their mathematical views.

use crate::error::{ErrorView, EvalandParsingError};
use vstd::prelude::*;

verus! {

/// What a [`Value`] holds, with a string taken as a sequence of chars.
pub enum ValueView {
    Nothing,
    Int(i64),
    String(Seq<char>),
}

/// A datum of the language. No variant converts into another.
#[derive(Debug)]
pub enum Value {
    /// The absence of a value: what an evaluation yields before any `get` or
    /// `pop`.
    Nothing,
    /// A signed 64-bit integer.
    Int(i64),
    /// An owned text.
    String(String),
}

impl View for Value {
    type V = ValueView;

    open spec fn view(&self) -> ValueView {
        match self {
            Value::Nothing => ValueView::Nothing,
            Value::Int(i) => ValueView::Int(*i),
            Value::String(s) => ValueView::String(s@),
        }
    }
}

impl Clone for Value {
    fn clone(&self) -> (copy: Self)
        ensures
            copy@ == self@,
    {
        match self {
            Value::Nothing => Value::Nothing,
            Value::Int(i) => Value::Int(*i),
            Value::String(s) => Value::String(s.clone()),
        }
    }
}

impl PartialEq for Value {
    fn eq(&self, other: &Self) -> (equal: bool) {
        match (self, other) {
            (Value::Nothing, Value::Nothing) => true,
            (Value::Int(a), Value::Int(b)) => *a == *b,
            (Value::String(a), Value::String(b)) => *a == *b,
            _ => false,
        }
    }
}

impl vstd::std_specs::cmp::PartialEqSpecImpl for Value {
    open spec fn obeys_eq_spec() -> bool {
        true
    }

    open spec fn eq_spec(&self, other: &Self) -> bool {
        self@ == other@
    }
}

impl Eq for Value {

}

/// The views of a sequence of values, in the same order.
pub open spec fn values_view(values: Seq<Value>) -> Seq<ValueView> {
    values.map_values(|v: Value| v@)
}

/// The view of a function's result that is a value or an error.
pub open spec fn value_result_view(result: Result<Value, EvalandParsingError>) -> Result<
    ValueView,
    ErrorView,
> {
    match result {
        Ok(v) => Ok(v@),
        Err(e) => Err(e@),
    }
}

} // verus!
