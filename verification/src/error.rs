//! The errors of parsing and evaluation.

use vstd::prelude::*;

verus! {

/// What an [`EvalandParsingError`] says, with every text taken as a sequence
/// of chars.
pub enum ErrorView {
    MismatchNumParams,
    MismatchType,
    UnknownCommand(Seq<char>),
    MissingVariable(Seq<char>),
    EmptyStack,
    Overflow,
}

/// The ways in which parsing or evaluating a script fails. Every error ends
/// the parse or the evaluation that met it.
#[derive(Debug)]
pub enum EvalandParsingError {
    /// A line holds more or fewer tokens than its command takes.
    MismatchNumParams,
    /// A token is neither a string literal nor a 64-bit integer, or `add` met
    /// two operands that are not both integers or both strings.
    MismatchType,
    /// The first token of a line, which is none of the six keywords.
    UnknownCommand(String),
    /// The name that `get` or `pushvar` looked up and that was never set.
    MissingVariable(String),
    /// `pop` or `add` found the stack empty.
    EmptyStack,
    /// The sum of two integers does not fit in 64 bits. `add` reports this
    /// rather than wrap around.
    Overflow,
}

impl View for EvalandParsingError {
    type V = ErrorView;

    open spec fn view(&self) -> ErrorView {
        match self {
            EvalandParsingError::MismatchNumParams => ErrorView::MismatchNumParams,
            EvalandParsingError::MismatchType => ErrorView::MismatchType,
            EvalandParsingError::UnknownCommand(token) => ErrorView::UnknownCommand(token@),
            EvalandParsingError::MissingVariable(name) => ErrorView::MissingVariable(name@),
            EvalandParsingError::EmptyStack => ErrorView::EmptyStack,
            EvalandParsingError::Overflow => ErrorView::Overflow,
        }
    }
}

impl Clone for EvalandParsingError {
    fn clone(&self) -> (copy: Self)
        ensures
            copy@ == self@,
    {
        match self {
            EvalandParsingError::MismatchNumParams => EvalandParsingError::MismatchNumParams,
            EvalandParsingError::MismatchType => EvalandParsingError::MismatchType,
            EvalandParsingError::UnknownCommand(token) => EvalandParsingError::UnknownCommand(
                token.clone(),
            ),
            EvalandParsingError::MissingVariable(name) => EvalandParsingError::MissingVariable(
                name.clone(),
            ),
            EvalandParsingError::EmptyStack => EvalandParsingError::EmptyStack,
            EvalandParsingError::Overflow => EvalandParsingError::Overflow,
        }
    }
}

impl PartialEq for EvalandParsingError {
    fn eq(&self, other: &Self) -> (equal: bool) {
        match (self, other) {
            (EvalandParsingError::MismatchNumParams, EvalandParsingError::MismatchNumParams) => true,
            (EvalandParsingError::MismatchType, EvalandParsingError::MismatchType) => true,
            (EvalandParsingError::UnknownCommand(a), EvalandParsingError::UnknownCommand(b)) => *a
                == *b,
            (EvalandParsingError::MissingVariable(a), EvalandParsingError::MissingVariable(b)) => *a
                == *b,
            (EvalandParsingError::EmptyStack, EvalandParsingError::EmptyStack) => true,
            (EvalandParsingError::Overflow, EvalandParsingError::Overflow) => true,
            _ => false,
        }
    }
}

impl vstd::std_specs::cmp::PartialEqSpecImpl for EvalandParsingError {
    open spec fn obeys_eq_spec() -> bool {
        true
    }

    open spec fn eq_spec(&self, other: &Self) -> bool {
        self@ == other@
    }
}

impl Eq for EvalandParsingError {

}

} // verus!
