//! The commands that a script is parsed into.

use crate::error::{ErrorView, EvalandParsingError};
use crate::value::{Value, ValueView};
use vstd::prelude::*;

verus! {

/// What a [`Command`] holds, with names taken as sequences of chars and
/// values by their views.
pub enum CommandView {
    SetVar(Seq<char>, ValueView),
    GetVar(Seq<char>),
    PushVar(Seq<char>),
    Push(ValueView),
    Pop,
    Add,
}

/// One instruction of a script.
#[derive(Debug)]
pub enum Command {
    /// Binds the variable to the value, replacing an earlier binding.
    SetVar(String, Value),
    /// Makes the variable's value the output. The stack is left alone.
    GetVar(String),
    /// Pushes the variable's value onto the stack.
    PushVar(String),
    /// Pushes the value onto the stack.
    Push(Value),
    /// Takes the top of the stack off and makes it the output.
    Pop,
    /// Takes two values off the stack and pushes their sum or concatenation.
    Add,
}

impl View for Command {
    type V = CommandView;

    open spec fn view(&self) -> CommandView {
        match self {
            Command::SetVar(name, value) => CommandView::SetVar(name@, value@),
            Command::GetVar(name) => CommandView::GetVar(name@),
            Command::PushVar(name) => CommandView::PushVar(name@),
            Command::Push(value) => CommandView::Push(value@),
            Command::Pop => CommandView::Pop,
            Command::Add => CommandView::Add,
        }
    }
}

impl Clone for Command {
    fn clone(&self) -> (copy: Self)
        ensures
            copy@ == self@,
    {
        match self {
            Command::SetVar(name, value) => Command::SetVar(name.clone(), value.clone()),
            Command::GetVar(name) => Command::GetVar(name.clone()),
            Command::PushVar(name) => Command::PushVar(name.clone()),
            Command::Push(value) => Command::Push(value.clone()),
            Command::Pop => Command::Pop,
            Command::Add => Command::Add,
        }
    }
}

impl PartialEq for Command {
    fn eq(&self, other: &Self) -> (equal: bool) {
        match (self, other) {
            (Command::SetVar(n1, v1), Command::SetVar(n2, v2)) => *n1 == *n2 && *v1 == *v2,
            (Command::GetVar(n1), Command::GetVar(n2)) => *n1 == *n2,
            (Command::PushVar(n1), Command::PushVar(n2)) => *n1 == *n2,
            (Command::Push(v1), Command::Push(v2)) => *v1 == *v2,
            (Command::Pop, Command::Pop) => true,
            (Command::Add, Command::Add) => true,
            _ => false,
        }
    }
}

impl vstd::std_specs::cmp::PartialEqSpecImpl for Command {
    open spec fn obeys_eq_spec() -> bool {
        true
    }

    open spec fn eq_spec(&self, other: &Self) -> bool {
        self@ == other@
    }
}

impl Eq for Command {

}

/// The view of a function's result that is a command or an error.
pub open spec fn command_result_view(result: Result<Command, EvalandParsingError>) -> Result<
    CommandView,
    ErrorView,
> {
    match result {
        Ok(command) => Ok(command@),
        Err(e) => Err(e@),
    }
}

/// The view of a function's result that is a command, no command or an
/// error.
pub open spec fn line_result_view(result: Result<Option<Command>, EvalandParsingError>) -> Result<
    Option<CommandView>,
    ErrorView,
> {
    match result {
        Ok(Some(command)) => Ok(Some(command@)),
        Ok(None) => Ok(None),
        Err(e) => Err(e@),
    }
}

/// The views of a sequence of commands, in the same order.
pub open spec fn commands_view(commands: Seq<Command>) -> Seq<CommandView> {
    commands.map_values(|c: Command| c@)
}

/// The view of a function's result that is a sequence of commands or an error.
pub open spec fn commands_result_view(result: Result<Vec<Command>, EvalandParsingError>) -> Result<
    Seq<CommandView>,
    ErrorView,
> {
    match result {
        Ok(commands) => Ok(commands_view(commands@)),
        Err(e) => Err(e@),
    }
}

} // verus!
