//! Running commands against a table of variables and an operand stack.
//!
//! The model is [`EvaluatorView`]: a map from names to values and a
//! sequence of values. [`EvaluatorView::run`] says what a sequence of
//! commands does to it and yields.

use crate::command::{commands_view, Command, CommandView};
use crate::error::{ErrorView, EvalandParsingError};
use crate::value::{value_result_view, values_view, Value, ValueView};
use vstd::hash_map::StringHashMap;
use vstd::prelude::*;

verus! {

/// The sum of two integers or the concatenation of two strings, the left
/// operand first. Two integers whose sum does not fit in 64 bits give
/// `Overflow`; every other pairing gives `MismatchType`.
pub open spec fn combine(lhs: ValueView, rhs: ValueView) -> Result<ValueView, ErrorView> {
    match (lhs, rhs) {
        (ValueView::Int(a), ValueView::Int(b)) => if i64::MIN <= a + b <= i64::MAX {
            Ok(ValueView::Int((a + b) as i64))
        } else {
            Err(ErrorView::Overflow)
        },
        (ValueView::String(a), ValueView::String(b)) => Ok(ValueView::String(a + b)),
        _ => Err(ErrorView::MismatchType),
    }
}

/// The state of an [`Evaluator`]: the variables that are bound, and the
/// operand stack with its top at the end.
pub struct EvaluatorView {
    pub vars: Map<Seq<char>, ValueView>,
    pub stack: Seq<ValueView>,
}

impl EvaluatorView {
    /// The state with no variable bound and nothing on the stack.
    pub open spec fn empty() -> EvaluatorView {
        EvaluatorView { vars: Map::empty(), stack: Seq::empty() }
    }

    /// The state with `value` put on top of the stack.
    pub open spec fn push(self, value: ValueView) -> EvaluatorView {
        EvaluatorView { vars: self.vars, stack: self.stack.push(value) }
    }

    /// Takes the top of the stack off. On an empty stack the state stays as
    /// it is and the result is `EmptyStack`.
    pub open spec fn pop(self) -> (EvaluatorView, Result<ValueView, ErrorView>) {
        if self.stack.len() == 0 {
            (self, Err(ErrorView::EmptyStack))
        } else {
            (
                EvaluatorView { vars: self.vars, stack: self.stack.drop_last() },
                Ok(self.stack.last()),
            )
        }
    }

    /// Takes two values off the stack, the left operand first, and pushes
    /// what they combine to. When the stack runs empty or the operands do
    /// not combine, what was taken off stays off.
    pub open spec fn add(self) -> (EvaluatorView, Result<(), ErrorView>) {
        let (after_lhs, lhs) = self.pop();
        match lhs {
            Err(e) => (after_lhs, Err(e)),
            Ok(lhs) => {
                let (after_rhs, rhs) = after_lhs.pop();
                match rhs {
                    Err(e) => (after_rhs, Err(e)),
                    Ok(rhs) => match combine(lhs, rhs) {
                        Err(e) => (after_rhs, Err(e)),
                        Ok(sum) => (after_rhs.push(sum), Ok(())),
                    },
                }
            },
        }
    }

    /// Runs one command. The result is the output after the command: the
    /// value that `get` read or `pop` took off, and `output` unchanged for
    /// the other commands. A command that fails leaves the state as far as it
    /// got.
    pub open spec fn step(self, output: ValueView, command: CommandView) -> (
        EvaluatorView,
        Result<ValueView, ErrorView>,
    ) {
        match command {
            CommandView::SetVar(name, value) => (
                EvaluatorView { vars: self.vars.insert(name, value), stack: self.stack },
                Ok(output),
            ),
            CommandView::GetVar(name) => if self.vars.contains_key(name) {
                (self, Ok(self.vars[name]))
            } else {
                (self, Err(ErrorView::MissingVariable(name)))
            },
            CommandView::PushVar(name) => if self.vars.contains_key(name) {
                (self.push(self.vars[name]), Ok(output))
            } else {
                (self, Err(ErrorView::MissingVariable(name)))
            },
            CommandView::Push(value) => (self.push(value), Ok(output)),
            CommandView::Pop => self.pop(),
            CommandView::Add => {
                let (after, done) = self.add();
                match done {
                    Ok(()) => (after, Ok(output)),
                    Err(e) => (after, Err(e)),
                }
            },
        }
    }

    /// Runs the commands in order, starting with `output` as the output, and
    /// stops at the first that fails. The result is the last output, or the
    /// error of the command that failed; the state is the one in which the
    /// run ended, with nothing rolled back.
    pub open spec fn run(self, output: ValueView, commands: Seq<CommandView>) -> (
        EvaluatorView,
        Result<ValueView, ErrorView>,
    )
        decreases commands.len(),
    {
        if commands.len() == 0 {
            (self, Ok(output))
        } else {
            let (next, stepped) = self.step(output, commands.first());
            match stepped {
                Ok(next_output) => next.run(next_output, commands.drop_first()),
                Err(e) => (next, Err(e)),
            }
        }
    }
}

/// The machine that runs commands: a table of variables and an operand
/// stack. Both persist from one call of [`Evaluator::evaluate`] to the next.
pub struct Evaluator {
    vars: StringHashMap<Value>,
    stack: Vec<Value>,
}

impl View for Evaluator {
    type V = EvaluatorView;

    closed spec fn view(&self) -> EvaluatorView {
        EvaluatorView {
            vars: self.vars@.map_values(|v: Value| v@),
            stack: values_view(self.stack@),
        }
    }
}

impl Evaluator {
    /// An evaluator with no variable bound and an empty stack.
    pub fn new() -> (evaluator: Evaluator)
        ensures
            evaluator@ == EvaluatorView::empty(),
    {
        let evaluator = Evaluator { vars: StringHashMap::new(), stack: Vec::new() };
        assert(evaluator@.vars =~= Map::empty());
        assert(evaluator@.stack =~= Seq::empty());
        evaluator
    }

    /// Takes the top of the stack off and returns it, or fails with
    /// `EmptyStack` and leaves the evaluator as it is.
    pub fn pop(&mut self) -> (result: Result<Value, EvalandParsingError>)
        ensures
            (final(self)@, value_result_view(result)) == old(self)@.pop(),
    {
        match self.stack.pop() {
            Some(v) => {
                assert(self@.stack =~= old(self)@.stack.drop_last());
                Ok(v)
            },
            None => Err(EvalandParsingError::EmptyStack),
        }
    }

    /// The sum of two integers, or `Overflow` when it does not fit in 64
    /// bits; the concatenation of two strings, `lhs` first; `MismatchType`
    /// for every other pairing.
    pub fn add(&self, lhs: Value, rhs: Value) -> (result: Result<Value, EvalandParsingError>)
        ensures
            value_result_view(result) == combine(lhs@, rhs@),
    {
        match (lhs, rhs) {
            (Value::Int(i1), Value::Int(i2)) => match i1.checked_add(i2) {
                Some(sum) => Ok(Value::Int(sum)),
                None => Err(EvalandParsingError::Overflow),
            },
            (Value::String(s1), Value::String(s2)) => Ok(Value::String(s1.concat(s2.as_str()))),
            _ => Err(EvalandParsingError::MismatchType),
        }
    }

    fn push(&mut self, value: Value)
        ensures
            final(self)@ == old(self)@.push(value@),
    {
        self.stack.push(value);
        assert(self@.stack =~= old(self)@.stack.push(value@));
    }

    fn set(&mut self, name: &String, value: &Value)
        ensures
            final(self)@ == (EvaluatorView {
                vars: old(self)@.vars.insert(name@, value@),
                stack: old(self)@.stack,
            }),
    {
        self.vars.insert(name.clone(), value.clone());
        assert(self@.vars =~= old(self)@.vars.insert(name@, value@));
    }

    fn lookup(&self, name: &String) -> (result: Result<Value, EvalandParsingError>)
        ensures
            value_result_view(result) == if self@.vars.contains_key(name@) {
                Ok::<ValueView, ErrorView>(self@.vars[name@])
            } else {
                Err(ErrorView::MissingVariable(name@))
            },
    {
        match self.vars.get(name.as_str()) {
            Some(value) => Ok(value.clone()),
            None => Err(EvalandParsingError::MissingVariable(name.clone())),
        }
    }

    fn sum_top(&mut self) -> (result: Result<(), EvalandParsingError>)
        ensures
            final(self)@ == old(self)@.add().0,
            match result {
                Ok(()) => old(self)@.add().1 == Ok::<(), ErrorView>(()),
                Err(e) => old(self)@.add().1 == Err::<(), ErrorView>(e@),
            },
    {
        let lhs = match self.pop() {
            Ok(value) => value,
            Err(e) => return Err(e),
        };
        let rhs = match self.pop() {
            Ok(value) => value,
            Err(e) => return Err(e),
        };
        match self.add(lhs, rhs) {
            Ok(sum) => {
                self.push(sum);
                Ok(())
            },
            Err(e) => Err(e),
        }
    }

    /// Runs the commands in order against this evaluator and returns the
    /// last output: the value of the last `get` or `pop`, or `Nothing` when
    /// there was none. The first command that fails ends the run with its
    /// error; what the commands before it did to the variables and the stack
    /// stays done.
    pub fn evaluate(&mut self, commands: &[Command]) -> (result: Result<
        Value,
        EvalandParsingError,
    >)
        ensures
            (final(self)@, value_result_view(result)) == old(self)@.run(
                ValueView::Nothing,
                commands_view(commands@),
            ),
    {
        let ghost whole = commands_view(commands@);
        let mut output = Value::Nothing;
        let mut i: usize = 0;
        assert(whole.skip(0) =~= whole);
        while i < commands.len()
            invariant
                i <= commands.len(),
                whole == commands_view(commands@),
                old(self)@.run(ValueView::Nothing, whole) == self@.run(
                    output@,
                    whole.skip(i as int),
                ),
            decreases commands.len() - i,
        {
            let ghost rest = whole.skip(i as int);
            assert(rest.first() == commands@[i as int]@);
            assert(rest.drop_first() =~= whole.skip(i + 1));
            match &commands[i] {
                Command::SetVar(name, value) => {
                    self.set(name, value);
                },
                Command::GetVar(name) => match self.lookup(name) {
                    Ok(value) => {
                        output = value;
                    },
                    Err(e) => {
                        return Err(e);
                    },
                },
                Command::PushVar(name) => match self.lookup(name) {
                    Ok(value) => {
                        self.push(value);
                    },
                    Err(e) => {
                        return Err(e);
                    },
                },
                Command::Push(value) => {
                    self.push(value.clone());
                },
                Command::Pop => match self.pop() {
                    Ok(value) => {
                        output = value;
                    },
                    Err(e) => {
                        return Err(e);
                    },
                },
                Command::Add => match self.sum_top() {
                    Ok(()) => {},
                    Err(e) => {
                        return Err(e);
                    },
                },
            }
            i += 1;
        }
        Ok(output)
    }
}

} // verus!
