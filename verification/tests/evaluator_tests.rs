use stack_script::command::Command;
use stack_script::error::EvalandParsingError;
use stack_script::evaluator::Evaluator;
use stack_script::parser::{parse, parse_value};
use stack_script::value::Value;

fn run(script: &str) -> Result<Value, EvalandParsingError> {
    let commands = parse(script)?;
    Evaluator::new().evaluate(&commands)
}

fn run_on(evaluator: &mut Evaluator, script: &str) -> Result<Value, EvalandParsingError> {
    let commands = parse(script)?;
    evaluator.evaluate(&commands)
}

fn text(s: &str) -> Value {
    Value::String(s.to_string())
}

#[test]
fn add_ints_sums() {
    assert_eq!(run("push 1\npush 2\nadd\npop"), Ok(Value::Int(3)));
    assert_eq!(run("push -5\npush 5\nadd\npop"), Ok(Value::Int(0)));
    assert_eq!(run("push 40\npush +2\nadd\npop\n"), Ok(Value::Int(42)));
    assert_eq!(
        run("push 9223372036854775806\npush 1\nadd\npop"),
        Ok(Value::Int(i64::MAX))
    );
    assert_eq!(
        run("push -9223372036854775808\npush 9223372036854775807\nadd\npop"),
        Ok(Value::Int(-1))
    );
}

#[test]
fn add_ints_for_many_pairs() {
    let samples = [0i64, 1, -1, 2, 7, -13, 1000, i64::MAX, i64::MIN, i64::MAX - 1, i64::MIN + 1];
    for i1 in samples {
        for i2 in samples {
            let script = format!("push {}\npush {}\nadd\npop", i1, i2);
            let expected = match i2.checked_add(i1) {
                Some(sum) => Ok(Value::Int(sum)),
                None => Err(EvalandParsingError::Overflow),
            };
            assert_eq!(run(&script), expected, "{} and {}", i1, i2);
        }
    }
}

#[test]
fn add_ints_that_overflow_fails() {
    assert_eq!(
        run("push 9223372036854775807\npush 1\nadd\npop"),
        Err(EvalandParsingError::Overflow)
    );
    assert_eq!(
        run("push -9223372036854775808\npush -1\nadd\npop"),
        Err(EvalandParsingError::Overflow)
    );
}

#[test]
fn add_strings_puts_the_last_pushed_first() {
    assert_eq!(run("push \"s1\"\npush \"s2\"\nadd\npop"), Ok(text("s2s1")));
    assert_eq!(run("push \"world\"\npush \"hello\"\nadd\npop"), Ok(text("helloworld")));
    assert_eq!(run("push \"\"\npush \"a\"\nadd\npop"), Ok(text("a")));
    assert_eq!(run("push \"a\"\npush \"\"\nadd\npop"), Ok(text("a")));
    assert_eq!(run("push \"\"\npush \"\"\nadd\npop"), Ok(text("")));
    assert_eq!(run("push \"語\"\npush \"日本\"\nadd\npop"), Ok(text("日本語")));
}

#[test]
fn add_strings_for_many_pairs() {
    let samples = ["", "a", "ab", "x\"y", "é", "12", "🦀"];
    for s1 in samples {
        for s2 in samples {
            let script = format!("push \"{}\"\npush \"{}\"\nadd\npop", s1, s2);
            assert_eq!(run(&script), Ok(Value::String(format!("{}{}", s2, s1))));
        }
    }
}

#[test]
fn set_then_get_yields_the_value() {
    assert_eq!(run("set x 5\nget x"), Ok(Value::Int(5)));
    assert_eq!(run("set x \"five\"\nget x"), Ok(text("five")));
}

#[test]
fn get_of_an_unbound_name_fails() {
    assert_eq!(run("get y"), Err(EvalandParsingError::MissingVariable("y".to_string())));
    assert_eq!(
        run("set x 5\nget y"),
        Err(EvalandParsingError::MissingVariable("y".to_string()))
    );
    assert_eq!(run("set x 5\nget X"), Err(EvalandParsingError::MissingVariable("X".to_string())));
}

#[test]
fn pushvar_of_an_unbound_name_fails() {
    assert_eq!(run("pushvar y"), Err(EvalandParsingError::MissingVariable("y".to_string())));
}

#[test]
fn pop_on_an_empty_stack_fails() {
    assert_eq!(run("pop"), Err(EvalandParsingError::EmptyStack));
    assert_eq!(run("set x 1\nget x\npop"), Err(EvalandParsingError::EmptyStack));
    assert_eq!(run("push 1\npop\npop"), Err(EvalandParsingError::EmptyStack));
}

#[test]
fn pop_on_an_empty_stack_ends_the_run() {
    let mut evaluator = Evaluator::new();
    assert_eq!(run_on(&mut evaluator, "pop\nset x 1\nget x"), Err(EvalandParsingError::EmptyStack));
    assert_eq!(
        run_on(&mut evaluator, "get x"),
        Err(EvalandParsingError::MissingVariable("x".to_string()))
    );
}

#[test]
fn add_of_mixed_types_fails() {
    assert_eq!(run("push 1\npush \"a\"\nadd"), Err(EvalandParsingError::MismatchType));
    assert_eq!(run("push \"a\"\npush 1\nadd"), Err(EvalandParsingError::MismatchType));
}

#[test]
fn add_on_a_short_stack_fails() {
    assert_eq!(run("add"), Err(EvalandParsingError::EmptyStack));
    assert_eq!(run("push 1\nadd"), Err(EvalandParsingError::EmptyStack));
}

#[test]
fn empty_script_yields_nothing() {
    assert_eq!(run(""), Ok(Value::Nothing));
    assert_eq!(run("\n\n"), Ok(Value::Nothing));
    assert_eq!(run("  \n\t\r\n"), Ok(Value::Nothing));
    assert_eq!(Evaluator::new().evaluate(&[]), Ok(Value::Nothing));
}

#[test]
fn script_without_get_or_pop_yields_nothing() {
    assert_eq!(run("set x 1\npush 2\npushvar x\nadd"), Ok(Value::Nothing));
}

#[test]
fn push_then_pop_yields_what_the_literal_denotes() {
    let literals = [
        "0", "-1", "+1", "007", "9223372036854775807", "-9223372036854775808", "\"\"", "\"a\"",
        "\"a\"b\"", "\"\\n\"", "\"12\"", "\"日本語\"",
    ];
    for literal in literals {
        let script = format!("push {}\npop", literal);
        assert_eq!(run(&script), parse_value(literal), "literal {}", literal);
        assert!(parse_value(literal).is_ok());
    }
}

#[test]
fn unknown_command_stops_before_anything_runs() {
    let mut evaluator = Evaluator::new();
    assert_eq!(
        run_on(&mut evaluator, "set x 1\nfrobnicate 1"),
        Err(EvalandParsingError::UnknownCommand("frobnicate".to_string()))
    );
    assert_eq!(
        run_on(&mut evaluator, "get x"),
        Err(EvalandParsingError::MissingVariable("x".to_string()))
    );
}

#[test]
fn output_is_the_last_get_or_pop() {
    assert_eq!(run("set x 1\nset y 2\nget x\nget y"), Ok(Value::Int(2)));
    assert_eq!(run("push 1\npush 2\npop\npop"), Ok(Value::Int(1)));
    assert_eq!(run("set x 9\npush 1\npop\nget x"), Ok(Value::Int(9)));
    assert_eq!(run("set x 9\npush 1\nget x\npop"), Ok(Value::Int(1)));
}

#[test]
fn add_and_push_and_set_leave_the_output_alone() {
    assert_eq!(run("set x 9\nget x\npush 1\npush 2\nadd\nset x 3\npushvar x"), Ok(Value::Int(9)));
}

#[test]
fn get_leaves_the_stack_alone() {
    assert_eq!(run("set x 9\npush 1\nget x\nget x\npop"), Ok(Value::Int(1)));
    assert_eq!(run("set x 9\nget x\npop"), Err(EvalandParsingError::EmptyStack));
}

#[test]
fn pushvar_pushes_a_copy() {
    assert_eq!(run("set x 4\npushvar x\npushvar x\nadd\npop"), Ok(Value::Int(8)));
    assert_eq!(run("set x 4\npushvar x\nset x 5\npop"), Ok(Value::Int(4)));
    assert_eq!(run("set x 4\npushvar x\npop\nget x"), Ok(Value::Int(4)));
}

#[test]
fn set_overwrites() {
    assert_eq!(run("set x 1\nset x \"two\"\nget x"), Ok(text("two")));
}

#[test]
fn names_are_verbatim_tokens() {
    assert_eq!(run("set 5 6\nget 5"), Ok(Value::Int(6)));
    assert_eq!(run("set \"x\" 6\nget \"x\""), Ok(Value::Int(6)));
    assert_eq!(
        run("set \"x\" 6\nget x"),
        Err(EvalandParsingError::MissingVariable("x".to_string()))
    );
    assert_eq!(run("set größe 6\nget größe"), Ok(Value::Int(6)));
}

#[test]
fn stack_is_last_in_first_out() {
    assert_eq!(run("push 1\npush 2\npush 3\npop"), Ok(Value::Int(3)));
    assert_eq!(run("push 1\npush 2\npush 3\npop\npop\npop"), Ok(Value::Int(1)));
    assert_eq!(run("push 1\npush 2\npush 3\nadd\nadd\npop"), Ok(Value::Int(6)));
    assert_eq!(
        run("push \"c\"\npush \"b\"\npush \"a\"\nadd\nadd\npop"),
        Ok(text("abc"))
    );
}

#[test]
fn state_lasts_from_one_run_to_the_next() {
    let mut evaluator = Evaluator::new();
    assert_eq!(run_on(&mut evaluator, "set x 1\npush 10"), Ok(Value::Nothing));
    assert_eq!(run_on(&mut evaluator, "get x"), Ok(Value::Int(1)));
    assert_eq!(run_on(&mut evaluator, "pushvar x\nadd\npop"), Ok(Value::Int(11)));
    assert_eq!(run_on(&mut evaluator, "pop"), Err(EvalandParsingError::EmptyStack));
}

#[test]
fn output_starts_as_nothing_in_each_run() {
    let mut evaluator = Evaluator::new();
    assert_eq!(run_on(&mut evaluator, "set x 1\nget x"), Ok(Value::Int(1)));
    assert_eq!(run_on(&mut evaluator, "set y 2"), Ok(Value::Nothing));
}

#[test]
fn failure_rolls_nothing_back() {
    let mut evaluator = Evaluator::new();
    assert_eq!(
        run_on(&mut evaluator, "set x 1\npush 7\nget y\nset x 2\npush 8"),
        Err(EvalandParsingError::MissingVariable("y".to_string()))
    );
    assert_eq!(run_on(&mut evaluator, "get x"), Ok(Value::Int(1)));
    assert_eq!(run_on(&mut evaluator, "pop"), Ok(Value::Int(7)));
    assert_eq!(run_on(&mut evaluator, "pop"), Err(EvalandParsingError::EmptyStack));
}

#[test]
fn failed_pushvar_leaves_the_stack_alone() {
    let mut evaluator = Evaluator::new();
    assert_eq!(
        run_on(&mut evaluator, "push 7\npushvar y"),
        Err(EvalandParsingError::MissingVariable("y".to_string()))
    );
    assert_eq!(run_on(&mut evaluator, "pop"), Ok(Value::Int(7)));
    assert_eq!(run_on(&mut evaluator, "pop"), Err(EvalandParsingError::EmptyStack));
}

#[test]
fn failed_add_keeps_its_operands_off_the_stack() {
    let mut evaluator = Evaluator::new();
    assert_eq!(run_on(&mut evaluator, "push 7\nadd"), Err(EvalandParsingError::EmptyStack));
    assert_eq!(run_on(&mut evaluator, "pop"), Err(EvalandParsingError::EmptyStack));

    let mut evaluator = Evaluator::new();
    assert_eq!(
        run_on(&mut evaluator, "push 5\npush 1\npush \"a\"\nadd"),
        Err(EvalandParsingError::MismatchType)
    );
    assert_eq!(run_on(&mut evaluator, "pop"), Ok(Value::Int(5)));
    assert_eq!(run_on(&mut evaluator, "pop"), Err(EvalandParsingError::EmptyStack));

    let mut evaluator = Evaluator::new();
    assert_eq!(
        run_on(&mut evaluator, "push 5\npush 9223372036854775807\npush 1\nadd"),
        Err(EvalandParsingError::Overflow)
    );
    assert_eq!(run_on(&mut evaluator, "pop"), Ok(Value::Int(5)));
}

#[test]
fn add_with_nothing_fails() {
    let evaluator = Evaluator::new();
    assert_eq!(
        evaluator.add(Value::Nothing, Value::Nothing),
        Err(EvalandParsingError::MismatchType)
    );
    assert_eq!(
        evaluator.add(Value::Nothing, Value::Int(1)),
        Err(EvalandParsingError::MismatchType)
    );
    assert_eq!(
        evaluator.add(text("a"), Value::Nothing),
        Err(EvalandParsingError::MismatchType)
    );
    assert_eq!(
        Evaluator::new().evaluate(&[
            Command::Push(Value::Nothing),
            Command::Push(Value::Nothing),
            Command::Add
        ]),
        Err(EvalandParsingError::MismatchType)
    );
}

#[test]
fn add_method_combines_two_values() {
    let evaluator = Evaluator::new();
    assert_eq!(evaluator.add(Value::Int(2), Value::Int(3)), Ok(Value::Int(5)));
    assert_eq!(evaluator.add(Value::Int(i64::MIN), Value::Int(i64::MAX)), Ok(Value::Int(-1)));
    assert_eq!(
        evaluator.add(Value::Int(i64::MAX), Value::Int(1)),
        Err(EvalandParsingError::Overflow)
    );
    assert_eq!(
        evaluator.add(Value::Int(i64::MIN), Value::Int(-1)),
        Err(EvalandParsingError::Overflow)
    );
    assert_eq!(evaluator.add(text("left"), text("right")), Ok(text("leftright")));
    assert_eq!(evaluator.add(Value::Int(1), text("a")), Err(EvalandParsingError::MismatchType));
    assert_eq!(evaluator.add(text("a"), Value::Int(1)), Err(EvalandParsingError::MismatchType));
}

#[test]
fn pop_method_takes_the_top() {
    let mut evaluator = Evaluator::new();
    assert_eq!(evaluator.pop(), Err(EvalandParsingError::EmptyStack));
    assert_eq!(
        evaluator.evaluate(&[Command::Push(Value::Int(1)), Command::Push(text("two"))]),
        Ok(Value::Nothing)
    );
    assert_eq!(evaluator.pop(), Ok(text("two")));
    assert_eq!(evaluator.pop(), Ok(Value::Int(1)));
    assert_eq!(evaluator.pop(), Err(EvalandParsingError::EmptyStack));
}

#[test]
fn evaluate_runs_commands_built_by_hand() {
    let commands = [
        Command::SetVar("x".to_string(), text("a")),
        Command::PushVar("x".to_string()),
        Command::Push(text("b")),
        Command::Add,
        Command::Pop,
    ];
    assert_eq!(Evaluator::new().evaluate(&commands), Ok(text("ba")));
}

#[test]
fn pushing_nothing_and_popping_yields_nothing() {
    assert_eq!(
        Evaluator::new().evaluate(&[Command::Push(Value::Nothing), Command::Pop]),
        Ok(Value::Nothing)
    );
}

#[test]
fn values_equal_when_they_hold_the_same() {
    assert_eq!(Value::Nothing, Value::Nothing);
    assert_eq!(Value::Int(3), Value::Int(3));
    assert_eq!(text("a"), text("a"));
    assert_ne!(Value::Int(3), Value::Int(4));
    assert_ne!(text("a"), text("b"));
    assert_ne!(Value::Int(3), text("3"));
    assert_ne!(Value::Nothing, Value::Int(0));
    assert_ne!(Value::Nothing, text(""));
}

#[test]
fn clones_equal_what_they_copy() {
    let values = [Value::Nothing, Value::Int(-7), text("seven")];
    for value in &values {
        assert_eq!(&value.clone(), value);
    }
    let commands = [
        Command::SetVar("x".to_string(), Value::Int(1)),
        Command::GetVar("x".to_string()),
        Command::PushVar("x".to_string()),
        Command::Push(text("p")),
        Command::Pop,
        Command::Add,
    ];
    for command in &commands {
        assert_eq!(&command.clone(), command);
    }
    let errors = [
        EvalandParsingError::MismatchNumParams,
        EvalandParsingError::MismatchType,
        EvalandParsingError::UnknownCommand("u".to_string()),
        EvalandParsingError::MissingVariable("m".to_string()),
        EvalandParsingError::EmptyStack,
        EvalandParsingError::Overflow,
    ];
    for error in &errors {
        assert_eq!(&error.clone(), error);
    }
}

#[test]
fn commands_and_errors_differ_by_kind_and_content() {
    assert_ne!(Command::Pop, Command::Add);
    assert_ne!(Command::GetVar("x".to_string()), Command::PushVar("x".to_string()));
    assert_ne!(Command::GetVar("x".to_string()), Command::GetVar("y".to_string()));
    assert_ne!(Command::Push(Value::Int(1)), Command::Push(Value::Int(2)));
    assert_ne!(
        Command::SetVar("x".to_string(), Value::Int(1)),
        Command::SetVar("x".to_string(), Value::Int(2))
    );
    assert_ne!(
        EvalandParsingError::UnknownCommand("x".to_string()),
        EvalandParsingError::MissingVariable("x".to_string())
    );
    assert_ne!(
        EvalandParsingError::UnknownCommand("x".to_string()),
        EvalandParsingError::UnknownCommand("y".to_string())
    );
    assert_ne!(EvalandParsingError::EmptyStack, EvalandParsingError::MismatchType);
}
