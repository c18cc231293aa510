//! What holds of the parser and the evaluator for all inputs, proved from
//! their models.

use crate::command::CommandView;
use crate::error::ErrorView;
use crate::evaluator::{combine, EvaluatorView};
use crate::parser::{
    int_literal, is_digit, is_string_literal, spec_parse, spec_parse_command, spec_parse_int,
    spec_parse_line, spec_parse_lines, spec_parse_value, unsigned_part,
};
use crate::text::{
    after_first_line, first_line, has_no_line_feed, has_no_space, is_ascii_space,
    lemma_line_len_bound, lemma_lines_cons, lemma_lines_one, lemma_tokens_space,
    lemma_tokens_word, lines, tokens,
};
use crate::value::ValueView;
use vstd::prelude::*;

verus! {

/// True for what can stand as a token of a line: a sequence of chars that
/// is not empty and holds no separator.
pub open spec fn is_token(token: Seq<char>) -> bool {
    token.len() > 0 && has_no_space(token)
}

/// The line of two tokens with one space between them.
pub open spec fn two_words(a: Seq<char>, b: Seq<char>) -> Seq<char> {
    a + seq![' '] + b
}

/// The line of three tokens with one space between each two.
pub open spec fn three_words(a: Seq<char>, b: Seq<char>, c: Seq<char>) -> Seq<char> {
    a + seq![' '] + b + seq![' '] + c
}

/// The script that starts with `line` and goes on, after a line feed, with
/// `rest`.
pub open spec fn line_and(line: Seq<char>, rest: Seq<char>) -> Seq<char> {
    line + seq!['\n'] + rest
}

/// What a script gives whose first line gives `first` and whose other lines
/// give `rest`: the error of the first line, else the error of the rest,
/// else the command of the first line, if it holds one, before those of the
/// rest.
pub open spec fn first_and_rest(
    first: Result<Option<CommandView>, ErrorView>,
    rest: Result<Seq<CommandView>, ErrorView>,
) -> Result<Seq<CommandView>, ErrorView> {
    match first {
        Err(e) => Err(e),
        Ok(first) => match rest {
            Err(e) => Err(e),
            Ok(rest) => match first {
                Some(command) => Ok(seq![command] + rest),
                None => Ok(rest),
            },
        },
    }
}

/// Running no command changes nothing and yields the output as it was.
pub proof fn law_run_nothing(state: EvaluatorView, output: ValueView)
    ensures
        state.run(output, Seq::empty()) == (state, Ok::<ValueView, ErrorView>(output)),
{
}

/// Running a sequence of commands is running its first command and then,
/// unless that failed, the rest from where the first left off.
pub proof fn law_run_first(
    state: EvaluatorView,
    output: ValueView,
    first: CommandView,
    rest: Seq<CommandView>,
)
    ensures
        state.run(output, seq![first] + rest) == match state.step(output, first) {
            (next, Ok(next_output)) => next.run(next_output, rest),
            (next, Err(e)) => (next, Err(e)),
        },
{
    assert((seq![first] + rest).drop_first() =~= rest);
}

/// Running one sequence of commands after another is running the first
/// and then, unless a command of it failed, the second from where the first
/// left off. A command that fails ends the run: none after it is run.
pub proof fn law_run_concat(
    state: EvaluatorView,
    output: ValueView,
    first: Seq<CommandView>,
    second: Seq<CommandView>,
)
    ensures
        state.run(output, first + second) == match state.run(output, first) {
            (next, Ok(next_output)) => next.run(next_output, second),
            (next, Err(e)) => (next, Err(e)),
        },
    decreases first.len(),
{
    if first.len() == 0 {
        assert(first + second =~= second);
    } else {
        assert((first + second).first() == first.first());
        assert((first + second).drop_first() =~= first.drop_first() + second);
        match state.step(output, first.first()) {
            (next, Ok(next_output)) => {
                law_run_concat(next, next_output, first.drop_first(), second);
            },
            (_, Err(_)) => {},
        }
    }
}

/// Pushing a value and then popping leaves the state as it was and yields
/// that value.
pub proof fn law_push_pop(state: EvaluatorView, output: ValueView, value: ValueView)
    ensures
        state.run(output, seq![CommandView::Push(value), CommandView::Pop]) == (
            state,
            Ok::<ValueView, ErrorView>(value),
        ),
{
    let pushed = state.push(value);
    assert(pushed.stack.drop_last() =~= state.stack);
    assert(seq![CommandView::Push(value), CommandView::Pop] =~= seq![CommandView::Push(value)]
        + seq![CommandView::Pop]);
    law_run_first(state, output, CommandView::Push(value), seq![CommandView::Pop]);
    assert(seq![CommandView::Pop] =~= seq![CommandView::Pop] + Seq::empty());
    law_run_first(pushed, output, CommandView::Pop, Seq::empty());
}

/// Pushing two values, adding and popping leaves the state as it was, and
/// yields what the second value combines to with the first: the value
/// pushed last is the left operand.
pub proof fn law_push_push_add_pop(
    state: EvaluatorView,
    output: ValueView,
    first: ValueView,
    second: ValueView,
)
    ensures
        state.run(
            output,
            seq![
                CommandView::Push(first),
                CommandView::Push(second),
                CommandView::Add,
                CommandView::Pop,
            ],
        ) == (state, combine(second, first)),
{
    let one = state.push(first);
    let two = one.push(second);
    assert(two.stack.drop_last() =~= one.stack);
    assert(one.stack.drop_last() =~= state.stack);
    assert(two.pop() == (one, Ok::<ValueView, ErrorView>(second)));
    assert(one.pop() == (state, Ok::<ValueView, ErrorView>(first)));
    let tail3 = seq![CommandView::Push(second), CommandView::Add, CommandView::Pop];
    let tail2 = seq![CommandView::Add, CommandView::Pop];
    let tail1 = seq![CommandView::Pop];
    assert(seq![
        CommandView::Push(first),
        CommandView::Push(second),
        CommandView::Add,
        CommandView::Pop,
    ] =~= seq![CommandView::Push(first)] + tail3);
    assert(tail3 =~= seq![CommandView::Push(second)] + tail2);
    assert(tail2 =~= seq![CommandView::Add] + tail1);
    assert(tail1 =~= seq![CommandView::Pop] + Seq::empty());
    law_run_first(state, output, CommandView::Push(first), tail3);
    law_run_first(one, output, CommandView::Push(second), tail2);
    law_run_first(two, output, CommandView::Add, tail1);
    match combine(second, first) {
        Ok(sum) => {
            let summed = state.push(sum);
            assert(summed.stack.drop_last() =~= state.stack);
            law_run_first(summed, output, CommandView::Pop, Seq::empty());
        },
        Err(_) => {},
    }
}

/// For all integers `i1` and `i2` whose sum fits in 64 bits, pushing `i1`,
/// pushing `i2`, adding and popping yields `i2 + i1`. Where the sum does
/// not fit, the same commands fail with `Overflow`. Either way the state is
/// left as it was.
pub proof fn law_add_ints(state: EvaluatorView, output: ValueView, i1: i64, i2: i64)
    ensures
        state.run(
            output,
            seq![
                CommandView::Push(ValueView::Int(i1)),
                CommandView::Push(ValueView::Int(i2)),
                CommandView::Add,
                CommandView::Pop,
            ],
        ) == (
            state,
            if i64::MIN <= i2 + i1 <= i64::MAX {
                Ok::<ValueView, ErrorView>(ValueView::Int((i2 + i1) as i64))
            } else {
                Err::<ValueView, ErrorView>(ErrorView::Overflow)
            },
        ),
{
    law_push_push_add_pop(state, output, ValueView::Int(i1), ValueView::Int(i2));
}

/// For all strings `s1` and `s2`, pushing `s1`, pushing `s2`, adding and
/// popping yields `s2` followed by `s1`, and leaves the state as it was.
pub proof fn law_add_strings(
    state: EvaluatorView,
    output: ValueView,
    s1: Seq<char>,
    s2: Seq<char>,
)
    ensures
        state.run(
            output,
            seq![
                CommandView::Push(ValueView::String(s1)),
                CommandView::Push(ValueView::String(s2)),
                CommandView::Add,
                CommandView::Pop,
            ],
        ) == (state, Ok::<ValueView, ErrorView>(ValueView::String(s2 + s1))),
{
    law_push_push_add_pop(state, output, ValueView::String(s1), ValueView::String(s2));
}

/// Pushing an integer and a string and adding fails with `MismatchType`,
/// in whichever order the two are pushed, and takes both off the stack
/// again.
pub proof fn law_add_mixed(state: EvaluatorView, output: ValueView, i: i64, s: Seq<char>)
    ensures
        state.run(
            output,
            seq![
                CommandView::Push(ValueView::Int(i)),
                CommandView::Push(ValueView::String(s)),
                CommandView::Add,
                CommandView::Pop,
            ],
        ) == (state, Err::<ValueView, ErrorView>(ErrorView::MismatchType)),
        state.run(
            output,
            seq![
                CommandView::Push(ValueView::String(s)),
                CommandView::Push(ValueView::Int(i)),
                CommandView::Add,
                CommandView::Pop,
            ],
        ) == (state, Err::<ValueView, ErrorView>(ErrorView::MismatchType)),
{
    law_push_push_add_pop(state, output, ValueView::Int(i), ValueView::String(s));
    law_push_push_add_pop(state, output, ValueView::String(s), ValueView::Int(i));
}

/// Popping with nothing on the stack fails with `EmptyStack` and changes
/// nothing.
pub proof fn law_pop_empty(state: EvaluatorView, output: ValueView)
    requires
        state.stack.len() == 0,
    ensures
        state.run(output, seq![CommandView::Pop]) == (
            state,
            Err::<ValueView, ErrorView>(ErrorView::EmptyStack),
        ),
{
    assert(seq![CommandView::Pop] =~= seq![CommandView::Pop] + Seq::empty());
    law_run_first(state, output, CommandView::Pop, Seq::empty());
}

/// Setting a variable and then getting it yields the value set, whatever
/// the variable held before.
pub proof fn law_set_get(
    state: EvaluatorView,
    output: ValueView,
    name: Seq<char>,
    value: ValueView,
)
    ensures
        state.run(output, seq![CommandView::SetVar(name, value), CommandView::GetVar(name)]) == (
            EvaluatorView { vars: state.vars.insert(name, value), stack: state.stack },
            Ok::<ValueView, ErrorView>(value),
        ),
{
    let set = EvaluatorView { vars: state.vars.insert(name, value), stack: state.stack };
    assert(seq![CommandView::SetVar(name, value), CommandView::GetVar(name)] =~= seq![
        CommandView::SetVar(name, value),
    ] + seq![CommandView::GetVar(name)]);
    law_run_first(state, output, CommandView::SetVar(name, value), seq![CommandView::GetVar(name)]);
    assert(seq![CommandView::GetVar(name)] =~= seq![CommandView::GetVar(name)] + Seq::empty());
    law_run_first(set, output, CommandView::GetVar(name), Seq::empty());
}

/// Getting a variable that was never set fails with `MissingVariable` and
/// the name, and changes nothing.
pub proof fn law_get_unbound(state: EvaluatorView, output: ValueView, name: Seq<char>)
    requires
        !state.vars.contains_key(name),
    ensures
        state.run(output, seq![CommandView::GetVar(name)]) == (
            state,
            Err::<ValueView, ErrorView>(ErrorView::MissingVariable(name)),
        ),
{
    assert(seq![CommandView::GetVar(name)] =~= seq![CommandView::GetVar(name)] + Seq::empty());
    law_run_first(state, output, CommandView::GetVar(name), Seq::empty());
}

/// A token made of a double quote, any chars and a double quote denotes the
/// string of those chars, whatever they are.
pub proof fn law_quoted_token(inner: Seq<char>)
    ensures
        spec_parse_value(seq!['"'] + inner + seq!['"']) == Ok::<ValueView, ErrorView>(
            ValueView::String(inner),
        ),
{
    let token = seq!['"'] + inner + seq!['"'];
    assert(is_string_literal(token));
    assert(token.subrange(1, token.len() - 1) =~= inner);
}

/// A token that denotes an integer can stand as a token of a line, and is
/// no string literal.
pub proof fn law_int_token(token: Seq<char>)
    requires
        int_literal(token) is Some,
    ensures
        is_token(token),
        !is_string_literal(token),
{
    let digits = unsigned_part(token);
    assert forall|i: int| 0 <= i < token.len() implies !is_ascii_space(#[trigger] token[i]) by {
        if i > 0 || digits == token {
            let j = i - (token.len() - digits.len());
            assert(digits[j] == token[i]);
            assert(is_digit(digits[j]));
        }
    }
    assert(token[0] != '"') by {
        if digits == token {
            assert(is_digit(digits[0]));
        }
    }
}

/// The six keywords can stand as tokens, and no two of them are the same.
pub proof fn law_keywords()
    ensures
        is_token("set"@),
        is_token("get"@),
        is_token("push"@),
        is_token("pushvar"@),
        is_token("pop"@),
        is_token("add"@),
        "get"@ != "set"@,
        "push"@ != "set"@ && "push"@ != "get"@,
        "pushvar"@ != "set"@ && "pushvar"@ != "get"@ && "pushvar"@ != "push"@,
        "pop"@ != "set"@ && "pop"@ != "get"@ && "pop"@ != "push"@ && "pop"@ != "pushvar"@,
        "add"@ != "set"@ && "add"@ != "get"@ && "add"@ != "push"@ && "add"@ != "pushvar"@ && "add"@
            != "pop"@,
{
    reveal_strlit("set");
    reveal_strlit("get");
    reveal_strlit("push");
    reveal_strlit("pushvar");
    reveal_strlit("pop");
    reveal_strlit("add");
    assert("set"@.len() == 3 && "set"@[0] == 's');
    assert("get"@.len() == 3 && "get"@[0] == 'g');
    assert("push"@.len() == 4);
    assert("pushvar"@.len() == 7);
    assert("pop"@.len() == 3 && "pop"@[0] == 'p');
    assert("add"@.len() == 3 && "add"@[0] == 'a');
}

/// A token alone on a line is the one token of the line.
pub proof fn law_one_word(a: Seq<char>)
    requires
        is_token(a),
    ensures
        tokens(a) == seq![a],
        has_no_line_feed(a),
{
    assert(a =~= a + Seq::<char>::empty());
    lemma_tokens_word(a, Seq::empty());
    assert(seq![a] + Seq::<Seq<char>>::empty() =~= seq![a]);
    assert forall|i: int| 0 <= i < a.len() implies #[trigger] a[i] != '\n' by {
        assert(!is_ascii_space(a[i]));
    }
}

/// Two tokens with a space between them are the two tokens of their line.
pub proof fn law_two_words(a: Seq<char>, b: Seq<char>)
    requires
        is_token(a),
        is_token(b),
    ensures
        tokens(two_words(a, b)) == seq![a, b],
        has_no_line_feed(two_words(a, b)),
{
    let line = two_words(a, b);
    assert(line =~= a + (seq![' '] + b));
    lemma_tokens_word(a, seq![' '] + b);
    lemma_tokens_space(' ', b);
    law_one_word(b);
    assert(seq![a] + seq![b] =~= seq![a, b]);
    law_one_word(a);
    assert forall|i: int| 0 <= i < line.len() implies #[trigger] line[i] != '\n' by {
        if i < a.len() {
            assert(line[i] == a[i]);
        } else if i > a.len() {
            assert(line[i] == b[i - a.len() - 1]);
        }
    }
}

/// Three tokens with a space between each two are the three tokens of
/// their line.
pub proof fn law_three_words(a: Seq<char>, b: Seq<char>, c: Seq<char>)
    requires
        is_token(a),
        is_token(b),
        is_token(c),
    ensures
        tokens(three_words(a, b, c)) == seq![a, b, c],
        has_no_line_feed(three_words(a, b, c)),
{
    let line = three_words(a, b, c);
    assert(line =~= a + (seq![' '] + two_words(b, c)));
    lemma_tokens_word(a, seq![' '] + two_words(b, c));
    lemma_tokens_space(' ', two_words(b, c));
    law_two_words(b, c);
    assert(seq![a] + seq![b, c] =~= seq![a, b, c]);
    law_one_word(a);
    assert forall|i: int| 0 <= i < line.len() implies #[trigger] line[i] != '\n' by {
        if i < a.len() {
            assert(line[i] == a[i]);
        } else if i > a.len() {
            assert(line[i] == two_words(b, c)[i - a.len() - 1]);
        }
    }
}

/// A line of separators alone holds no token.
pub proof fn law_blank_line(line: Seq<char>)
    requires
        forall|i: int| 0 <= i < line.len() ==> is_ascii_space(line[i]),
    ensures
        tokens(line) == Seq::<Seq<char>>::empty(),
    decreases line.len(),
{
    if line.len() > 0 {
        assert forall|i: int| 0 <= i < line.drop_first().len() implies is_ascii_space(
            line.drop_first()[i],
        ) by {
            assert(line.drop_first()[i] == line[i + 1]);
        }
        law_blank_line(line.drop_first());
    }
}

/// A line whose first token is none of the six keywords fails with
/// `UnknownCommand` and that token, whatever follows the token.
pub proof fn law_unknown_command(line: Seq<char>)
    requires
        tokens(line).len() > 0,
        tokens(line)[0] != "set"@,
        tokens(line)[0] != "get"@,
        tokens(line)[0] != "push"@,
        tokens(line)[0] != "pushvar"@,
        tokens(line)[0] != "pop"@,
        tokens(line)[0] != "add"@,
    ensures
        spec_parse_line(line) == Err::<Option<CommandView>, ErrorView>(
            ErrorView::UnknownCommand(tokens(line)[0]),
        ),
{
}

/// A line that starts with `pop` or `add` is that command, whatever
/// follows the keyword.
pub proof fn law_pop_add_line(line: Seq<char>)
    requires
        tokens(line).len() > 0,
    ensures
        tokens(line)[0] == "pop"@ ==> spec_parse_line(line) == Ok::<
            Option<CommandView>,
            ErrorView,
        >(Some(CommandView::Pop)),
        tokens(line)[0] == "add"@ ==> spec_parse_line(line) == Ok::<
            Option<CommandView>,
            ErrorView,
        >(Some(CommandView::Add)),
{
    law_keywords();
}

/// The line `push <token>` is a push of the value that the token denotes,
/// and fails as the token does if it denotes none.
pub proof fn law_push_line(token: Seq<char>)
    requires
        is_token(token),
    ensures
        spec_parse_line(two_words("push"@, token)) == match spec_parse_value(token) {
            Ok(value) => Ok::<Option<CommandView>, ErrorView>(Some(CommandView::Push(value))),
            Err(e) => Err(e),
        },
        has_no_line_feed(two_words("push"@, token)),
{
    law_keywords();
    law_two_words("push"@, token);
}

/// The line `set <name> <token>` binds the name to the value that the token
/// denotes, and fails as the token does if it denotes none.
pub proof fn law_set_line(name: Seq<char>, token: Seq<char>)
    requires
        is_token(name),
        is_token(token),
    ensures
        spec_parse_line(three_words("set"@, name, token)) == match spec_parse_value(token) {
            Ok(value) => Ok::<Option<CommandView>, ErrorView>(
                Some(CommandView::SetVar(name, value)),
            ),
            Err(e) => Err(e),
        },
        has_no_line_feed(three_words("set"@, name, token)),
{
    law_keywords();
    law_three_words("set"@, name, token);
}

/// The line `get <name>` gets the name, and the line `pushvar <name>`
/// pushes it.
pub proof fn law_get_pushvar_line(name: Seq<char>)
    requires
        is_token(name),
    ensures
        spec_parse_line(two_words("get"@, name)) == Ok::<Option<CommandView>, ErrorView>(
            Some(CommandView::GetVar(name)),
        ),
        spec_parse_line(two_words("pushvar"@, name)) == Ok::<Option<CommandView>, ErrorView>(
            Some(CommandView::PushVar(name)),
        ),
        has_no_line_feed(two_words("get"@, name)),
        has_no_line_feed(two_words("pushvar"@, name)),
{
    law_keywords();
    law_two_words("get"@, name);
    law_two_words("pushvar"@, name);
}

/// A script is parsed line by line, in order: what it gives is what its
/// first line gives and then what the rest gives, and the first line that
/// fails ends the parse with its error.
pub proof fn law_parse_first_line(line: Seq<char>, rest: Seq<char>)
    requires
        has_no_line_feed(line),
    ensures
        spec_parse(line_and(line, rest)) == first_and_rest(spec_parse_line(line), spec_parse(rest)),
{
    lemma_lines_cons(line, rest);
    let all = lines(line_and(line, rest));
    assert(all.first() == line);
    assert(all.drop_first() =~= lines(rest));
}

/// A script of one line, with no line feed after it, gives what that line
/// gives.
pub proof fn law_parse_last_line(line: Seq<char>)
    requires
        has_no_line_feed(line),
    ensures
        spec_parse(line) == first_and_rest(spec_parse_line(line), Ok(Seq::empty())),
{
    if line.len() > 0 {
        lemma_lines_one(line);
        assert(lines(line).first() == line);
        assert(lines(line).drop_first() =~= Seq::<Seq<char>>::empty());
        assert(spec_parse_lines(Seq::empty()) == Ok::<Seq<CommandView>, ErrorView>(Seq::empty()));
    }
}

/// A script without a token, that is a text of separators alone, parses to
/// no command, and running no command yields `Nothing`.
pub proof fn law_blank_script(state: EvaluatorView, text: Seq<char>)
    requires
        forall|i: int| 0 <= i < text.len() ==> is_ascii_space(text[i]),
    ensures
        spec_parse(text) == Ok::<Seq<CommandView>, ErrorView>(Seq::empty()),
        state.run(ValueView::Nothing, Seq::empty()) == (
            state,
            Ok::<ValueView, ErrorView>(ValueView::Nothing),
        ),
    decreases text.len(),
{
    if text.len() > 0 {
        lemma_line_len_bound(text);
        law_blank_line(first_line(text));
        law_blank_script(state, after_first_line(text));
        assert(lines(text).first() == first_line(text));
        assert(lines(text).drop_first() =~= lines(after_first_line(text)));
    }
}

/// The script of the four lines `push <t1>`, `push <t2>`, `add` and `pop`
/// parses to the four commands, and running them yields what the value of
/// `t2` combines to with the value of `t1`, and leaves the state as it was.
pub proof fn law_script_push_push_add_pop(
    state: EvaluatorView,
    t1: Seq<char>,
    t2: Seq<char>,
    v1: ValueView,
    v2: ValueView,
)
    requires
        is_token(t1),
        is_token(t2),
        spec_parse_value(t1) == Ok::<ValueView, ErrorView>(v1),
        spec_parse_value(t2) == Ok::<ValueView, ErrorView>(v2),
    ensures
        spec_parse(
            line_and(
                two_words("push"@, t1),
                line_and(two_words("push"@, t2), line_and("add"@, "pop"@)),
            ),
        ) == Ok::<Seq<CommandView>, ErrorView>(
            seq![CommandView::Push(v1), CommandView::Push(v2), CommandView::Add, CommandView::Pop],
        ),
        state.run(
            ValueView::Nothing,
            seq![CommandView::Push(v1), CommandView::Push(v2), CommandView::Add, CommandView::Pop],
        ) == (state, combine(v2, v1)),
{
    law_keywords();
    law_push_line(t1);
    law_push_line(t2);
    law_one_word("add"@);
    law_one_word("pop"@);
    law_pop_add_line("add"@);
    law_pop_add_line("pop"@);
    let last1 = "pop"@;
    let last2 = line_and("add"@, last1);
    let last3 = line_and(two_words("push"@, t2), last2);
    law_parse_last_line(last1);
    law_parse_first_line("add"@, last1);
    law_parse_first_line(two_words("push"@, t2), last2);
    law_parse_first_line(two_words("push"@, t1), last3);
    assert(seq![CommandView::Pop] + Seq::<CommandView>::empty() =~= seq![CommandView::Pop]);
    assert(seq![CommandView::Add] + seq![CommandView::Pop] =~= seq![
        CommandView::Add,
        CommandView::Pop,
    ]);
    assert(seq![CommandView::Push(v2)] + seq![CommandView::Add, CommandView::Pop] =~= seq![
        CommandView::Push(v2),
        CommandView::Add,
        CommandView::Pop,
    ]);
    assert(seq![CommandView::Push(v1)] + seq![
        CommandView::Push(v2),
        CommandView::Add,
        CommandView::Pop,
    ] =~= seq![CommandView::Push(v1), CommandView::Push(v2), CommandView::Add, CommandView::Pop]);
    law_push_push_add_pop(state, ValueView::Nothing, v1, v2);
}

/// For all tokens `t1` and `t2` that denote the integers `i1` and `i2`,
/// evaluating the script `push <t1>`, `push <t2>`, `add`, `pop` yields
/// `i2 + i1` where that sum fits in 64 bits, and fails with `Overflow`
/// where it does not.
pub proof fn law_script_add_ints(
    state: EvaluatorView,
    t1: Seq<char>,
    t2: Seq<char>,
    i1: i64,
    i2: i64,
)
    requires
        spec_parse_int(t1) == Ok::<ValueView, ErrorView>(ValueView::Int(i1)),
        spec_parse_int(t2) == Ok::<ValueView, ErrorView>(ValueView::Int(i2)),
    ensures
        spec_parse(
            line_and(
                two_words("push"@, t1),
                line_and(two_words("push"@, t2), line_and("add"@, "pop"@)),
            ),
        ) matches Ok(commands) && state.run(ValueView::Nothing, commands) == (
            state,
            if i64::MIN <= i2 + i1 <= i64::MAX {
                Ok::<ValueView, ErrorView>(ValueView::Int((i2 + i1) as i64))
            } else {
                Err::<ValueView, ErrorView>(ErrorView::Overflow)
            },
        ),
{
    law_int_token(t1);
    law_int_token(t2);
    law_script_push_push_add_pop(state, t1, t2, ValueView::Int(i1), ValueView::Int(i2));
}

/// For all strings `s1` and `s2` without a separator in them, evaluating
/// the script `push "<s1>"`, `push "<s2>"`, `add`, `pop` yields `s2`
/// followed by `s1`.
pub proof fn law_script_add_strings(state: EvaluatorView, s1: Seq<char>, s2: Seq<char>)
    requires
        has_no_space(s1),
        has_no_space(s2),
    ensures
        spec_parse(
            line_and(
                two_words("push"@, seq!['"'] + s1 + seq!['"']),
                line_and(
                    two_words("push"@, seq!['"'] + s2 + seq!['"']),
                    line_and("add"@, "pop"@),
                ),
            ),
        ) matches Ok(commands) && state.run(ValueView::Nothing, commands) == (
            state,
            Ok::<ValueView, ErrorView>(ValueView::String(s2 + s1)),
        ),
{
    let t1 = seq!['"'] + s1 + seq!['"'];
    let t2 = seq!['"'] + s2 + seq!['"'];
    law_quoted_token(s1);
    law_quoted_token(s2);
    assert forall|i: int| 0 <= i < t1.len() implies !is_ascii_space(#[trigger] t1[i]) by {
        if 0 < i < t1.len() - 1 {
            assert(t1[i] == s1[i - 1]);
        }
    }
    assert forall|i: int| 0 <= i < t2.len() implies !is_ascii_space(#[trigger] t2[i]) by {
        if 0 < i < t2.len() - 1 {
            assert(t2[i] == s2[i - 1]);
        }
    }
    law_script_push_push_add_pop(state, t1, t2, ValueView::String(s1), ValueView::String(s2));
}

/// For every token that denotes a value, evaluating the script
/// `push <token>`, `pop` yields that very value, and leaves the state as it
/// was.
pub proof fn law_script_push_pop(state: EvaluatorView, token: Seq<char>, value: ValueView)
    requires
        is_token(token),
        spec_parse_value(token) == Ok::<ValueView, ErrorView>(value),
    ensures
        spec_parse(line_and(two_words("push"@, token), "pop"@)) == Ok::<
            Seq<CommandView>,
            ErrorView,
        >(seq![CommandView::Push(value), CommandView::Pop]),
        state.run(ValueView::Nothing, seq![CommandView::Push(value), CommandView::Pop]) == (
            state,
            Ok::<ValueView, ErrorView>(value),
        ),
{
    law_keywords();
    law_push_line(token);
    law_one_word("pop"@);
    law_pop_add_line("pop"@);
    law_parse_last_line("pop"@);
    law_parse_first_line(two_words("push"@, token), "pop"@);
    assert(seq![CommandView::Pop] + Seq::<CommandView>::empty() =~= seq![CommandView::Pop]);
    assert(seq![CommandView::Push(value)] + seq![CommandView::Pop] =~= seq![
        CommandView::Push(value),
        CommandView::Pop,
    ]);
    law_push_pop(state, ValueView::Nothing, value);
}

/// For every name and every token that denotes a value, evaluating the
/// script `set <name> <token>`, `get <name>` yields that value and leaves
/// the name bound to it.
pub proof fn law_script_set_get(
    state: EvaluatorView,
    name: Seq<char>,
    token: Seq<char>,
    value: ValueView,
)
    requires
        is_token(name),
        is_token(token),
        spec_parse_value(token) == Ok::<ValueView, ErrorView>(value),
    ensures
        spec_parse(line_and(three_words("set"@, name, token), two_words("get"@, name))) == Ok::<
            Seq<CommandView>,
            ErrorView,
        >(seq![CommandView::SetVar(name, value), CommandView::GetVar(name)]),
        state.run(
            ValueView::Nothing,
            seq![CommandView::SetVar(name, value), CommandView::GetVar(name)],
        ) == (
            EvaluatorView { vars: state.vars.insert(name, value), stack: state.stack },
            Ok::<ValueView, ErrorView>(value),
        ),
{
    law_set_line(name, token);
    law_get_pushvar_line(name);
    law_parse_last_line(two_words("get"@, name));
    law_parse_first_line(three_words("set"@, name, token), two_words("get"@, name));
    assert(seq![CommandView::GetVar(name)] + Seq::<CommandView>::empty() =~= seq![
        CommandView::GetVar(name),
    ]);
    assert(seq![CommandView::SetVar(name, value)] + seq![CommandView::GetVar(name)] =~= seq![
        CommandView::SetVar(name, value),
        CommandView::GetVar(name),
    ]);
    law_set_get(state, ValueView::Nothing, name, value);
}

/// A script whose first line starts with a token that is none of the six
/// keywords fails with `UnknownCommand` and that token, whatever follows
/// the line: no command of the script is ever run.
pub proof fn law_script_unknown_command(line: Seq<char>, rest: Seq<char>)
    requires
        has_no_line_feed(line),
        tokens(line).len() > 0,
        tokens(line)[0] != "set"@,
        tokens(line)[0] != "get"@,
        tokens(line)[0] != "push"@,
        tokens(line)[0] != "pushvar"@,
        tokens(line)[0] != "pop"@,
        tokens(line)[0] != "add"@,
    ensures
        spec_parse(line) == Err::<Seq<CommandView>, ErrorView>(
            ErrorView::UnknownCommand(tokens(line)[0]),
        ),
        spec_parse(line_and(line, rest)) == Err::<Seq<CommandView>, ErrorView>(
            ErrorView::UnknownCommand(tokens(line)[0]),
        ),
{
    law_unknown_command(line);
    law_parse_last_line(line);
    law_parse_first_line(line, rest);
}

} // verus!
