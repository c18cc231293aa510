//! From the text of a script to its commands.
//!
//! Each function comes with a function of the model, named after it, that
//! says over sequences of chars what it returns.

use crate::command::{
    command_result_view, commands_result_view, commands_view, line_result_view, Command,
    CommandView,
};
use crate::error::{ErrorView, EvalandParsingError};
use crate::text::{
    lemma_line_len_bound, lines, split_words, str_eq, strs_view, take_line, tokens,
};
use crate::value::{value_result_view, Value, ValueView};
use vstd::prelude::*;
use vstd::string::*;

verus! {

broadcast use vstd::string::axiom_spec_iter;

/// True for the ten ASCII digits.
pub open spec fn is_digit(c: char) -> bool {
    '0' <= c && c <= '9'
}

/// The number that a digit stands for.
pub open spec fn digit_value(c: char) -> int {
    c as u32 - '0' as u32
}

/// True when every char of the sequence is a digit.
pub open spec fn all_digits(digits: Seq<char>) -> bool {
    forall|i: int| 0 <= i < digits.len() ==> is_digit(#[trigger] digits[i])
}

/// The number that a sequence of digits denotes in base ten.
pub open spec fn digits_value(digits: Seq<char>) -> int
    decreases digits.len(),
{
    if digits.len() == 0 {
        0
    } else {
        10 * digits_value(digits.drop_last()) + digit_value(digits.last())
    }
}

/// True when the token starts with a plus or a minus sign.
pub open spec fn has_sign(token: Seq<char>) -> bool {
    token.len() > 0 && (token[0] == '+' || token[0] == '-')
}

/// The token without its sign.
pub open spec fn unsigned_part(token: Seq<char>) -> Seq<char> {
    if has_sign(token) {
        token.drop_first()
    } else {
        token
    }
}

/// The integer that a token denotes: an optional sign followed by one or
/// more digits and nothing else. Any other token denotes none.
pub open spec fn int_literal(token: Seq<char>) -> Option<int> {
    let digits = unsigned_part(token);
    if digits.len() > 0 && all_digits(digits) {
        if has_sign(token) && token[0] == '-' {
            Some(-digits_value(digits))
        } else {
            Some(digits_value(digits))
        }
    } else {
        None
    }
}

/// True when the token is a string literal: at least two chars, the first
/// and the last of them double quotes.
pub open spec fn is_string_literal(token: Seq<char>) -> bool {
    token.len() > 1 && token.first() == '"' && token.last() == '"'
}

/// What [`parse_string`] makes of a token: the chars between the quotes of
/// a string literal, taken as they are.
pub open spec fn spec_parse_string(token: Seq<char>) -> Result<ValueView, ErrorView> {
    if is_string_literal(token) {
        Ok(ValueView::String(token.subrange(1, token.len() - 1)))
    } else {
        Err(ErrorView::MismatchType)
    }
}

/// What [`parse_int`] makes of a token: the integer it denotes, if it
/// denotes one that fits in 64 bits.
pub open spec fn spec_parse_int(token: Seq<char>) -> Result<ValueView, ErrorView> {
    match int_literal(token) {
        Some(n) => if i64::MIN <= n <= i64::MAX {
            Ok(ValueView::Int(n as i64))
        } else {
            Err(ErrorView::MismatchType)
        },
        None => Err(ErrorView::MismatchType),
    }
}

/// What [`parse_value`] makes of a token: a string for a string literal, an
/// integer for any other token.
pub open spec fn spec_parse_value(token: Seq<char>) -> Result<ValueView, ErrorView> {
    if is_string_literal(token) {
        spec_parse_string(token)
    } else {
        spec_parse_int(token)
    }
}

/// What [`parse_set`] makes of the tokens of a line: `set <name> <value>`.
pub open spec fn spec_parse_set(tokens: Seq<Seq<char>>) -> Result<CommandView, ErrorView> {
    if tokens.len() != 3 {
        Err(ErrorView::MismatchNumParams)
    } else {
        match spec_parse_value(tokens[2]) {
            Ok(value) => Ok(CommandView::SetVar(tokens[1], value)),
            Err(e) => Err(e),
        }
    }
}

/// What [`parse_get`] makes of the tokens of a line: `get <name>`.
pub open spec fn spec_parse_get(tokens: Seq<Seq<char>>) -> Result<CommandView, ErrorView> {
    if tokens.len() != 2 {
        Err(ErrorView::MismatchNumParams)
    } else {
        Ok(CommandView::GetVar(tokens[1]))
    }
}

/// What [`parse_pushvar`] makes of the tokens of a line: `pushvar <name>`.
pub open spec fn spec_parse_pushvar(tokens: Seq<Seq<char>>) -> Result<CommandView, ErrorView> {
    if tokens.len() != 2 {
        Err(ErrorView::MismatchNumParams)
    } else {
        Ok(CommandView::PushVar(tokens[1]))
    }
}

/// What [`parse_push`] makes of the tokens of a line: `push <value>`.
pub open spec fn spec_parse_push(tokens: Seq<Seq<char>>) -> Result<CommandView, ErrorView> {
    if tokens.len() != 2 {
        Err(ErrorView::MismatchNumParams)
    } else {
        match spec_parse_value(tokens[1]) {
            Ok(value) => Ok(CommandView::Push(value)),
            Err(e) => Err(e),
        }
    }
}

/// The command that the tokens of a line make. The first token, compared
/// exactly, selects the kind of command. `pop` and `add` take no operand and
/// pay no heed to the tokens that follow them.
pub open spec fn spec_parse_command(tokens: Seq<Seq<char>>) -> Result<CommandView, ErrorView>
    recommends
        tokens.len() > 0,
{
    let keyword = tokens[0];
    if keyword == "set"@ {
        spec_parse_set(tokens)
    } else if keyword == "get"@ {
        spec_parse_get(tokens)
    } else if keyword == "push"@ {
        spec_parse_push(tokens)
    } else if keyword == "pushvar"@ {
        spec_parse_pushvar(tokens)
    } else if keyword == "pop"@ {
        Ok(CommandView::Pop)
    } else if keyword == "add"@ {
        Ok(CommandView::Add)
    } else {
        Err(ErrorView::UnknownCommand(keyword))
    }
}

/// What [`parse_line`] makes of a line: no command if the line holds no
/// token, else the command that its tokens make.
pub open spec fn spec_parse_line(line: Seq<char>) -> Result<Option<CommandView>, ErrorView> {
    let words = tokens(line);
    if words.len() == 0 {
        Ok(None)
    } else {
        match spec_parse_command(words) {
            Ok(command) => Ok(Some(command)),
            Err(e) => Err(e),
        }
    }
}

/// The commands of a sequence of lines, in the order of the lines, or the
/// error of the first line that does not parse.
pub open spec fn spec_parse_lines(lines: Seq<Seq<char>>) -> Result<Seq<CommandView>, ErrorView>
    decreases lines.len(),
{
    if lines.len() == 0 {
        Ok(Seq::empty())
    } else {
        match spec_parse_line(lines.first()) {
            Err(e) => Err(e),
            Ok(first) => match spec_parse_lines(lines.drop_first()) {
                Err(e) => Err(e),
                Ok(rest) => match first {
                    Some(command) => Ok(seq![command] + rest),
                    None => Ok(rest),
                },
            },
        }
    }
}

/// What [`parse`] makes of a script: the commands of its lines.
pub open spec fn spec_parse(text: Seq<char>) -> Result<Seq<CommandView>, ErrorView> {
    spec_parse_lines(lines(text))
}

/// The commands parsed so far, followed by what the rest of the lines give.
spec fn after(done: Seq<CommandView>, rest: Result<Seq<CommandView>, ErrorView>) -> Result<
    Seq<CommandView>,
    ErrorView,
> {
    match rest {
        Ok(commands) => Ok(done + commands),
        Err(e) => Err(e),
    }
}

/// A char is a digit exactly when its code lies between those of `0` and
/// `9`.
proof fn lemma_digit_code(c: char)
    ensures
        is_digit(c) == (48 <= c as u32 <= 57),
        digit_value(c) == c as u32 - 48,
{
}

proof fn lemma_digits_value_push(digits: Seq<char>, c: char)
    ensures
        digits_value(digits.push(c)) == 10 * digits_value(digits) + digit_value(c),
{
    assert(digits.push(c).drop_last() =~= digits);
}

/// The digits read so far denote no more than all the digits do.
proof fn lemma_digits_value_prefix(digits: Seq<char>, n: int)
    requires
        all_digits(digits),
        0 <= n <= digits.len(),
    ensures
        0 <= digits_value(digits.take(n)) <= digits_value(digits),
    decreases digits.len(),
{
    if n == digits.len() {
        assert(digits.take(n) =~= digits);
        if n > 0 {
            lemma_digits_value_prefix(digits.drop_last(), n - 1);
            assert(is_digit(digits[n - 1]));
        }
    } else {
        assert(digits.drop_last().take(n) =~= digits.take(n));
        lemma_digits_value_prefix(digits.drop_last(), n);
        assert(is_digit(digits[digits.len() - 1]));
    }
}

/// The variable name that a token stands for: the token, taken as it is.
pub fn parse_var_name(var_name: &str) -> (result: Result<String, EvalandParsingError>)
    ensures
        result matches Ok(name) && name@ == var_name@,
{
    Ok(var_name.to_owned())
}

fn has_quotes(val: &str) -> (quoted: bool)
    ensures
        quoted == is_string_literal(val@),
{
    let n = val.unicode_len();
    n > 1 && val.get_char(0) == '"' && val.get_char(n - 1) == '"'
}

/// The string that a string literal holds between its quotes. Nothing in it
/// is unescaped. A token that is no string literal gives `MismatchType`.
pub fn parse_string(val: &str) -> (result: Result<Value, EvalandParsingError>)
    ensures
        value_result_view(result) == spec_parse_string(val@),
{
    if has_quotes(val) {
        let n = val.unicode_len();
        let inner = val.substring_char(1, n - 1);
        Ok(Value::String(inner.to_owned()))
    } else {
        Err(EvalandParsingError::MismatchType)
    }
}

/// The integer that a token denotes in base ten. A token that is not an
/// optional sign followed by digits, or whose integer does not fit in 64
/// bits, gives `MismatchType`.
pub fn parse_int(val: &str) -> (result: Result<Value, EvalandParsingError>)
    ensures
        value_result_view(result) == spec_parse_int(val@),
{
    let ghost token = val@;
    let ghost mut k: int = 0;
    let mut first = true;
    let mut signed = false;
    let mut negative = false;
    let mut any_digit = false;
    let mut magnitude: u64 = 0;
    for c in it: val.chars()
        invariant
            it.seq() == token,
            token == val@,
            k == it.index(),
            0 <= k <= token.len(),
            first == (k == 0),
            signed == (k > 0 && has_sign(token)),
            negative == (signed && token[0] == '-'),
            all_digits(token.subrange(if signed { 1int } else { 0int }, k)),
            magnitude == digits_value(token.subrange(if signed { 1int } else { 0int }, k)),
            magnitude <= 0x8000_0000_0000_0000,
            any_digit == (k > if signed { 1int } else { 0int }),
    {
        assert(c == token[k]);
        let ghost start = if signed { 1int } else { 0int };
        let ghost read = token.subrange(start, k);
        let code = c as u32;
        proof {
            lemma_digit_code(c);
        }
        if first && (c == '+' || c == '-') {
            signed = true;
            negative = c == '-';
            assert(token.subrange(1, 1) =~= Seq::<char>::empty());
        } else if 48 <= code && code <= 57 {
            let digit = (code - 48) as u64;
            let next = magnitude as u128 * 10 + digit as u128;
            proof {
                lemma_digits_value_push(read, c);
                assert(token.subrange(start, k + 1) =~= read.push(c));
                assert(next == digits_value(token.subrange(start, k + 1)));
            }
            if next > 0x8000_0000_0000_0000 {
                proof {
                    let digits = unsigned_part(token);
                    if all_digits(digits) {
                        assert(digits.take(k + 1 - start) =~= token.subrange(start, k + 1));
                        lemma_digits_value_prefix(digits, k + 1 - start);
                    }
                }
                return Err(EvalandParsingError::MismatchType);
            }
            magnitude = next as u64;
            any_digit = true;
            assert forall|i: int| 0 <= i < k + 1 - start implies is_digit(
                #[trigger] token.subrange(start, k + 1)[i],
            ) by {
                if i < k - start {
                    assert(token.subrange(start, k + 1)[i] == read[i]);
                } else {
                    assert(token.subrange(start, k + 1)[i] == c);
                }
            }
        } else {
            proof {
                let digits = unsigned_part(token);
                assert(digits[k - start] == c);
            }
            return Err(EvalandParsingError::MismatchType);
        }
        first = false;
        proof {
            k = k + 1;
        }
    }
    proof {
        assert(token.subrange(if signed { 1int } else { 0int }, k) =~= unsigned_part(token));
    }
    if !any_digit {
        Err(EvalandParsingError::MismatchType)
    } else if negative {
        if magnitude == 0x8000_0000_0000_0000 {
            Ok(Value::Int(i64::MIN))
        } else {
            Ok(Value::Int(-(magnitude as i64)))
        }
    } else if magnitude > 0x7fff_ffff_ffff_ffff {
        Err(EvalandParsingError::MismatchType)
    } else {
        Ok(Value::Int(magnitude as i64))
    }
}

/// The value that a token denotes: a string if the token is a string
/// literal, else an integer. A token that is neither gives `MismatchType`.
pub fn parse_value(val: &str) -> (result: Result<Value, EvalandParsingError>)
    ensures
        value_result_view(result) == spec_parse_value(val@),
{
    if has_quotes(val) {
        parse_string(val)
    } else {
        parse_int(val)
    }
}

/// The command of a line `set <name> <value>`, given the tokens of the
/// line. Any number of tokens but three gives `MismatchNumParams`.
pub fn parse_set(input: &[&str]) -> (result: Result<Command, EvalandParsingError>)
    ensures
        command_result_view(result) == spec_parse_set(strs_view(input@)),
{
    if input.len() != 3 {
        return Err(EvalandParsingError::MismatchNumParams);
    }
    let var_name = match parse_var_name(input[1]) {
        Ok(name) => name,
        Err(e) => {
            return Err(e);
        },
    };
    let value = match parse_value(input[2]) {
        Ok(value) => value,
        Err(e) => {
            return Err(e);
        },
    };
    Ok(Command::SetVar(var_name, value))
}

/// The command of a line `get <name>`, given the tokens of the line. Any
/// number of tokens but two gives `MismatchNumParams`.
pub fn parse_get(input: &[&str]) -> (result: Result<Command, EvalandParsingError>)
    ensures
        command_result_view(result) == spec_parse_get(strs_view(input@)),
{
    if input.len() != 2 {
        return Err(EvalandParsingError::MismatchNumParams);
    }
    match parse_var_name(input[1]) {
        Ok(name) => Ok(Command::GetVar(name)),
        Err(e) => Err(e),
    }
}

/// The command of a line `pushvar <name>`, given the tokens of the line.
/// Any number of tokens but two gives `MismatchNumParams`.
pub fn parse_pushvar(input: &[&str]) -> (result: Result<Command, EvalandParsingError>)
    ensures
        command_result_view(result) == spec_parse_pushvar(strs_view(input@)),
{
    if input.len() != 2 {
        return Err(EvalandParsingError::MismatchNumParams);
    }
    match parse_var_name(input[1]) {
        Ok(name) => Ok(Command::PushVar(name)),
        Err(e) => Err(e),
    }
}

/// The command of a line `push <value>`, given the tokens of the line. Any
/// number of tokens but two gives `MismatchNumParams`.
pub fn parse_push(input: &[&str]) -> (result: Result<Command, EvalandParsingError>)
    ensures
        command_result_view(result) == spec_parse_push(strs_view(input@)),
{
    if input.len() != 2 {
        return Err(EvalandParsingError::MismatchNumParams);
    }
    match parse_value(input[1]) {
        Ok(value) => Ok(Command::Push(value)),
        Err(e) => Err(e),
    }
}

/// The command of one line, or `None` for a line without a token. A first
/// token that is no keyword gives `UnknownCommand` with that token.
pub fn parse_line(line: &str) -> (result: Result<Option<Command>, EvalandParsingError>)
    ensures
        line_result_view(result) == spec_parse_line(line@),
{
    let words = split_words(line);
    if words.len() == 0 {
        return Ok(None);
    }
    let keyword = words[0];
    assert(strs_view(words@)[0] == keyword@);
    let parsed = if str_eq(keyword, "set") {
        parse_set(words.as_slice())
    } else if str_eq(keyword, "get") {
        parse_get(words.as_slice())
    } else if str_eq(keyword, "push") {
        parse_push(words.as_slice())
    } else if str_eq(keyword, "pushvar") {
        parse_pushvar(words.as_slice())
    } else if str_eq(keyword, "pop") {
        Ok(Command::Pop)
    } else if str_eq(keyword, "add") {
        Ok(Command::Add)
    } else {
        Err(EvalandParsingError::UnknownCommand(keyword.to_owned()))
    };
    match parsed {
        Ok(command) => Ok(Some(command)),
        Err(e) => Err(e),
    }
}

/// The commands of a script, one for each line that holds a token, in the
/// order of the lines. The first line that does not parse ends the parse
/// with its error, and nothing of the script is returned.
pub fn parse(input: &str) -> (result: Result<Vec<Command>, EvalandParsingError>)
    ensures
        commands_result_view(result) == spec_parse(input@),
{
    let mut op: Vec<Command> = Vec::new();
    let mut rest = input;
    assert(after(commands_view(op@), spec_parse_lines(lines(rest@))) == spec_parse(input@)) by {
        assert(commands_view(op@) =~= Seq::<CommandView>::empty());
        match spec_parse_lines(lines(rest@)) {
            Ok(commands) => {
                assert(commands_view(op@) + commands =~= commands);
            },
            Err(_) => {},
        }
    }
    while !rest.is_empty()
        invariant
            after(commands_view(op@), spec_parse_lines(lines(rest@))) == spec_parse(input@),
        decreases rest@.len(),
    {
        let ghost done = commands_view(op@);
        let ghost before = rest@;
        let (line, tail) = take_line(rest);
        proof {
            lemma_line_len_bound(before);
            assert(lines(before).first() == line@);
            assert(lines(before).drop_first() =~= lines(tail@));
        }
        match parse_line(line) {
            Ok(Some(command)) => {
                op.push(command);
                proof {
                    assert(commands_view(op@) =~= done.push(command@));
                    match spec_parse_lines(lines(tail@)) {
                        Ok(commands) => {
                            assert(done.push(command@) + commands =~= done + (seq![command@]
                                + commands));
                        },
                        Err(_) => {},
                    }
                }
            },
            Ok(None) => {},
            Err(e) => {
                return Err(e);
            },
        }
        rest = tail;
    }
    proof {
        match spec_parse_lines(lines(rest@)) {
            Ok(commands) => {
                assert(commands_view(op@) + commands =~= commands_view(op@));
            },
            Err(_) => {},
        }
    }
    Ok(op)
}

} // verus!
