//! Cutting a text into lines and a line into tokens.
//!
//! The model is a sequence of chars. The functions walk the bytes of the
//! UTF-8 encoding instead: the chars they look for are ASCII, and an ASCII
//! byte in an encoding always is a char of its own.

use vstd::prelude::*;
use vstd::string::*;
use vstd::utf8::*;

verus! {

/// The chars that separate the tokens of a line: space, tab, line feed, form
/// feed and carriage return.
pub open spec fn is_ascii_space(c: char) -> bool {
    c == ' ' || c == '\t' || c == '\n' || c == '\x0C' || c == '\r'
}

/// True when no char of `s` is a line feed.
pub open spec fn has_no_line_feed(s: Seq<char>) -> bool {
    forall|i: int| 0 <= i < s.len() ==> #[trigger] s[i] != '\n'
}

/// True when no char of `s` is a separator.
pub open spec fn has_no_space(s: Seq<char>) -> bool {
    forall|i: int| 0 <= i < s.len() ==> !is_ascii_space(#[trigger] s[i])
}

/// The number of chars before the first line feed of `s`, or the length of
/// `s` if it holds none.
pub open spec fn line_len(s: Seq<char>) -> nat
    decreases s.len(),
{
    if s.len() == 0 || s[0] == '\n' {
        0
    } else {
        1 + line_len(s.drop_first())
    }
}

/// The number of chars before the first separator of `s`, or the length of
/// `s` if it holds none.
pub open spec fn word_len(s: Seq<char>) -> nat
    decreases s.len(),
{
    if s.len() == 0 || is_ascii_space(s[0]) {
        0
    } else {
        1 + word_len(s.drop_first())
    }
}

/// The chars of `s` before its first line feed.
pub open spec fn first_line(s: Seq<char>) -> Seq<char> {
    s.take(line_len(s) as int)
}

/// The chars of `s` after its first line feed, and nothing if it holds none.
pub open spec fn after_first_line(s: Seq<char>) -> Seq<char> {
    if line_len(s) < s.len() {
        s.skip(line_len(s) as int + 1)
    } else {
        Seq::empty()
    }
}

/// The lines of a text: the pieces between its line feeds, in order. A line
/// feed at the very end of the text starts no further line, so the empty text
/// has no line at all. A carriage return before a line feed stays in its
/// line, where it is a separator like any other.
pub open spec fn lines(s: Seq<char>) -> Seq<Seq<char>>
    decreases s.len(),
    via lines_decreases
{
    if s.len() == 0 {
        Seq::empty()
    } else {
        seq![first_line(s)] + lines(after_first_line(s))
    }
}

#[via_fn]
proof fn lines_decreases(s: Seq<char>) {
    lemma_line_len_bound(s);
}

/// The tokens of a line: its maximal runs of chars that are no separators,
/// in order.
pub open spec fn tokens(s: Seq<char>) -> Seq<Seq<char>>
    decreases s.len(),
    via tokens_decreases
{
    if s.len() == 0 {
        Seq::empty()
    } else if is_ascii_space(s[0]) {
        tokens(s.drop_first())
    } else {
        let n = word_len(s) as int;
        seq![s.take(n)] + tokens(s.skip(n))
    }
}

#[via_fn]
proof fn tokens_decreases(s: Seq<char>) {
    lemma_word_len_bound(s);
}

/// The chars of each string slice of a sequence, in the same order.
pub open spec fn strs_view(strs: Seq<&str>) -> Seq<Seq<char>> {
    strs.map_values(|s: &str| s@)
}

/// The first line of a text ends within the text, at a line feed if it ends
/// before the end, and holds no line feed itself.
pub proof fn lemma_line_len_bound(s: Seq<char>)
    ensures
        line_len(s) <= s.len(),
        line_len(s) < s.len() ==> s[line_len(s) as int] == '\n',
        has_no_line_feed(first_line(s)),
    decreases s.len(),
{
    if s.len() == 0 || s[0] == '\n' {
    } else {
        lemma_line_len_bound(s.drop_first());
        assert forall|i: int| 0 <= i < first_line(s).len() implies #[trigger] first_line(s)[i]
            != '\n' by {
            if i > 0 {
                assert(first_line(s)[i] == first_line(s.drop_first())[i - 1]);
            }
        }
    }
}

/// The first word of a line ends within the line, and is not empty unless
/// the line starts with a separator.
pub proof fn lemma_word_len_bound(s: Seq<char>)
    ensures
        word_len(s) <= s.len(),
        s.len() > 0 && !is_ascii_space(s[0]) ==> word_len(s) > 0,
    decreases s.len(),
{
    if s.len() == 0 || is_ascii_space(s[0]) {
    } else {
        lemma_word_len_bound(s.drop_first());
    }
}

/// A piece without a line feed, followed by nothing or by a line feed, is
/// the first line of what the two make together.
pub proof fn lemma_first_line(line: Seq<char>, rest: Seq<char>)
    requires
        has_no_line_feed(line),
        rest.len() == 0 || rest[0] == '\n',
    ensures
        line_len(line + rest) == line.len(),
        first_line(line + rest) == line,
    decreases line.len(),
{
    if line.len() == 0 {
        assert(line + rest =~= rest);
    } else {
        assert((line + rest).drop_first() =~= line.drop_first() + rest);
        assert forall|i: int| 0 <= i < line.drop_first().len() implies #[trigger] line.drop_first()[i]
            != '\n' by {
            assert(line.drop_first()[i] == line[i + 1]);
        }
        lemma_first_line(line.drop_first(), rest);
        assert((line + rest)[0] == line[0]);
    }
    assert(first_line(line + rest) =~= line);
}

/// A piece without a separator, followed by nothing or by a separator, is
/// as long as the first word of what the two make together.
pub proof fn lemma_first_word(word: Seq<char>, rest: Seq<char>)
    requires
        has_no_space(word),
        rest.len() == 0 || is_ascii_space(rest[0]),
    ensures
        word_len(word + rest) == word.len(),
    decreases word.len(),
{
    if word.len() == 0 {
        assert(word + rest =~= rest);
    } else {
        assert((word + rest).drop_first() =~= word.drop_first() + rest);
        assert forall|i: int| 0 <= i < word.drop_first().len() implies !is_ascii_space(
            #[trigger] word.drop_first()[i],
        ) by {
            assert(word.drop_first()[i] == word[i + 1]);
        }
        lemma_first_word(word.drop_first(), rest);
        assert((word + rest)[0] == word[0]);
    }
}

/// The lines of a line, a line feed and a text are the line and then the
/// lines of the text.
pub proof fn lemma_lines_cons(line: Seq<char>, rest: Seq<char>)
    requires
        has_no_line_feed(line),
    ensures
        lines(line + seq!['\n'] + rest) == seq![line] + lines(rest),
{
    let text = line + seq!['\n'] + rest;
    assert(text =~= line + (seq!['\n'] + rest));
    lemma_first_line(line, seq!['\n'] + rest);
    assert(after_first_line(text) =~= rest);
}

/// A text that is not empty and holds no line feed is one line.
pub proof fn lemma_lines_one(line: Seq<char>)
    requires
        line.len() > 0,
        has_no_line_feed(line),
    ensures
        lines(line) == seq![line],
{
    assert(line =~= line + Seq::<char>::empty());
    lemma_first_line(line, Seq::empty());
    assert(lines(after_first_line(line)) =~= Seq::<Seq<char>>::empty());
    assert(seq![line] + Seq::<Seq<char>>::empty() =~= seq![line]);
}

/// The tokens of a word followed by nothing or by a separator and more are
/// the word and then the tokens of what follows it.
pub proof fn lemma_tokens_word(word: Seq<char>, rest: Seq<char>)
    requires
        word.len() > 0,
        has_no_space(word),
        rest.len() == 0 || is_ascii_space(rest[0]),
    ensures
        tokens(word + rest) == seq![word] + tokens(rest),
{
    let line = word + rest;
    lemma_first_word(word, rest);
    assert(line[0] == word[0]);
    assert(line.take(word.len() as int) =~= word);
    assert(line.skip(word.len() as int) =~= rest);
}

/// A separator at the start of a line adds no token.
pub proof fn lemma_tokens_space(c: char, rest: Seq<char>)
    requires
        is_ascii_space(c),
    ensures
        tokens(seq![c] + rest) == tokens(rest),
{
    assert((seq![c] + rest).drop_first() =~= rest);
}

/// Only the empty sequence of chars has an empty encoding.
proof fn lemma_empty_encoding(chars: Seq<char>)
    requires
        encode_utf8(chars).len() == 0,
    ensures
        chars.len() == 0,
{
    if chars.len() > 0 {
        assert(encode_utf8(chars) == encode_scalar(chars[0] as u32) + encode_utf8(
            chars.drop_first(),
        ));
        assert(encode_scalar(chars[0] as u32).len() > 0);
    }
}

/// Where an encoding starts with an ASCII byte, that byte is the code of the
/// first char, and the rest of the encoding encodes the rest of the chars.
proof fn lemma_leading_ascii(chars: Seq<char>)
    requires
        encode_utf8(chars).len() > 0,
        encode_utf8(chars)[0] < 0x80,
    ensures
        chars.len() > 0,
        chars[0] as u32 == encode_utf8(chars)[0] as u32,
        encode_utf8(chars.drop_first()) == encode_utf8(chars).skip(1),
{
    let bytes = encode_utf8(chars);
    encode_utf8_first_scalar(chars);
    let b = bytes[0];
    assert((b & 0x7F) as u32 == b as u32) by (bit_vector)
        requires
            b < 0x80,
    ;
    assert(is_leading_byte_width_1(b));
    assert(length_of_first_scalar(bytes) == 1);
    assert(bytes == encode_scalar(chars[0] as u32) + encode_utf8(chars.drop_first()));
    assert(encode_utf8(chars.drop_first()) =~= bytes.skip(1));
}

/// An ASCII byte that occurs nowhere in an encoding is the code of none of
/// the chars encoded.
proof fn lemma_ascii_absent(chars: Seq<char>, code: u8)
    requires
        code < 0x80,
        forall|j: int| 0 <= j < encode_utf8(chars).len() ==> encode_utf8(chars)[j] != code,
    ensures
        forall|k: int| 0 <= k < chars.len() ==> chars[k] as u32 != code as u32,
    decreases chars.len(),
{
    if chars.len() > 0 {
        let bytes = encode_utf8(chars);
        let first = chars[0] as u32;
        let head = encode_scalar(first);
        let tail = encode_utf8(chars.drop_first());
        assert(bytes == head + tail);
        assert forall|j: int| 0 <= j < tail.len() implies tail[j] != code by {
            assert(tail[j] == bytes[head.len() + j]);
        }
        lemma_ascii_absent(chars.drop_first(), code);
        assert(first != code as u32) by {
            if first == code as u32 {
                assert((first & 0x7F) as u8 == code) by (bit_vector)
                    requires
                        first == code as u32,
                        code < 0x80,
                ;
                assert(bytes[0] == head[0]);
            }
        }
        assert forall|k: int| 0 <= k < chars.len() implies chars[k] as u32 != code as u32 by {
            if k > 0 {
                assert(chars[k] == chars.drop_first()[k - 1]);
            }
        }
    }
}

/// True for the bytes that encode the separators.
spec fn is_space_code(b: u8) -> bool {
    b == 32 || b == 9 || b == 10 || b == 12 || b == 13
}

/// A char and a byte with the same code are both separators or neither, and
/// both line feeds or neither.
proof fn lemma_same_code(c: char, b: u8)
    requires
        c as u32 == b as u32,
    ensures
        is_ascii_space(c) == is_space_code(b),
        (c == '\n') == (b == 10),
{
}

/// An encoding without a line feed byte encodes no line feed.
proof fn lemma_no_line_feed(chars: Seq<char>)
    requires
        forall|j: int| 0 <= j < encode_utf8(chars).len() ==> encode_utf8(chars)[j] != 10,
    ensures
        has_no_line_feed(chars),
{
    lemma_ascii_absent(chars, 10);
}

/// An encoding without a separator byte encodes no separator.
proof fn lemma_no_space(chars: Seq<char>)
    requires
        forall|j: int| 0 <= j < encode_utf8(chars).len() ==> !is_space_code(encode_utf8(chars)[j]),
    ensures
        has_no_space(chars),
{
    lemma_ascii_absent(chars, 32);
    lemma_ascii_absent(chars, 9);
    lemma_ascii_absent(chars, 10);
    lemma_ascii_absent(chars, 12);
    lemma_ascii_absent(chars, 13);
}

fn is_space_byte(b: u8) -> (r: bool)
    ensures
        r == is_space_code(b),
{
    b == 32 || b == 9 || b == 10 || b == 12 || b == 13
}

/// Cuts `s` in two at the byte offset `mid`, which is the end of `s` or the
/// place of an ASCII byte.
fn split_at_ascii<'a>(s: &'a str, mid: usize) -> (parts: (&'a str, &'a str))
    requires
        mid <= s.spec_bytes().len(),
        mid < s.spec_bytes().len() ==> s.spec_bytes()[mid as int] < 0x80,
    ensures
        parts.0@ + parts.1@ == s@,
        parts.0.spec_bytes() == s.spec_bytes().subrange(0, mid as int),
        parts.1.spec_bytes() == s.spec_bytes().subrange(mid as int, s.spec_bytes().len() as int),
{
    let ghost bytes = s.spec_bytes();
    proof {
        encode_utf8_valid_utf8(s@);
        if mid < bytes.len() {
            is_char_boundary_iff_not_is_continuation_byte(bytes, mid as int);
        } else {
            is_char_boundary_start_end_of_seq(bytes);
        }
    }
    let parts = s.split_at(mid);
    proof {
        decode_utf8_split(bytes, mid as int);
        encode_utf8_decode_utf8(s@);
        encode_utf8_decode_utf8(parts.0@);
        encode_utf8_decode_utf8(parts.1@);
    }
    parts
}

/// Drops the first char of `s`, which is an ASCII char.
fn drop_ascii<'a>(s: &'a str) -> (rest: &'a str)
    requires
        s.spec_bytes().len() > 0,
        s.spec_bytes()[0] < 0x80,
    ensures
        s@.len() > 0,
        rest@ == s@.drop_first(),
        rest.spec_bytes() == s.spec_bytes().skip(1),
{
    let ghost bytes = s.spec_bytes();
    proof {
        encode_utf8_valid_utf8(s@);
        lemma_leading_ascii(s@);
        assert(is_leading_byte_width_1(bytes[0]));
        assert(length_of_first_scalar(bytes) == 1);
        assert(valid_utf8(pop_first_scalar(bytes)));
        assert(is_char_boundary(pop_first_scalar(bytes), 0));
        assert(is_char_boundary(bytes, 1));
    }
    let parts = s.split_at(1);
    proof {
        assert(parts.1.spec_bytes() == encode_utf8(s@.drop_first()));
        encode_utf8_decode_utf8(parts.1@);
        encode_utf8_decode_utf8(s@.drop_first());
    }
    parts.1
}

/// Whether two string slices hold the same chars.
pub fn str_eq(a: &str, b: &str) -> (equal: bool)
    ensures
        equal == (a@ == b@),
{
    let x = a.as_bytes();
    let y = b.as_bytes();
    proof {
        encode_utf8_decode_utf8(a@);
        encode_utf8_decode_utf8(b@);
    }
    if x.len() != y.len() {
        return false;
    }
    let mut i: usize = 0;
    while i < x.len()
        invariant
            i <= x.len(),
            x.len() == y.len(),
            x@ == a.spec_bytes(),
            y@ == b.spec_bytes(),
            forall|j: int| 0 <= j < i ==> x@[j] == y@[j],
        decreases x.len() - i,
    {
        if x[i] != y[i] {
            return false;
        }
        i += 1;
    }
    assert(x@ =~= y@);
    true
}

/// Cuts the first line off a text. The second part is what follows the
/// line's line feed, and empty when the text holds no line feed.
pub fn take_line<'a>(text: &'a str) -> (parts: (&'a str, &'a str))
    ensures
        parts.0@ == first_line(text@),
        parts.1@ == after_first_line(text@),
{
    let bytes = text.as_bytes();
    let mut i: usize = 0;
    while i < bytes.len() && bytes[i] != 10
        invariant
            i <= bytes.len(),
            forall|j: int| 0 <= j < i ==> bytes@[j] != 10,
        decreases bytes.len() - i,
    {
        i += 1;
    }
    let (line, tail) = split_at_ascii(text, i);
    proof {
        lemma_no_line_feed(line@);
        if i < bytes.len() {
            assert(tail.spec_bytes()[0] == bytes@[i as int]);
            lemma_leading_ascii(tail@);
            lemma_same_code(tail@[0], bytes@[i as int]);
        } else {
            lemma_empty_encoding(tail@);
        }
        lemma_first_line(line@, tail@);
        assert(tail@ =~= text@.skip(line@.len() as int));
    }
    if i < bytes.len() {
        let rest = drop_ascii(tail);
        assert(rest@ =~= text@.skip(line@.len() as int + 1));
        (line, rest)
    } else {
        (line, tail)
    }
}

/// The tokens of a line, each a slice of the line.
pub fn split_words<'a>(line: &'a str) -> (words: Vec<&'a str>)
    ensures
        strs_view(words@) == tokens(line@),
{
    let mut words: Vec<&'a str> = Vec::new();
    let mut rest = line;
    assert(strs_view(words@) + tokens(rest@) =~= tokens(line@));
    while rest.as_bytes().len() > 0
        invariant
            strs_view(words@) + tokens(rest@) == tokens(line@),
        decreases rest.spec_bytes().len(),
    {
        let bytes = rest.as_bytes();
        let ghost before = rest@;
        if is_space_byte(bytes[0]) {
            proof {
                lemma_leading_ascii(before);
                lemma_same_code(before[0], bytes@[0]);
            }
            rest = drop_ascii(rest);
        } else {
            let mut j: usize = 1;
            while j < bytes.len() && !is_space_byte(bytes[j])
                invariant
                    1 <= j <= bytes.len(),
                    forall|k: int| 0 <= k < j ==> !is_space_code(bytes@[k]),
                decreases bytes.len() - j,
            {
                j += 1;
            }
            let ghost done = strs_view(words@);
            let (word, tail) = split_at_ascii(rest, j);
            proof {
                lemma_no_space(word@);
                if j < bytes.len() {
                    assert(tail.spec_bytes()[0] == bytes@[j as int]);
                    lemma_leading_ascii(tail@);
                    lemma_same_code(tail@[0], bytes@[j as int]);
                } else {
                    lemma_empty_encoding(tail@);
                }
                if word@.len() == 0 {
                    assert(encode_utf8(word@).len() == 0);
                }
                lemma_tokens_word(word@, tail@);
            }
            words.push(word);
            rest = tail;
            assert(strs_view(words@) =~= done.push(word@));
            assert(strs_view(words@) + tokens(rest@) =~= done + tokens(before));
        }
    }
    proof {
        lemma_empty_encoding(rest@);
        assert(strs_view(words@) + tokens(rest@) =~= strs_view(words@));
    }
    words
}

} // verus!
