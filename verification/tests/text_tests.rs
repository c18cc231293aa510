use stack_script::text::{split_words, str_eq, take_line};

fn lines_of(text: &str) -> Vec<&str> {
    let mut lines = Vec::new();
    let mut rest = text;
    while !rest.is_empty() {
        let (line, tail) = take_line(rest);
        lines.push(line);
        rest = tail;
    }
    lines
}

#[test]
fn str_eq_compares_chars() {
    assert!(str_eq("", ""));
    assert!(str_eq("set", "set"));
    assert!(str_eq("日本語", "日本語"));
    assert!(!str_eq("set", "get"));
    assert!(!str_eq("set", "sets"));
    assert!(!str_eq("sets", "set"));
    assert!(!str_eq("", "a"));
    assert!(!str_eq("Set", "set"));
    assert!(!str_eq("é", "e"));
}

#[test]
fn take_line_cuts_at_the_first_line_feed() {
    assert_eq!(take_line("a\nb\nc"), ("a", "b\nc"));
    assert_eq!(take_line("\nb"), ("", "b"));
    assert_eq!(take_line("a\n"), ("a", ""));
    assert_eq!(take_line("\n"), ("", ""));
    assert_eq!(take_line("\n\n"), ("", "\n"));
}

#[test]
fn take_line_without_line_feed_takes_all() {
    assert_eq!(take_line("abc"), ("abc", ""));
    assert_eq!(take_line(""), ("", ""));
    assert_eq!(take_line("a b\tc"), ("a b\tc", ""));
}

#[test]
fn take_line_keeps_carriage_returns() {
    assert_eq!(take_line("a\r\nb"), ("a\r", "b"));
    assert_eq!(take_line("a\rb"), ("a\rb", ""));
}

#[test]
fn take_line_with_text_beyond_ascii() {
    assert_eq!(take_line("héllo\nwörld"), ("héllo", "wörld"));
    assert_eq!(take_line("日本\n語"), ("日本", "語"));
    assert_eq!(take_line("🦀\n"), ("🦀", ""));
    assert_eq!(take_line("\u{85}\u{2028}x"), ("\u{85}\u{2028}x", ""));
}

#[test]
fn lines_of_a_text() {
    assert_eq!(lines_of(""), Vec::<&str>::new());
    assert_eq!(lines_of("a"), vec!["a"]);
    assert_eq!(lines_of("a\n"), vec!["a"]);
    assert_eq!(lines_of("a\nb"), vec!["a", "b"]);
    assert_eq!(lines_of("a\n\nb\n"), vec!["a", "", "b"]);
    assert_eq!(lines_of("\n"), vec![""]);
    assert_eq!(lines_of("\n\n"), vec!["", ""]);
}

#[test]
fn split_words_on_ascii_whitespace() {
    assert_eq!(split_words("set x 5"), vec!["set", "x", "5"]);
    assert_eq!(split_words("  set \t x\r\x0C5 \n"), vec!["set", "x", "5"]);
    assert_eq!(split_words("pop"), vec!["pop"]);
    assert_eq!(split_words("a b"), vec!["a", "b"]);
    assert_eq!(split_words(" a"), vec!["a"]);
    assert_eq!(split_words("a "), vec!["a"]);
}

#[test]
fn split_words_of_a_blank_line() {
    assert_eq!(split_words(""), Vec::<&str>::new());
    assert_eq!(split_words(" "), Vec::<&str>::new());
    assert_eq!(split_words(" \t\r\n\x0C "), Vec::<&str>::new());
}

#[test]
fn split_words_with_text_beyond_ascii() {
    assert_eq!(split_words("größe zwölf"), vec!["größe", "zwölf"]);
    assert_eq!(split_words(" 日本語\t🦀 "), vec!["日本語", "🦀"]);
    assert_eq!(split_words("a\u{a0}b c\u{2003}d"), vec!["a\u{a0}b", "c\u{2003}d"]);
    assert_eq!(split_words("a\u{b}b"), vec!["a\u{b}b"]);
    assert_eq!(split_words("\u{85}"), vec!["\u{85}"]);
}

#[test]
fn split_words_agrees_with_the_standard_splitter() {
    let samples = [
        "", " ", "a", " a ", "a b", "a  b", "\ta\tb\t", "set x 5", "  push   \"a b\"  ", "\r\n",
        "a\rb", "a\x0Cb", "a\x0Bb", "é è", " 日本語 ", "x\u{a0}y", "\u{2003}", "🦀🦀 🦀", "a\n\nb",
        "\u{7f} \u{80}", "\0 \0", "tab\there", "trailing \t\r\n\x0C",
    ];
    for sample in samples {
        let expected: Vec<&str> = sample.split_ascii_whitespace().collect();
        assert_eq!(split_words(sample), expected, "line {:?}", sample);
    }
}

#[test]
fn lines_and_words_agree_with_the_standard_splitters() {
    let samples = [
        "", "\n", "a", "a\n", "a\nb", "a\r\nb\r\n", "a\rb\n", "\r", "\r\n", "\n\r", "a\n\n\nb",
        "set x 5\nget x\n", "  pop  \n\n  add\t\n", "push \"é\"\r\npop", "x\r", "x\r\r\n", "\n\n",
        "日本\n語\n", "a b\nc d\r\ne f",
    ];
    for sample in samples {
        let expected: Vec<Vec<&str>> =
            sample.lines().map(|line| line.split_ascii_whitespace().collect()).collect();
        let mut found: Vec<Vec<&str>> = Vec::new();
        for line in lines_of(sample) {
            found.push(split_words(line));
        }
        assert_eq!(found, expected, "text {:?}", sample);
    }
}
