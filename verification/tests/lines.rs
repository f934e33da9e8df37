use tasks_core::lines::{split_lines, trim, trim_marked, white_marks};

fn lines(text: &str) -> Vec<String> {
    let chars: Vec<char> = text.chars().collect();
    split_lines(&chars).iter().map(|(from, to)| chars[*from..*to].iter().collect()).collect()
}

fn trimmed(text: &str) -> String {
    let chars: Vec<char> = text.chars().collect();
    trim(&chars).iter().collect()
}

#[test]
fn lines_end_at_line_feeds() {
    assert_eq!(lines(""), Vec::<String>::new());
    assert_eq!(lines("a"), vec!["a"]);
    assert_eq!(lines("a\n"), vec!["a"]);
    assert_eq!(lines("a\nb"), vec!["a", "b"]);
    assert_eq!(lines("a\n\nb\n"), vec!["a", "", "b"]);
    assert_eq!(lines("\n"), vec![""]);
    assert_eq!(lines("\n\n"), vec!["", ""]);
}

#[test]
fn carriage_return_before_a_line_feed_is_dropped() {
    assert_eq!(lines("foo\nbar\n\r\nbaz\r"), vec!["foo", "bar", "", "baz\r"]);
    assert_eq!(lines("a\r\nb\r\n"), vec!["a", "b"]);
    assert_eq!(lines("a\r\r\nb"), vec!["a\r", "b"]);
    assert_eq!(lines("a\rb\n"), vec!["a\rb"]);
}

#[test]
fn lines_are_those_of_the_standard_library() {
    for text in ["", "a", "a\n", "\n", "a\r\n\r\nb\r", "\r", "x\n\ny\n\n", "\r\n", "a\n\rb"] {
        let expected: Vec<String> = text.lines().map(|line| line.to_string()).collect();
        assert_eq!(lines(text), expected, "{text:?}");
    }
}

#[test]
fn trim_cuts_white_space_at_both_ends() {
    assert_eq!(trimmed(""), "");
    assert_eq!(trimmed("   "), "");
    assert_eq!(trimmed("a"), "a");
    assert_eq!(trimmed("  a b  "), "a b");
    assert_eq!(trimmed("\t\r\n a \n"), "a");
    assert_eq!(trimmed("\u{a0}a\u{2028}"), "a");
    assert_eq!(trimmed("\u{200b}a"), "\u{200b}a");
}

#[test]
fn trim_is_that_of_the_standard_library() {
    for text in ["", " ", " a ", "a  ", "  a", "\u{3000}x y\u{85}", "\u{feff}a", "a\u{1680}"] {
        assert_eq!(trimmed(text), text.trim(), "{text:?}");
    }
}

#[test]
fn trim_of_a_part() {
    let chars: Vec<char> = "ab  cd  ef".chars().collect();
    let part: String = trim(&chars[2..8]).iter().collect();
    assert_eq!(part, "cd");
    let part: String = trim(&chars[3..3]).iter().collect();
    assert_eq!(part, "");
}

#[test]
fn trim_cuts_what_is_marked() {
    let chars: Vec<char> = "xxaxbxx".chars().collect();
    let cut = |white: &[bool]| -> String { trim_marked(&chars, white).iter().collect() };
    assert_eq!(cut(&[true, true, false, true, false, true, true]), "axb");
    assert_eq!(cut(&[false, true, false, true, false, true, true]), "xxaxb");
    assert_eq!(cut(&[true, true, false, true, false, true, false]), "axbxx");
    assert_eq!(cut(&[true; 7]), "");
    assert_eq!(cut(&[false; 7]), "xxaxbxx");
    assert_eq!(cut(&[]), "xxaxbxx");
    assert_eq!(cut(&[true, true, true]), "xbxx");
    assert_eq!(cut(&[true, true, true, true, true, true, true, true, true]), "");
}

#[test]
fn white_marks_are_those_of_the_standard_library() {
    let text = " a\t\u{a0}b\n\u{200b}\u{3000}\u{85}c\u{180e}";
    let chars: Vec<char> = text.chars().collect();
    let expected: Vec<bool> = chars.iter().map(|c| c.is_whitespace()).collect();
    assert_eq!(white_marks(&chars), expected);
    assert_eq!(
        white_marks(&chars),
        vec![true, false, true, true, false, true, false, true, true, false, false]
    );
    assert_eq!(white_marks(&[]), Vec::<bool>::new());
}
