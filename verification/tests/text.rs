use zone_transfer::text::{
    chars_of, count_fields, is_space_char, line_spans, span_contains, span_text, split_lines,
    trim_span, Span,
};

fn whole(chars: &Vec<char>) -> Span {
    Span { start: 0, end: chars.len() }
}

fn trimmed(s: &str) -> String {
    let chars = chars_of(s);
    let inner = trim_span(&chars, whole(&chars));
    span_text(&chars, inner)
}

fn fields(s: &str) -> usize {
    let chars = chars_of(s);
    count_fields(&chars, whole(&chars))
}

fn contains(s: &str, pat: &str) -> bool {
    let chars = chars_of(s);
    span_contains(&chars, whole(&chars), &chars_of(pat))
}

const SAMPLES: [&str; 16] = [
    "",
    "\n",
    "\n\n",
    "a",
    "a\n",
    "a\nb",
    "a\r\nb\r\n",
    "a\rb\n",
    "a\r",
    "\r\n",
    "\r",
    "  ns1.example.com.  \n\n\tns2.example.com.\r\n",
    "one two\tthree\u{a0}four\u{3000}five",
    "   ",
    "\u{2003}x\u{2003}",
    "z\u{e9}ro \u{4e2d}\u{6587} IN A\n;; XFR size: 2 records\n",
];

#[test]
fn white_space_is_what_std_calls_white_space() {
    for code in 0u32..=0x10ffff {
        if let Some(c) = char::from_u32(code) {
            assert_eq!(is_space_char(c), c.is_whitespace(), "U+{:04X}", code);
        }
    }
}

#[test]
fn chars_of_gives_every_character() {
    for s in SAMPLES {
        assert_eq!(chars_of(s), s.chars().collect::<Vec<char>>());
    }
}

#[test]
fn split_lines_agrees_with_std() {
    for s in SAMPLES {
        let expected: Vec<String> = s.lines().map(|l| l.to_string()).collect();
        assert_eq!(split_lines(s), expected, "{:?}", s);
    }
}

#[test]
fn split_lines_of_nothing_is_empty() {
    assert_eq!(split_lines(""), Vec::<String>::new());
}

#[test]
fn split_lines_drops_line_endings() {
    assert_eq!(split_lines("a\r\nb\nc"), vec!["a".to_string(), "b".to_string(), "c".to_string()]);
}

#[test]
fn split_lines_keeps_blank_lines_inside() {
    assert_eq!(split_lines("a\n\nb\n"), vec!["a".to_string(), "".to_string(), "b".to_string()]);
}

#[test]
fn split_lines_keeps_a_lone_carriage_return() {
    assert_eq!(split_lines("a\rb\nc\r"), vec!["a\rb".to_string(), "c\r".to_string()]);
}

#[test]
fn line_spans_mark_each_line() {
    let chars = chars_of("ab\r\n\ncd");
    let spans = line_spans(&chars);
    let got: Vec<(usize, usize)> = spans.iter().map(|s| (s.start, s.end)).collect();
    assert_eq!(got, vec![(0, 2), (4, 4), (5, 7)]);
}

#[test]
fn span_text_copies_the_span() {
    let chars = chars_of("h\u{e9}llo world");
    assert_eq!(span_text(&chars, Span { start: 1, end: 5 }), "\u{e9}llo");
    assert_eq!(span_text(&chars, Span { start: 3, end: 3 }), "");
    assert_eq!(span_text(&chars, whole(&chars)), "h\u{e9}llo world");
}

#[test]
fn trim_agrees_with_std() {
    for s in SAMPLES {
        assert_eq!(trimmed(s), s.trim(), "{:?}", s);
    }
}

#[test]
fn trim_takes_white_space_from_both_ends_only() {
    assert_eq!(trimmed(" \t a b \r\n"), "a b");
    assert_eq!(trimmed("a"), "a");
    assert_eq!(trimmed(" \t "), "");
}

#[test]
fn trim_span_stays_inside_its_span() {
    let chars = chars_of("xx  ab  yy");
    let inner = trim_span(&chars, Span { start: 2, end: 8 });
    assert_eq!((inner.start, inner.end), (4, 6));
}

#[test]
fn count_fields_agrees_with_std() {
    for s in SAMPLES {
        assert_eq!(fields(s), s.split_whitespace().count(), "{:?}", s);
    }
}

#[test]
fn count_fields_counts_runs() {
    assert_eq!(fields(""), 0);
    assert_eq!(fields("   "), 0);
    assert_eq!(fields("a"), 1);
    assert_eq!(fields(" a  b\tc "), 3);
    assert_eq!(fields("example.com. 3600 IN A 1.2.3.4"), 5);
}

#[test]
fn span_contains_agrees_with_std() {
    let pats = ["", " ", "a", " IN ", "XFR size", "\n", "five", "fivefive"];
    for s in SAMPLES {
        for p in pats {
            assert_eq!(contains(s, p), s.contains(p), "{:?} in {:?}", p, s);
        }
    }
}

#[test]
fn span_contains_looks_only_inside_the_span() {
    let chars = chars_of("abcabd");
    let pat = chars_of("abd");
    assert!(span_contains(&chars, Span { start: 0, end: 6 }, &pat));
    assert!(span_contains(&chars, Span { start: 3, end: 6 }, &pat));
    assert!(!span_contains(&chars, Span { start: 0, end: 5 }, &pat));
    assert!(!span_contains(&chars, Span { start: 4, end: 6 }, &pat));
}
