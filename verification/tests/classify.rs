use zone_transfer::classify::{classify, span_is_record_line};
use zone_transfer::text::{chars_of, Span};

fn rule_by_std(raw: &str) -> bool {
    raw.lines().any(|line| {
        line.contains(" IN ")
            || line.contains("XFR size")
            || (line.trim().ends_with(".") && line.split_whitespace().count() >= 4)
    })
}

#[test]
fn empty_response_is_not_vulnerable() {
    assert!(!classify(""));
}

#[test]
fn blank_lines_are_not_vulnerable() {
    assert!(!classify("\n\n  \n\t\r\n"));
}

#[test]
fn record_line_is_vulnerable() {
    assert!(classify("example.com. 3600 IN A 1.2.3.4"));
}

#[test]
fn record_line_among_others_is_vulnerable() {
    assert!(classify("; <<>> DiG 9.18 <<>> @ns1 -t axfr example.com\nexample.com.\t3600 IN SOA x y\n;; done\n"));
}

#[test]
fn class_token_needs_its_spaces() {
    assert!(!classify("example.com 3600 IN"));
    assert!(!classify("IN A 1.2.3.4"));
    assert!(!classify("x\tIN\ty"));
    assert!(!classify("x in y"));
    assert!(classify("x IN y"));
}

#[test]
fn class_token_does_not_cross_lines() {
    assert!(!classify("a IN\n b"));
    assert!(!classify("a \nIN b"));
}

#[test]
fn transfer_marker_is_vulnerable() {
    assert!(classify(";; XFR size: 12 records (messages 1, bytes 512)"));
    assert!(classify("XFR size"));
}

#[test]
fn transfer_marker_is_taken_letter_for_letter() {
    assert!(!classify("XFR  size"));
    assert!(!classify("xfr size"));
    assert!(!classify("XFR siz"));
    assert!(!classify("XFR\nsize"));
}

#[test]
fn dotted_line_of_four_fields_is_vulnerable() {
    assert!(classify("a b c d."));
    assert!(classify("example.com. 3600 NS ns1.example.com."));
    assert!(classify("a\tb\tc\td.\t\r\n"));
    assert!(classify("  a b c d e f.  "));
}

#[test]
fn dotted_line_of_three_fields_is_not() {
    assert!(!classify("a b c."));
    assert!(!classify("example.com. NS ns1.example.com."));
    assert!(!classify("."));
}

#[test]
fn four_fields_without_the_dot_are_not() {
    assert!(!classify("a b c d"));
    assert!(!classify("a b c. d"));
    assert!(!classify("; Transfer failed."));
    assert!(!classify(";; communications error to 1.2.3.4#53: timed out"));
}

#[test]
fn fields_are_counted_on_one_line() {
    assert!(!classify("a b\nc d."));
    assert!(classify("a b\nc d e f.\n"));
}

#[test]
fn refusal_is_not_vulnerable() {
    let raw = "\n; <<>> DiG 9.18.1 <<>> @ns1.example.com -t axfr example.com\n; (1 server found)\n;; global options: +cmd\n; Transfer failed.\n";
    assert!(!classify(raw));
}

#[test]
fn span_is_record_line_reads_its_span_only() {
    let chars = chars_of("a IN b|plain text");
    assert!(span_is_record_line(&chars, Span { start: 0, end: 6 }));
    assert!(!span_is_record_line(&chars, Span { start: 7, end: 17 }));
    assert!(!span_is_record_line(&chars, Span { start: 0, end: 4 }));
}

#[test]
fn classify_agrees_with_the_rule_on_std() {
    let lines = [
        "", " ", "a IN b", "XFR size", "a b c d.", "a b c.", "a b c d", ". . . .", "a.b.c.d.",
        "\u{a0}a\u{a0}b\u{a0}c\u{a0}d.\u{a0}", "x  IN", " IN", "IN ", ";; XFR size: 3", "a b c d.\r",
    ];
    let ends = ["", "\n", "\r\n", "\r"];
    for first in lines {
        for second in lines {
            for end in ends {
                let raw = format!("{}{}{}{}", first, end, second, end);
                assert_eq!(classify(&raw), rule_by_std(&raw), "{:?}", raw);
            }
        }
    }
}
