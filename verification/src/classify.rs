//! The verdict on the answer to a zone-transfer request.
//!
//! The verdict is a heuristic over the shape of the answer's lines. It takes any text that
//! looks like zone records for a transfer, and misses a transfer whose lines look otherwise.

use crate::text::{
    chars_of, count_fields, field_count, has_substring, line_spans, lines, occurs_at,
    span_contains, trim, trim_span, without_cr, first_newline, Span,
};
use vstd::prelude::*;

verus! {

/// The record class as it stands in a record line: ` IN `, with a space on either side.
pub open spec fn class_token() -> Seq<char> {
    seq![' ', 'I', 'N', ' ']
}

/// The words with which some resolvers sum up a transfer: `XFR size`.
pub open spec fn transfer_marker() -> Seq<char> {
    seq!['X', 'F', 'R', ' ', 's', 'i', 'z', 'e']
}

/// The least number of fields of a line that is shaped like a resource record.
pub const RECORD_FIELDS: usize = 4;

/// `s` ends with a dot.
pub open spec fn ends_with_dot(s: Seq<char>) -> bool {
    s.len() > 0 && s.last() == '.'
}

/// The line is shaped like a resource record: it ends with a dot, white space at its end
/// aside, and has at least four fields.
pub open spec fn has_record_shape(line: Seq<char>) -> bool {
    ends_with_dot(trim(line)) && field_count(line) >= RECORD_FIELDS
}

/// The line counts as a sign of a transfer.
pub open spec fn is_record_line(line: Seq<char>) -> bool {
    ||| has_substring(line, class_token())
    ||| has_substring(line, transfer_marker())
    ||| has_record_shape(line)
}

/// The answer `raw` shows that the server handed out the zone: one of its lines counts as
/// a sign of a transfer.
pub open spec fn is_vulnerable(raw: Seq<char>) -> bool {
    exists|i: int| 0 <= i < lines(raw).len() && is_record_line(#[trigger] lines(raw)[i])
}

/// Tells whether the line that `span` covers counts as a sign of a transfer.
pub fn span_is_record_line(chars: &Vec<char>, span: Span) -> (found: bool)
    requires
        span.within(chars@.len()),
    ensures
        found == is_record_line(span.of(chars@)),
{
    let token: Vec<char> = vec![' ', 'I', 'N', ' '];
    let marker: Vec<char> = vec!['X', 'F', 'R', ' ', 's', 'i', 'z', 'e'];
    assert(token@ == class_token());
    assert(marker@ == transfer_marker());
    if span_contains(chars, span, &token) {
        return true;
    }
    if span_contains(chars, span, &marker) {
        return true;
    }
    let inner = trim_span(chars, span);
    if inner.start < inner.end && chars[inner.end - 1] == '.' {
        assert(inner.of(chars@).last() == chars[inner.end - 1]);
        count_fields(chars, span) >= RECORD_FIELDS
    } else {
        false
    }
}

/// Decides whether the answer to a zone-transfer request shows a transfer.
pub fn classify(raw: &str) -> (vulnerable: bool)
    ensures
        vulnerable == is_vulnerable(raw@),
{
    let chars = chars_of(raw);
    let spans = line_spans(&chars);
    let mut i: usize = 0;
    while i < spans.len()
        invariant
            chars@ == raw@,
            crate::text::spans_are_lines(chars@, spans@),
            i <= spans.len(),
            forall|k: int| 0 <= k < i ==> !is_record_line(#[trigger] lines(raw@)[k]),
        decreases spans.len() - i,
    {
        let span = spans[i];
        assert(span.within(chars@.len()) && span.of(chars@) == lines(chars@)[i as int]);
        if span_is_record_line(&chars, span) {
            return true;
        }
        i += 1;
    }
    false
}

/// An answer with a line that holds ` IN ` is a transfer.
pub proof fn lemma_class_token_line_is_vulnerable(raw: Seq<char>, i: int)
    requires
        0 <= i < lines(raw).len(),
        has_substring(lines(raw)[i], class_token()),
    ensures
        is_vulnerable(raw),
{
    assert(is_record_line(lines(raw)[i]));
}

/// An answer none of whose lines holds ` IN ` or `XFR size` or is shaped like a resource
/// record is no transfer.
pub proof fn lemma_plain_lines_are_safe(raw: Seq<char>)
    requires
        forall|i: int|
            0 <= i < lines(raw).len() ==> {
                let line = #[trigger] lines(raw)[i];
                &&& !has_substring(line, class_token())
                &&& !has_substring(line, transfer_marker())
                &&& !has_record_shape(line)
            },
    ensures
        !is_vulnerable(raw),
{
}

/// The empty answer is no transfer.
pub proof fn lemma_empty_is_safe()
    ensures
        !is_vulnerable(Seq::<char>::empty()),
{
}

/// Where `pat` holds no line ending and stands in `s`, it stands in one of the lines of `s`.
pub proof fn lemma_occurrence_lies_in_a_line(s: Seq<char>, pat: Seq<char>, at: int) -> (k: int)
    requires
        occurs_at(s, pat, at),
        pat.len() > 0,
        forall|j: int| 0 <= j < pat.len() ==> pat[j] != '\n' && pat[j] != '\r',
    ensures
        0 <= k < lines(s).len(),
        has_substring(lines(s)[k], pat),
    decreases s.len(),
{
    let n = first_newline(s) as int;
    let m = pat.len() as int;
    assert forall|j: int| 0 <= j < m implies s[at + j] == pat[j] by {
        assert(s.subrange(at, at + m)[j] == s[at + j]);
    }
    if n >= s.len() {
        0
    } else {
        crate::text::lemma_first_newline_found(s);
        if at < n {
            if at + m > n {
                assert(s[at + (n - at)] == pat[n - at]);
            }
            let head = s.take(n);
            let line = without_cr(head);
            if line.len() < head.len() {
                if at + m > n - 1 {
                    assert(s[at + (n - 1 - at)] == pat[n - 1 - at]);
                }
            }
            assert(line.subrange(at, at + m) =~= pat);
            assert(occurs_at(line, pat, at));
            0
        } else {
            assert(s[at + 0] == pat[0]);
            let rest = s.skip(n + 1);
            assert(rest.subrange(at - n - 1, at - n - 1 + m) =~= pat);
            assert(occurs_at(rest, pat, at - n - 1));
            let k = lemma_occurrence_lies_in_a_line(rest, pat, at - n - 1);
            assert(lines(s)[k + 1] == lines(rest)[k]);
            k + 1
        }
    }
}

/// An answer in which ` IN ` stands anywhere is a transfer.
pub proof fn lemma_class_token_is_vulnerable(raw: Seq<char>)
    requires
        has_substring(raw, class_token()),
    ensures
        is_vulnerable(raw),
{
    let at = choose|i: int| occurs_at(raw, class_token(), i);
    let k = lemma_occurrence_lies_in_a_line(raw, class_token(), at);
    lemma_class_token_line_is_vulnerable(raw, k);
}

} // verus!
