//! Characters, lines and fields of a piece of text, as sequences of `char`.

use vstd::prelude::*;

verus! {

/// Whether `c` has the Unicode property `White_Space`.
pub open spec fn is_space(c: char) -> bool {
    ||| '\u{9}' <= c <= '\u{d}'
    ||| c == ' '
    ||| c == '\u{85}'
    ||| c == '\u{a0}'
    ||| c == '\u{1680}'
    ||| '\u{2000}' <= c <= '\u{200a}'
    ||| c == '\u{2028}'
    ||| c == '\u{2029}'
    ||| c == '\u{202f}'
    ||| c == '\u{205f}'
    ||| c == '\u{3000}'
}

/// Tells whether `c` is a white-space character.
pub fn is_space_char(c: char) -> (b: bool)
    ensures
        b == is_space(c),
{
    ('\u{9}' <= c && c <= '\u{d}') || c == ' ' || c == '\u{85}' || c == '\u{a0}' || c == '\u{1680}'
        || ('\u{2000}' <= c && c <= '\u{200a}') || c == '\u{2028}' || c == '\u{2029}' || c
        == '\u{202f}' || c == '\u{205f}' || c == '\u{3000}'
}

/// `String::push` of the standard library, which vstd leaves without a contract: the
/// character is put at the end of the string, and the rest of it stays.
pub assume_specification[ String::push ](s: &mut String, ch: char)
    ensures
        final(s)@ == old(s)@.push(ch),
;

/// The texts of the strings in `v`.
pub open spec fn texts(v: Seq<String>) -> Seq<Seq<char>> {
    v.map_values(|s: String| s@)
}

/// The characters of `s`, one by one.
pub fn chars_of(s: &str) -> (v: Vec<char>)
    ensures
        v@ == s@,
{
    let mut v: Vec<char> = Vec::new();
    for c in it: s.chars()
        invariant
            v@ == it.seq().take(it.index()),
            it.seq() == s@,
    {
        v.push(c);
    }
    v
}

/// A half-open range of positions in a text.
#[derive(Clone, Copy, Debug)]
pub struct Span {
    pub start: usize,
    pub end: usize,
}

impl Span {
    /// The range lies inside a text of `len` characters.
    pub open spec fn within(self, len: nat) -> bool {
        self.start <= self.end <= len
    }

    /// The characters of `s` that the range covers.
    pub open spec fn of(self, s: Seq<char>) -> Seq<char> {
        s.subrange(self.start as int, self.end as int)
    }
}

/// The position of the first line feed in `s`, or the length of `s` where it has none.
pub open spec fn first_newline(s: Seq<char>) -> nat
    decreases s.len(),
{
    if s.len() == 0 || s[0] == '\n' {
        0
    } else {
        1 + first_newline(s.drop_first())
    }
}

/// `s` without the carriage return at its end, if it has one.
pub open spec fn without_cr(s: Seq<char>) -> Seq<char> {
    if s.len() > 0 && s.last() == '\r' {
        s.drop_last()
    } else {
        s
    }
}

/// The lines of `s`. A line ends with a line feed, or with a carriage return and a line
/// feed; neither belongs to the line. The last line needs no line ending, and a text that
/// ends with one has no empty line after it.
pub open spec fn lines(s: Seq<char>) -> Seq<Seq<char>>
    decreases s.len(),
{
    if s.len() == 0 {
        Seq::empty()
    } else {
        let n = first_newline(s);
        if n >= s.len() {
            seq![s]
        } else {
            seq![without_cr(s.take(n as int))] + lines(s.skip(n as int + 1))
        }
    }
}

/// The number of white-space characters at the start of `s`.
pub open spec fn leading_spaces(s: Seq<char>) -> nat
    decreases s.len(),
{
    if s.len() > 0 && is_space(s[0]) {
        1 + leading_spaces(s.drop_first())
    } else {
        0
    }
}

/// The number of white-space characters at the end of `s`.
pub open spec fn trailing_spaces(s: Seq<char>) -> nat
    decreases s.len(),
{
    if s.len() > 0 && is_space(s.last()) {
        1 + trailing_spaces(s.drop_last())
    } else {
        0
    }
}

/// `s` without the white space at its start and at its end.
pub open spec fn trim(s: Seq<char>) -> Seq<char> {
    let t = s.skip(leading_spaces(s) as int);
    t.take(t.len() - trailing_spaces(t))
}

/// A field starts at position `i` of `s`: the character there is no white space, and the
/// one before it, if there is one, is.
pub open spec fn starts_field(s: Seq<char>, i: int) -> bool {
    &&& 0 <= i < s.len()
    &&& !is_space(s[i])
    &&& (i == 0 || is_space(s[i - 1]))
}

/// The number of fields in `s`: the maximal runs of characters that are no white space.
pub open spec fn field_count(s: Seq<char>) -> nat
    decreases s.len(),
{
    if s.len() == 0 {
        0
    } else if starts_field(s, s.len() - 1) {
        field_count(s.drop_last()) + 1
    } else {
        field_count(s.drop_last())
    }
}

/// `pat` stands in `s` at position `i`.
pub open spec fn occurs_at(s: Seq<char>, pat: Seq<char>, i: int) -> bool {
    &&& 0 <= i
    &&& i + pat.len() <= s.len()
    &&& s.subrange(i, i + pat.len()) == pat
}

/// `pat` stands somewhere in `s`.
pub open spec fn has_substring(s: Seq<char>, pat: Seq<char>) -> bool {
    exists|i: int| occurs_at(s, pat, i)
}

/// `first_newline` is the one position before which no line feed stands and at which one
/// does, or the text ends.
pub proof fn lemma_first_newline(s: Seq<char>, k: int)
    requires
        0 <= k <= s.len(),
        forall|j: int| 0 <= j < k ==> s[j] != '\n',
        k == s.len() || s[k] == '\n',
    ensures
        first_newline(s) == k,
    decreases s.len(),
{
    if k > 0 {
        lemma_first_newline(s.drop_first(), k - 1);
    }
}

/// No line feed stands before `first_newline`, and one stands at it unless the text ends.
pub proof fn lemma_first_newline_found(s: Seq<char>)
    ensures
        first_newline(s) <= s.len(),
        forall|j: int| 0 <= j < first_newline(s) ==> s[j] != '\n',
        first_newline(s) < s.len() ==> s[first_newline(s) as int] == '\n',
    decreases s.len(),
{
    if !(s.len() == 0 || s[0] == '\n') {
        let t = s.drop_first();
        lemma_first_newline_found(t);
        assert forall|j: int| 0 <= j < first_newline(s) implies s[j] != '\n' by {
            if j > 0 {
                assert(s[j] == t[j - 1]);
            }
        }
    }
}

/// `leading_spaces` is the position of the first character that is no white space.
pub proof fn lemma_leading_spaces(s: Seq<char>, k: int)
    requires
        0 <= k <= s.len(),
        forall|j: int| 0 <= j < k ==> is_space(s[j]),
        k == s.len() || !is_space(s[k]),
    ensures
        leading_spaces(s) == k,
    decreases s.len(),
{
    if k > 0 {
        lemma_leading_spaces(s.drop_first(), k - 1);
    }
}

/// `trailing_spaces` counts back to the last character that is no white space.
pub proof fn lemma_trailing_spaces(s: Seq<char>, k: int)
    requires
        0 <= k <= s.len(),
        forall|j: int| s.len() - k <= j < s.len() ==> is_space(s[j]),
        k == s.len() || !is_space(s[s.len() - k - 1]),
    ensures
        trailing_spaces(s) == k,
    decreases s.len(),
{
    if k > 0 {
        lemma_trailing_spaces(s.drop_last(), k - 1);
    }
}

/// After the leading white space comes the end of the text or another character.
pub proof fn lemma_leading_stops(s: Seq<char>)
    ensures
        leading_spaces(s) <= s.len(),
        leading_spaces(s) < s.len() ==> !is_space(s[leading_spaces(s) as int]),
    decreases s.len(),
{
    if s.len() > 0 && is_space(s[0]) {
        lemma_leading_stops(s.drop_first());
    }
}

/// Before the trailing white space comes the start of the text or another character.
pub proof fn lemma_trailing_stops(s: Seq<char>)
    ensures
        trailing_spaces(s) <= s.len(),
        trailing_spaces(s) < s.len() ==> !is_space(s[s.len() - trailing_spaces(s) - 1]),
    decreases s.len(),
{
    if s.len() > 0 && is_space(s.last()) {
        lemma_trailing_stops(s.drop_last());
    }
}

/// What `trim` leaves neither starts nor ends with white space.
pub proof fn lemma_trim_is_tight(s: Seq<char>)
    ensures
        trim(s).len() > 0 ==> !is_space(trim(s).first()) && !is_space(trim(s).last()),
        trim(trim(s)) == trim(s),
{
    let t = s.skip(leading_spaces(s) as int);
    lemma_leading_stops(s);
    lemma_trailing_stops(t);
    let r = trim(s);
    if r.len() > 0 {
        assert(r.first() == t[0]);
        assert(r.skip(0) == r);
        assert(r.take(r.len() as int) == r);
    } else {
        assert(r.skip(0) == r);
        assert(r.take(0) == r);
    }
}

/// The line spans in `spans` are the lines of `s`, in order.
pub open spec fn spans_are_lines(s: Seq<char>, spans: Seq<Span>) -> bool {
    &&& spans.len() == lines(s).len()
    &&& forall|i: int|
        0 <= i < spans.len() ==> (#[trigger] spans[i]).within(s.len()) && spans[i].of(s) == lines(
            s,
        )[i]
}

/// Where each line of `chars` starts and ends.
pub fn line_spans(chars: &Vec<char>) -> (spans: Vec<Span>)
    ensures
        spans_are_lines(chars@, spans@),
{
    let n: usize = chars.len();
    let mut spans: Vec<Span> = Vec::new();
    let mut pos: usize = 0;
    let ghost mut done: Seq<Seq<char>> = Seq::empty();
    proof {
        assert(chars@.skip(0) == chars@);
        assert(done + lines(chars@) == lines(chars@));
    }
    while pos < n
        invariant
            n == chars.len(),
            pos <= n,
            lines(chars@) == done + lines(chars@.skip(pos as int)),
            spans.len() == done.len(),
            forall|i: int|
                0 <= i < spans.len() ==> (#[trigger] spans[i]).within(n as nat) && spans[i].of(
                    chars@,
                ) == done[i],
        decreases n - pos,
    {
        let ghost rest = chars@.skip(pos as int);
        let mut end: usize = pos;
        while end < n && chars[end] != '\n'
            invariant
                n == chars.len(),
                pos <= end <= n,
                forall|j: int| pos <= j < end ==> chars[j] != '\n',
            decreases n - end,
        {
            end += 1;
        }
        proof {
            lemma_first_newline(rest, end - pos);
        }
        if end == n {
            let span = Span { start: pos, end: n };
            proof {
                assert(span.of(chars@) == rest);
                assert(lines(rest) == seq![rest]);
                assert(lines(chars@.skip(n as int)) == Seq::<Seq<char>>::empty());
                assert(done + lines(rest) == done.push(rest) + Seq::<Seq<char>>::empty());
                done = done.push(rest);
            }
            spans.push(span);
            pos = n;
        } else {
            let stop: usize = if end > pos && chars[end - 1] == '\r' {
                end - 1
            } else {
                end
            };
            let span = Span { start: pos, end: stop };
            proof {
                let head = rest.take(end - pos);
                assert(head == chars@.subrange(pos as int, end as int));
                assert(span.of(chars@) == without_cr(head));
                assert(rest.skip(end - pos + 1) == chars@.skip(end + 1));
                assert(lines(rest) == seq![without_cr(head)] + lines(chars@.skip(end + 1)));
                assert(done + lines(rest) == done.push(without_cr(head)) + lines(
                    chars@.skip(end + 1),
                ));
                done = done.push(without_cr(head));
            }
            spans.push(span);
            pos = end + 1;
        }
    }
    proof {
        assert(lines(chars@.skip(n as int)) == Seq::<Seq<char>>::empty());
        assert(done + Seq::<Seq<char>>::empty() == done);
    }
    spans
}

/// The part of `chars` that `span` covers, as a string.
pub fn span_text(chars: &Vec<char>, span: Span) -> (s: String)
    requires
        span.within(chars@.len()),
    ensures
        s@ == span.of(chars@),
{
    let mut s = String::new();
    let mut i: usize = span.start;
    while i < span.end
        invariant
            span.within(chars@.len()),
            span.start <= i <= span.end,
            s@ == chars@.subrange(span.start as int, i as int),
        decreases span.end - i,
    {
        s.push(chars[i]);
        i += 1;
        assert(s@ == chars@.subrange(span.start as int, i as int));
    }
    s
}

/// Splits `text` into its lines.
pub fn split_lines(text: &str) -> (out: Vec<String>)
    ensures
        texts(out@) == lines(text@),
{
    let chars = chars_of(text);
    let spans = line_spans(&chars);
    let mut out: Vec<String> = Vec::new();
    let mut i: usize = 0;
    while i < spans.len()
        invariant
            chars@ == text@,
            spans_are_lines(chars@, spans@),
            i <= spans.len(),
            out.len() == i,
            forall|k: int| 0 <= k < i ==> (#[trigger] out[k])@ == lines(text@)[k],
        decreases spans.len() - i,
    {
        let span = spans[i];
        assert(span.within(chars@.len()) && span.of(chars@) == lines(chars@)[i as int]);
        out.push(span_text(&chars, span));
        i += 1;
    }
    assert(texts(out@) =~= lines(text@));
    out
}

/// The part of `span` that is left when the white space at both ends is taken away.
pub fn trim_span(chars: &Vec<char>, span: Span) -> (inner: Span)
    requires
        span.within(chars@.len()),
    ensures
        span.start <= inner.start <= inner.end <= span.end,
        inner.of(chars@) == trim(span.of(chars@)),
{
    let ghost s = span.of(chars@);
    let mut a: usize = span.start;
    while a < span.end && is_space_char(chars[a])
        invariant
            span.within(chars@.len()),
            span.start <= a <= span.end,
            forall|j: int| span.start <= j < a ==> is_space(chars[j]),
        decreases span.end - a,
    {
        a += 1;
    }
    let mut b: usize = span.end;
    while b > a && is_space_char(chars[b - 1])
        invariant
            span.within(chars@.len()),
            a <= b <= span.end,
            forall|j: int| b <= j < span.end ==> is_space(chars[j]),
        decreases b - a,
    {
        b -= 1;
    }
    proof {
        lemma_leading_spaces(s, a - span.start);
        let t = s.skip(a - span.start);
        assert(t == chars@.subrange(a as int, span.end as int));
        lemma_trailing_spaces(t, span.end - b);
        assert(t.take(t.len() - (span.end - b)) == chars@.subrange(a as int, b as int));
    }
    Span { start: a, end: b }
}

/// Counts the fields in the part of `chars` that `span` covers.
pub fn count_fields(chars: &Vec<char>, span: Span) -> (n: usize)
    requires
        span.within(chars@.len()),
    ensures
        n == field_count(span.of(chars@)),
{
    let ghost s = span.of(chars@);
    let mut n: usize = 0;
    let mut i: usize = span.start;
    let mut after_space: bool = true;
    while i < span.end
        invariant
            span.within(chars@.len()),
            s == span.of(chars@),
            span.start <= i <= span.end,
            n == field_count(s.take(i - span.start)),
            n <= i - span.start,
            after_space == (i == span.start || is_space(chars[i - 1])),
        decreases span.end - i,
    {
        let space = is_space_char(chars[i]);
        proof {
            let k = i - span.start;
            let t = s.take(k + 1);
            assert(t.drop_last() == s.take(k));
            assert(t[k] == chars[i as int]);
            assert(k > 0 ==> t[k - 1] == chars[i - 1]);
            assert(starts_field(t, k) == (!space && after_space));
        }
        if !space && after_space {
            n += 1;
        }
        after_space = space;
        i += 1;
    }
    proof {
        assert(s.take(s.len() as int) == s);
    }
    n
}

/// Tells whether `pat` stands somewhere in the part of `chars` that `span` covers.
pub fn span_contains(chars: &Vec<char>, span: Span, pat: &Vec<char>) -> (found: bool)
    requires
        span.within(chars@.len()),
    ensures
        found == has_substring(span.of(chars@), pat@),
{
    let ghost s = span.of(chars@);
    let len: usize = span.end - span.start;
    let m: usize = pat.len();
    if m > len {
        return false;
    }
    let mut i: usize = 0;
    while i <= len - m
        invariant
            span.within(chars@.len()),
            s == span.of(chars@),
            len == span.end - span.start,
            m == pat.len(),
            m <= len,
            forall|k: int| 0 <= k < i ==> !occurs_at(s, pat@, k),
        decreases len - i,
    {
        let mut j: usize = 0;
        while j < m && chars[span.start + i + j] == pat[j]
            invariant
                span.within(chars@.len()),
                s == span.of(chars@),
                len == span.end - span.start,
                m == pat.len(),
                i + m <= len,
                j <= m,
                forall|t: int| 0 <= t < j ==> s[i + t] == pat[t],
            decreases m - j,
        {
            j += 1;
        }
        if j == m {
            proof {
                assert(s.subrange(i as int, i + m) =~= pat@);
                assert(occurs_at(s, pat@, i as int));
            }
            return true;
        }
        proof {
            assert(s.subrange(i as int, i + m)[j as int] == s[i + j]);
            assert(!occurs_at(s, pat@, i as int));
        }
        i += 1;
    }
    false
}

} // verus!
