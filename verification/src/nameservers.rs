//! The nameservers that the answer to an NS lookup names.

use crate::text::{
    chars_of, is_space, lemma_trim_is_tight, line_spans, lines, span_text, spans_are_lines, texts,
    trim, trim_span,
};
use vstd::prelude::*;

verus! {

/// The names on the lines `ls`, in the order in which they first stand there: each line
/// without the white space around it, unless nothing is left of it or an earlier line gave
/// the same name.
pub open spec fn names_on(ls: Seq<Seq<char>>) -> Seq<Seq<char>>
    decreases ls.len(),
{
    if ls.len() == 0 {
        Seq::empty()
    } else {
        let before = names_on(ls.drop_last());
        let name = trim(ls.last());
        if name.len() == 0 || before.contains(name) {
            before
        } else {
            before.push(name)
        }
    }
}

/// The nameservers that the lookup answer `response` names, one per line.
pub open spec fn nameserver_names(response: Seq<char>) -> Seq<Seq<char>> {
    names_on(lines(response))
}

/// Tells whether `name` is among `names`.
fn holds_name(names: &Vec<String>, name: &String) -> (found: bool)
    ensures
        found == texts(names@).contains(name@),
{
    let mut j: usize = 0;
    while j < names.len()
        invariant
            j <= names.len(),
            forall|k: int| 0 <= k < j ==> texts(names@)[k] != name@,
        decreases names.len() - j,
    {
        if names[j] == *name {
            assert(texts(names@)[j as int] == name@);
            return true;
        }
        j += 1;
    }
    false
}

/// Reads the nameservers out of the answer to an NS lookup: the lines of the answer
/// without the white space around them, blank lines left out, each name once, in the order
/// of the answer. An answer that names none gives the empty list.
pub fn resolve_nameservers(response: &str) -> (names: Vec<String>)
    ensures
        texts(names@) == nameserver_names(response@),
{
    let chars = chars_of(response);
    let spans = line_spans(&chars);
    let mut names: Vec<String> = Vec::new();
    let mut i: usize = 0;
    proof {
        assert(lines(response@).take(0) == Seq::<Seq<char>>::empty());
        assert(texts(names@) == Seq::<Seq<char>>::empty());
    }
    while i < spans.len()
        invariant
            chars@ == response@,
            spans_are_lines(chars@, spans@),
            i <= spans.len(),
            texts(names@) == names_on(lines(response@).take(i as int)),
        decreases spans.len() - i,
    {
        let span = spans[i];
        assert(span.within(chars@.len()) && span.of(chars@) == lines(chars@)[i as int]);
        let inner = trim_span(&chars, span);
        proof {
            let upto = lines(response@).take(i + 1);
            assert(upto.drop_last() == lines(response@).take(i as int));
            assert(upto.last() == lines(response@)[i as int]);
        }
        if inner.start < inner.end {
            let name = span_text(&chars, inner);
            assert(name@ == trim(lines(response@)[i as int]));
            if !holds_name(&names, &name) {
                let ghost before = texts(names@);
                names.push(name);
                assert(texts(names@) == before.push(name@));
            }
        }
        i += 1;
    }
    proof {
        assert(lines(response@).take(i as int) == lines(response@));
    }
    names
}

/// `names` is what the lines `ls` name: no name twice, none blank, none with white space
/// around it; each stands, trimmed, on a line; each line that is not blank gives one; and
/// a name that stands before another in `names` stands on a line before any line with the
/// other.
pub open spec fn lists_names_of(names: Seq<Seq<char>>, ls: Seq<Seq<char>>) -> bool {
    &&& names.no_duplicates()
    &&& forall|i: int|
        0 <= i < names.len() ==> {
            let name = #[trigger] names[i];
            name.len() > 0 && !is_space(name.first()) && !is_space(name.last())
        }
    &&& forall|i: int|
        0 <= i < names.len() ==> exists|k: int|
            0 <= k < ls.len() && trim(#[trigger] ls[k]) == #[trigger] names[i]
    &&& forall|k: int|
        0 <= k < ls.len() && trim(#[trigger] ls[k]).len() > 0 ==> names.contains(trim(ls[k]))
    &&& forall|i: int, j: int|
        0 <= i < j < names.len() ==> exists|k: int|
            0 <= k < ls.len() && trim(#[trigger] ls[k]) == #[trigger] names[i] && forall|e: int|
                0 <= e <= k ==> trim(#[trigger] ls[e]) != #[trigger] names[j]
}

/// `names_on` lists the names of its lines.
pub proof fn lemma_names_on(ls: Seq<Seq<char>>)
    ensures
        lists_names_of(names_on(ls), ls),
    decreases ls.len(),
{
    if ls.len() > 0 {
        let init = ls.drop_last();
        let before = names_on(init);
        let name = trim(ls.last());
        let names = names_on(ls);
        let n = ls.len() - 1;
        lemma_names_on(init);
        lemma_trim_is_tight(ls.last());
        assert forall|k: int| 0 <= k < n implies init[k] == ls[k] by {}
        assert forall|i: int| 0 <= i < before.len() implies exists|k: int|
            0 <= k < ls.len() && trim(#[trigger] ls[k]) == #[trigger] names[i] by {
            let k = choose|k: int| 0 <= k < init.len() && trim(#[trigger] init[k]) == before[i];
            assert(trim(ls[k]) == names[i]);
        }
        assert forall|i: int, j: int| 0 <= i < j < before.len() implies exists|k: int|
            0 <= k < ls.len() && trim(#[trigger] ls[k]) == #[trigger] names[i] && forall|e: int|
                0 <= e <= k ==> trim(#[trigger] ls[e]) != #[trigger] names[j] by {
            let k = choose|k: int|
                0 <= k < init.len() && trim(#[trigger] init[k]) == before[i] && forall|e: int|
                    0 <= e <= k ==> trim(#[trigger] init[e]) != before[j];
            assert(trim(ls[k]) == names[i]);
            assert forall|e: int| 0 <= e <= k implies trim(#[trigger] ls[e]) != names[j] by {
                assert(init[e] == ls[e]);
            }
        }
        if name.len() == 0 || before.contains(name) {
            assert(names == before);
            assert forall|k: int|
                0 <= k < ls.len() && trim(#[trigger] ls[k]).len() > 0 implies names.contains(
                trim(ls[k]),
            ) by {
                if k < n {
                    assert(init[k] == ls[k]);
                }
            }
        } else {
            assert(names == before.push(name));
            assert(names.no_duplicates());
            assert(trim(ls[n]) == names[before.len() as int]);
            assert forall|k: int|
                0 <= k < ls.len() && trim(#[trigger] ls[k]).len() > 0 implies names.contains(
                trim(ls[k]),
            ) by {
                if k < n {
                    assert(init[k] == ls[k]);
                    let at = choose|at: int| 0 <= at < before.len() && before[at] == trim(ls[k]);
                    assert(names[at] == trim(ls[k]));
                } else {
                    assert(names[before.len() as int] == trim(ls[k]));
                }
            }
            assert forall|i: int| 0 <= i < before.len() implies exists|k: int|
                0 <= k < ls.len() && trim(#[trigger] ls[k]) == #[trigger] names[i] && forall|
                    e: int,
                |
                    0 <= e <= k ==> trim(#[trigger] ls[e]) != #[trigger] names[before.len() as int] by {
                let k = choose|k: int| 0 <= k < init.len() && trim(#[trigger] init[k]) == before[i];
                assert(trim(ls[k]) == names[i]);
                assert forall|e: int| 0 <= e <= k implies trim(#[trigger] ls[e]) != name by {
                    assert(init[e] == ls[e]);
                    if trim(init[e]) == name {
                        assert(before.contains(trim(init[e])));
                    }
                }
            }
        }
    }
}

/// The nameservers that a lookup answer names are the names on its lines: without
/// duplicates, without blanks, without white space around them, and in the order in which
/// the answer first gives them.
pub proof fn lemma_nameserver_names(response: Seq<char>)
    ensures
        lists_names_of(nameserver_names(response), lines(response)),
{
    lemma_names_on(lines(response));
}

} // verus!
