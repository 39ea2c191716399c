//! In-line highlighting: a line is carved into ordered spans, each plain or
//! matched, by locating non-overlapping, leftmost-first case-insensitive
//! occurrences of the query. Concatenating the text of the spans always
//! reproduces the line exactly; when the query is empty, absent from the
//! line, or case folding shifts character counts, the whole line is one
//! plain span.

use vstd::prelude::*;

use crate::search::{contains_at, contains_chars, find_from, has_match_from, seq_contains,
    spec_find_from};
use crate::text::{from_chars, lower_of, lowercase, to_chars};

verus! {

/// One rendered piece of a line: its text, and whether it is a highlighted
/// match of the query.
#[derive(Clone, Debug)]
pub struct Span {
    pub text: String,
    pub matched: bool,
}

/// The mathematical image of a `Span`.
#[verifier::ext_equal]
pub ghost struct SpanV {
    pub text: Seq<char>,
    pub matched: bool,
}

impl View for Span {
    type V = SpanV;

    open spec fn view(&self) -> SpanV {
        SpanV { text: self.text@, matched: self.matched }
    }
}

impl DeepView for Span {
    type V = SpanV;

    open spec fn deep_view(&self) -> SpanV {
        self@
    }
}

pub open spec fn plain_span(t: Seq<char>) -> SpanV {
    SpanV { text: t, matched: false }
}

pub open spec fn matched_span(t: Seq<char>) -> SpanV {
    SpanV { text: t, matched: true }
}

/// The spans covering `line[pos..]`: the text between occurrences of the
/// lowercased query `lq` in the lowercased line `ll` becomes plain spans,
/// each occurrence a matched span, scanning leftmost-first without overlap.
pub open spec fn highlight_spans(line: Seq<char>, ll: Seq<char>, lq: Seq<char>, pos: int) -> Seq<
    SpanV,
>
    decreases line.len() - pos,
{
    if !(0 <= pos <= line.len()) || lq.len() == 0 || !has_match_from(ll, lq, pos) || !(pos
        <= spec_find_from(ll, lq, pos) && spec_find_from(ll, lq, pos) + lq.len() <= line.len()) {
        if pos < line.len() {
            seq![plain_span(line.subrange(pos, line.len() as int))]
        } else {
            Seq::empty()
        }
    } else {
        let m = spec_find_from(ll, lq, pos);
        let pre: Seq<SpanV> = if m > pos {
            seq![plain_span(line.subrange(pos, m))]
        } else {
            Seq::empty()
        };
        pre + seq![matched_span(line.subrange(m, m + lq.len()))] + highlight_spans(
            line,
            ll,
            lq,
            m + lq.len(),
        )
    }
}

/// What `highlight` yields: matched and plain spans when the query has a
/// case-insensitive occurrence in the line and case folding preserves the
/// character counts of both; otherwise the whole line as one plain span.
pub open spec fn highlight_spec(line: Seq<char>, query: Seq<char>) -> Seq<SpanV> {
    let ll = lower_of(line);
    let lq = lower_of(query);
    if query.len() == 0 || lq.len() == 0 || ll.len() != line.len() || !seq_contains(ll, lq) {
        seq![plain_span(line)]
    } else {
        highlight_spans(line, ll, lq, 0)
    }
}

/// The texts of the spans, concatenated in order.
pub open spec fn spans_text(sp: Seq<SpanV>) -> Seq<char>
    decreases sp.len(),
{
    if sp.len() == 0 {
        Seq::empty()
    } else {
        spans_text(sp.drop_last()) + sp.last().text
    }
}

proof fn lemma_spans_text_singleton(x: SpanV)
    ensures
        spans_text(seq![x]) == x.text,
{
    let sp = seq![x];
    assert(sp.drop_last() =~= Seq::<SpanV>::empty());
    assert(spans_text(Seq::<SpanV>::empty()) == Seq::<char>::empty());
    assert(Seq::<char>::empty() + x.text =~= x.text);
}

proof fn lemma_spans_text_concat(a: Seq<SpanV>, b: Seq<SpanV>)
    ensures
        spans_text(a + b) == spans_text(a) + spans_text(b),
    decreases b.len(),
{
    if b.len() == 0 {
        assert(a + b =~= a);
        assert(spans_text(a) + spans_text(b) =~= spans_text(a));
    } else {
        lemma_spans_text_concat(a, b.drop_last());
        assert((a + b).drop_last() =~= a + b.drop_last());
        assert((a + b).last() == b.last());
        assert(spans_text(a) + (spans_text(b.drop_last()) + b.last().text) =~= (spans_text(a)
            + spans_text(b.drop_last())) + b.last().text);
    }
}

proof fn lemma_spans_partition(line: Seq<char>, ll: Seq<char>, lq: Seq<char>, pos: int)
    requires
        0 <= pos <= line.len(),
    ensures
        spans_text(highlight_spans(line, ll, lq, pos)) == line.subrange(pos, line.len() as int),
    decreases line.len() - pos,
{
    if !(0 <= pos <= line.len()) || lq.len() == 0 || !has_match_from(ll, lq, pos) || !(pos
        <= spec_find_from(ll, lq, pos) && spec_find_from(ll, lq, pos) + lq.len() <= line.len()) {
        if pos < line.len() {
            lemma_spans_text_singleton(plain_span(line.subrange(pos, line.len() as int)));
        } else {
            assert(line.subrange(pos, line.len() as int) =~= Seq::<char>::empty());
        }
    } else {
        let m = spec_find_from(ll, lq, pos);
        let pre: Seq<SpanV> = if m > pos {
            seq![plain_span(line.subrange(pos, m))]
        } else {
            Seq::empty()
        };
        let mid = seq![matched_span(line.subrange(m, m + lq.len()))];
        let rest = highlight_spans(line, ll, lq, m + lq.len());
        lemma_spans_partition(line, ll, lq, m + lq.len());
        lemma_spans_text_concat(pre + mid, rest);
        lemma_spans_text_concat(pre, mid);
        lemma_spans_text_singleton(matched_span(line.subrange(m, m + lq.len())));
        if m > pos {
            lemma_spans_text_singleton(plain_span(line.subrange(pos, m)));
        } else {
            assert(spans_text(pre) =~= line.subrange(pos, m));
        }
        assert(spans_text(highlight_spans(line, ll, lq, pos)) =~= line.subrange(pos, m)
            + line.subrange(m, m + lq.len()) + line.subrange(m + lq.len(), line.len() as int));
        assert(line.subrange(pos, m) + line.subrange(m, m + lq.len()) + line.subrange(
            m + lq.len(),
            line.len() as int,
        ) =~= line.subrange(pos, line.len() as int));
    }
}

/// Concatenating the text of all spans returned for a line reproduces the
/// line exactly, for every line and every query.
pub proof fn lemma_highlight_round_trip(line: Seq<char>, query: Seq<char>)
    ensures
        spans_text(highlight_spec(line, query)) == line,
{
    let ll = lower_of(line);
    let lq = lower_of(query);
    if query.len() == 0 || lq.len() == 0 || ll.len() != line.len() || !seq_contains(ll, lq) {
        lemma_spans_text_singleton(plain_span(line));
    } else {
        lemma_spans_partition(line, ll, lq, 0);
        assert(line.subrange(0, line.len() as int) =~= line);
    }
}

/// The characters `v[from..to]`, as their own vector.
fn copy_range(v: &Vec<char>, from: usize, to: usize) -> (r: Vec<char>)
    requires
        from <= to <= v@.len(),
    ensures
        r@ == v@.subrange(from as int, to as int),
{
    let mut r: Vec<char> = Vec::new();
    let mut i: usize = from;
    while i < to
        invariant
            from <= i <= to <= v@.len(),
            r@ == v@.subrange(from as int, i as int),
        decreases to - i,
    {
        r.push(v[i]);
        i = i + 1;
        assert(r@ =~= v@.subrange(from as int, i as int));
    }
    r
}

/// Carves `line` into ordered plain and matched spans for `query`, by
/// repeatedly locating the next case-insensitive occurrence strictly after
/// the end of the previous match.
pub fn highlight(line: &str, query: &str) -> (r: Vec<Span>)
    ensures
        r.deep_view() == highlight_spec(line@, query@),
{
    let line_chars = to_chars(line);
    let ll_string = lowercase(line);
    let ll = to_chars(ll_string.as_str());
    let lq_string = lowercase(query);
    let lq = to_chars(lq_string.as_str());
    let qlen = query.unicode_len();
    let mut has_occurrence = false;
    if qlen > 0 && lq.len() > 0 && ll.len() == line_chars.len() {
        has_occurrence = contains_chars(&ll, &lq);
    }
    if !(qlen > 0 && lq.len() > 0 && ll.len() == line_chars.len() && has_occurrence) {
        let mut r: Vec<Span> = Vec::new();
        let text = from_chars(&line_chars);
        r.push(Span { text, matched: false });
        proof {
            assert(r.deep_view() =~~= seq![plain_span(line@)]);
        }
        return r;
    }
    let ghost h0 = highlight_spans(line@, ll@, lq@, 0);
    let mut spans: Vec<Span> = Vec::new();
    let mut pos: usize = 0;
    let mut done = false;
    proof {
        assert(spans.deep_view() + highlight_spans(line@, ll@, lq@, 0) =~~= h0);
    }
    while !done
        invariant
            line_chars@ == line@,
            ll@ == lower_of(line@),
            lq@ == lower_of(query@),
            ll@.len() == line@.len(),
            ll@.len() <= usize::MAX,
            lq@.len() > 0,
            pos <= line@.len(),
            h0 == highlight_spans(line@, ll@, lq@, 0),
            h0 == spans.deep_view() + highlight_spans(line@, ll@, lq@, pos as int),
            done ==> highlight_spans(line@, ll@, lq@, pos as int).len() == 0,
        decreases (if done {
            0int
        } else {
            line@.len() - pos + 1
        }),
    {
        let ghost prev = spans.deep_view();
        match find_from(&ll, &lq, pos) {
            None => {
                if pos < line_chars.len() {
                    let text = from_chars(&copy_range(&line_chars, pos, line_chars.len()));
                    spans.push(Span { text, matched: false });
                    proof {
                        assert(highlight_spans(line@, ll@, lq@, pos as int) =~~= seq![plain_span(
                            line@.subrange(pos as int, line@.len() as int),
                        )]);
                        assert(spans.deep_view() =~~= prev.push(plain_span(
                            line@.subrange(pos as int, line@.len() as int),
                        )));
                        assert(spans.deep_view() =~~= prev + highlight_spans(
                            line@,
                            ll@,
                            lq@,
                            pos as int,
                        ));
                    }
                    pos = line_chars.len();
                }
                done = true;
                proof {
                    assert(highlight_spans(line@, ll@, lq@, pos as int).len() == 0);
                    assert(spans.deep_view() + highlight_spans(line@, ll@, lq@, pos as int)
                        =~~= spans.deep_view());
                }
            },
            Some(m) => {
                proof {
                    assert(m + lq@.len() <= ll@.len());
                }
                if m > pos {
                    let text = from_chars(&copy_range(&line_chars, pos, m));
                    spans.push(Span { text, matched: false });
                }
                let text = from_chars(&copy_range(&line_chars, m, m + lq.len()));
                spans.push(Span { text, matched: true });
                proof {
                    let pre: Seq<SpanV> = if m > pos as int {
                        seq![plain_span(line@.subrange(pos as int, m as int))]
                    } else {
                        Seq::empty()
                    };
                    let mid = seq![matched_span(line@.subrange(m as int, m + lq@.len()))];
                    assert(highlight_spans(line@, ll@, lq@, pos as int) == pre + mid
                        + highlight_spans(line@, ll@, lq@, m + lq@.len()));
                    assert(spans.deep_view() =~~= prev + pre + mid);
                    assert(spans.deep_view() + highlight_spans(line@, ll@, lq@, m + lq@.len())
                        =~~= prev + (pre + mid + highlight_spans(line@, ll@, lq@, m + lq@.len())));
                }
                pos = m + lq.len();
            },
        }
    }
    proof {
        assert(spans.deep_view() + highlight_spans(line@, ll@, lq@, pos as int)
            =~~= spans.deep_view());
        assert(spans.deep_view() =~~= highlight_spec(line@, query@));
    }
    spans
}

} // verus!
