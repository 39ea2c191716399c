//! The search engine: case-insensitive substring search across the pages of
//! a document, yielding line-level results in page-then-line order, and the
//! per-line highlight spans used for rendering. Case folding is std's; the
//! scan, the span computation and their ordering are verified here.

use vstd::prelude::*;

use crate::text::{from_chars, lower_of, spec_lines, split_lines, to_chars};
use crate::text::lowercase;

verus! {

/// One line-level match: the page it is on and the line within that page.
#[derive(Clone, Copy, PartialEq, Eq, Structural, Debug)]
pub struct SearchResult {
    pub page: usize,
    pub line: usize,
}

/// The needle `n` occurs in `h` starting exactly at index `i`.
pub open spec fn contains_at(h: Seq<char>, n: Seq<char>, i: int) -> bool {
    0 <= i && i + n.len() <= h.len() && h.subrange(i, i + n.len() as int) == n
}

/// The needle `n` occurs in `h` at some index `>= from`.
pub open spec fn has_match_from(h: Seq<char>, n: Seq<char>, from: int) -> bool {
    exists|i: int| from <= i && contains_at(h, n, i)
}

/// The needle `n` occurs somewhere in `h`.
pub open spec fn seq_contains(h: Seq<char>, n: Seq<char>) -> bool {
    has_match_from(h, n, 0)
}

/// The least index `>= from` at which `n` occurs in `h`, or `-1` when there
/// is none.
pub open spec fn spec_find_from(h: Seq<char>, n: Seq<char>, from: int) -> int
    decreases h.len() + 1 - from,
{
    if from < 0 || from + n.len() > h.len() {
        -1
    } else if contains_at(h, n, from) {
        from
    } else {
        spec_find_from(h, n, from + 1)
    }
}

/// Whether the characters `n` appear in order starting at `h[i]`.
fn match_at(h: &Vec<char>, n: &Vec<char>, i: usize) -> (r: bool)
    requires
        i + n@.len() <= h@.len(),
    ensures
        r == contains_at(h@, n@, i as int),
{
    let hl = h.len();
    let mut j: usize = 0;
    while j < n.len()
        invariant
            hl == h@.len(),
            i + n@.len() <= h@.len(),
            j <= n@.len(),
            forall|k: int| 0 <= k < j ==> h@[i + k] == n@[k],
        decreases n@.len() - j,
    {
        assert(i + j < h@.len());
        if h[i + j] != n[j] {
            proof {
                assert(h@.subrange(i as int, i as int + n@.len() as int)[j as int] != n@[j as int]);
            }
            return false;
        }
        j = j + 1;
    }
    proof {
        assert(h@.subrange(i as int, i as int + n@.len() as int) =~= n@);
    }
    true
}

/// The leftmost occurrence of `n` in `h` at or after `from`, if any.
pub(crate) fn find_from(h: &Vec<char>, n: &Vec<char>, from: usize) -> (r: Option<usize>)
    ensures
        match r {
            Some(m) => from <= m && contains_at(h@, n@, m as int) && spec_find_from(
                h@,
                n@,
                from as int,
            ) == m,
            None => !has_match_from(h@, n@, from as int),
        },
{
    if n.len() > h.len() {
        return None;
    }
    let bound = h.len() - n.len();
    if from > bound {
        return None;
    }
    let mut i: usize = from;
    while i < bound
        invariant
            n@.len() <= h@.len(),
            bound == h@.len() - n@.len(),
            from <= i <= bound,
            forall|j: int| from <= j < i ==> !contains_at(h@, n@, j),
            spec_find_from(h@, n@, from as int) == spec_find_from(h@, n@, i as int),
        decreases bound - i,
    {
        if match_at(h, n, i) {
            return Some(i);
        }
        i = i + 1;
    }
    if match_at(h, n, bound) {
        Some(bound)
    } else {
        assert(forall|j: int|
            from <= j && contains_at(h@, n@, j) ==> j <= bound as int && !(j < bound as int) && j
                != bound as int);
        None
    }
}

/// Whether `n` occurs somewhere in `h`.
pub(crate) fn contains_chars(h: &Vec<char>, n: &Vec<char>) -> (r: bool)
    ensures
        r == seq_contains(h@, n@),
{
    match find_from(h, n, 0) {
        Some(m) => {
            proof {
                assert(0 <= m as int && contains_at(h@, n@, m as int));
            }
            true
        },
        None => false,
    }
}

/// The results contributed by the lines of one page, in ascending line
/// order; `lq` is the lowercased query.
pub open spec fn line_results(p: int, lines: Seq<Seq<char>>, lq: Seq<char>) -> Seq<SearchResult>
    decreases lines.len(),
{
    if lines.len() == 0 {
        Seq::empty()
    } else {
        let r = line_results(p, lines.drop_last(), lq);
        if seq_contains(lower_of(lines.last()), lq) {
            r.push(SearchResult { page: p as usize, line: (lines.len() - 1) as usize })
        } else {
            r
        }
    }
}

/// Every line-level match of the lowercased query `lq` over the whole
/// document, pages in ascending order and lines in ascending order within a
/// page; one result per matching line.
pub open spec fn search_spec(pages: Seq<Seq<char>>, lq: Seq<char>) -> Seq<SearchResult>
    decreases pages.len(),
{
    if pages.len() == 0 {
        Seq::empty()
    } else {
        search_spec(pages.drop_last(), lq) + line_results(
            pages.len() - 1,
            spec_lines(pages.last()),
            lq,
        )
    }
}

/// Scans the document for the query, case-insensitively: a line matches when
/// its lowercase form contains the lowercase query, and yields one result.
pub fn search_pages(pages: &Vec<String>, query: &str) -> (r: Vec<SearchResult>)
    ensures
        r@ == search_spec(pages.deep_view(), lower_of(query@)),
        results_ordered(r@),
        results_valid(r@, pages.deep_view()),
{
    let lq_string = lowercase(query);
    let lq = to_chars(lq_string.as_str());
    let mut r: Vec<SearchResult> = Vec::new();
    let mut p: usize = 0;
    assert(r@ =~= search_spec(pages.deep_view().subrange(0, 0), lq@));
    while p < pages.len()
        invariant
            p <= pages@.len(),
            pages.deep_view().len() == pages@.len(),
            lq@ == lower_of(query@),
            r@ == search_spec(pages.deep_view().subrange(0, p as int), lq@),
            results_ordered(r@),
            results_valid(r@, pages.deep_view()),
            forall|k: int| 0 <= k < r@.len() ==> r@[k].page < p,
        decreases pages@.len() - p,
    {
        let ghost pl = spec_lines(pages.deep_view()[p as int]);
        let page_chars = to_chars(pages[p].as_str());
        proof {
            assert(pages.deep_view()[p as int] =~= pages@[p as int]@);
        }
        let lines = split_lines(&page_chars);
        assert(lines.deep_view() == pl);
        let mut l: usize = 0;
        assert(pl.subrange(0, 0) =~= Seq::<Seq<char>>::empty());
        while l < lines.len()
            invariant
                l <= lines@.len(),
                pl == spec_lines(pages.deep_view()[p as int]),
                lines.deep_view() == pl,
                lines.deep_view().len() == lines@.len(),
                p < pages@.len(),
                pages.deep_view().len() == pages@.len(),
                lq@ == lower_of(query@),
                r@ == search_spec(pages.deep_view().subrange(0, p as int), lq@) + line_results(
                    p as int,
                    pl.subrange(0, l as int),
                    lq@,
                ),
                results_ordered(r@),
                results_valid(r@, pages.deep_view()),
                forall|k: int|
                    0 <= k < r@.len() ==> (r@[k].page < p || (r@[k].page == p && r@[k].line < l)),
            decreases lines@.len() - l,
        {
            proof {
                let t = pl.subrange(0, l as int + 1);
                assert(t.drop_last() =~= pl.subrange(0, l as int));
                assert(t.last() == pl[l as int]);
                assert(lines.deep_view()[l as int] =~= lines@[l as int]@);
            }
            let line_s = from_chars(&lines[l]);
            let ll_string = lowercase(line_s.as_str());
            let ll = to_chars(ll_string.as_str());
            if contains_chars(&ll, &lq) {
                let ghost prev = r@;
                r.push(SearchResult { page: p, line: l });
                proof {
                    assert(spec_lines(pages.deep_view()[p as int]).len() == lines@.len());
                    assert forall|k: int|
                        0 <= k < r@.len() implies r@[k].page < pages.deep_view().len()
                        && r@[k].line < spec_lines(
                        pages.deep_view()[r@[k].page as int],
                    ).len() by {
                        if k < prev.len() {
                            assert(r@[k] == prev[k]);
                        } else {
                            assert(r@[k] == SearchResult { page: p, line: l });
                        }
                    }
                }
            }
            l = l + 1;
        }
        proof {
            assert(pl.subrange(0, lines@.len() as int) =~= pl);
            let t = pages.deep_view().subrange(0, p as int + 1);
            assert(t.drop_last() =~= pages.deep_view().subrange(0, p as int));
            assert(t.last() == pages.deep_view()[p as int]);
        }
        p = p + 1;
    }
    assert(pages.deep_view().subrange(0, pages@.len() as int) =~= pages.deep_view());
    r
}

/// Results are strictly ascending in page-then-line order.
pub open spec fn results_ordered(rs: Seq<SearchResult>) -> bool {
    forall|i: int, j: int|
        0 <= i < j < rs.len() ==> (rs[i].page < rs[j].page || (rs[i].page == rs[j].page
            && rs[i].line < rs[j].line))
}

/// Every result points at an existing page and an existing line of it.
pub open spec fn results_valid(rs: Seq<SearchResult>, pages: Seq<Seq<char>>) -> bool {
    forall|k: int|
        0 <= k < rs.len() ==> rs[k].page < pages.len() && rs[k].line < spec_lines(
            pages[rs[k].page as int],
        ).len()
}

/// A query that no line of the document contains yields no result.
pub proof fn lemma_search_no_match(pages: Seq<Seq<char>>, lq: Seq<char>)
    requires
        forall|p: int, l: int|
            0 <= p < pages.len() && 0 <= l < spec_lines(pages[p]).len() ==> !seq_contains(
                lower_of(spec_lines(pages[p])[l]),
                lq,
            ),
    ensures
        search_spec(pages, lq).len() == 0,
    decreases pages.len(),
{
    if pages.len() > 0 {
        lemma_search_no_match(pages.drop_last(), lq);
        lemma_line_results_empty(pages.len() - 1, spec_lines(pages.last()), lq);
    }
}

proof fn lemma_line_results_empty(p: int, lines: Seq<Seq<char>>, lq: Seq<char>)
    requires
        forall|l: int| 0 <= l < lines.len() ==> !seq_contains(lower_of(lines[l]), lq),
    ensures
        line_results(p, lines, lq).len() == 0,
    decreases lines.len(),
{
    if lines.len() > 0 {
        lemma_line_results_empty(p, lines.drop_last(), lq);
    }
}

} // verus!
