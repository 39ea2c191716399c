//! The pagination engine: carving one raw text blob into an ordered sequence
//! of normalized pages. A page boundary is an explicit form-feed character
//! when the input has any; otherwise lines are grouped into fixed-size
//! chunks. Each page is normalized (lines trimmed, empty lines dropped,
//! rejoined with newlines) and pages that normalize to nothing are dropped;
//! if that leaves no page at all, the whole input becomes one page.

use vstd::prelude::*;

use crate::text::{
    count_char, from_chars, is_whitespace_char, join_with, join_with_char, spec_lines, spec_trim,
    split_lines, split_on, split_on_char, to_chars, trim_chars,
};

verus! {

/// How many lines go on one page when the input has no form feeds.
pub const LINES_PER_PAGE: usize = 50;

/// The form-feed character, an explicit page-boundary marker.
pub const PAGE_BREAK: char = '\x0C';

/// The trimmed forms of the lines of `ls` that are non-empty after trimming,
/// in order.
pub open spec fn kept_lines(ls: Seq<Seq<char>>) -> Seq<Seq<char>>
    decreases ls.len(),
{
    if ls.len() == 0 {
        Seq::empty()
    } else {
        let r = kept_lines(ls.drop_last());
        if spec_trim(ls.last()).len() > 0 {
            r.push(spec_trim(ls.last()))
        } else {
            r
        }
    }
}

/// A group of lines normalized into one text block: trim each line, drop the
/// ones left empty, rejoin with newlines.
pub open spec fn normalize_lines(ls: Seq<Seq<char>>) -> Seq<char> {
    join_with(kept_lines(ls), '\n')
}

/// A raw text block normalized line by line.
pub open spec fn spec_normalize(s: Seq<char>) -> Seq<char> {
    normalize_lines(spec_lines(s))
}

/// The normalized forms of the segments of `segs` that do not normalize to
/// nothing, in order.
pub open spec fn kept_pages(segs: Seq<Seq<char>>) -> Seq<Seq<char>>
    decreases segs.len(),
{
    if segs.len() == 0 {
        Seq::empty()
    } else {
        let r = kept_pages(segs.drop_last());
        if spec_normalize(segs.last()).len() > 0 {
            r.push(spec_normalize(segs.last()))
        } else {
            r
        }
    }
}

/// The pages made of consecutive groups of `LINES_PER_PAGE` lines (the last
/// group may be shorter), each normalized, groups that normalize to nothing
/// dropped.
pub open spec fn chunk_pages(ls: Seq<Seq<char>>) -> Seq<Seq<char>>
    decreases ls.len(),
{
    if ls.len() == 0 {
        Seq::empty()
    } else {
        let c = if ls.len() < LINES_PER_PAGE as int {
            ls.len() as int
        } else {
            LINES_PER_PAGE as int
        };
        let page = normalize_lines(ls.take(c));
        let rest = chunk_pages(ls.skip(c));
        if page.len() > 0 {
            seq![page] + rest
        } else {
            rest
        }
    }
}

/// What pagination yields: form-feed segments when the input has a form
/// feed, fixed-size line chunks otherwise, and a single page holding the
/// normalized whole input when either would yield no page at all.
pub open spec fn spec_paginate(s: Seq<char>) -> Seq<Seq<char>> {
    let pages = if count_char(s, PAGE_BREAK) > 0 {
        kept_pages(split_on(s, PAGE_BREAK))
    } else {
        chunk_pages(spec_lines(s))
    };
    if pages.len() == 0 {
        seq![spec_normalize(s)]
    } else {
        pages
    }
}

/// Whether `c` occurs in `v`.
fn contains_char(v: &Vec<char>, c: char) -> (r: bool)
    ensures
        r == (count_char(v@, c) > 0),
{
    let mut cnt: usize = 0;
    let mut i: usize = 0;
    while i < v.len()
        invariant
            i <= v@.len(),
            cnt <= i,
            cnt as nat == count_char(v@.subrange(0, i as int), c),
        decreases v@.len() - i,
    {
        proof {
            let t = v@.subrange(0, i as int + 1);
            assert(t.drop_last() =~= v@.subrange(0, i as int));
            assert(t.last() == v@[i as int]);
        }
        if v[i] == c {
            cnt = cnt + 1;
        }
        i = i + 1;
    }
    assert(v@.subrange(0, v@.len() as int) =~= v@);
    cnt > 0
}

/// Normalizes the lines `lines[from..to]` into one text block.
fn normalize_line_group(lines: &Vec<Vec<char>>, from: usize, to: usize) -> (r: Vec<char>)
    requires
        from <= to <= lines@.len(),
    ensures
        r@ == normalize_lines(lines.deep_view().subrange(from as int, to as int)),
{
    let mut kept: Vec<Vec<char>> = Vec::new();
    let mut i: usize = from;
    assert(kept.deep_view() =~~= kept_lines(lines.deep_view().subrange(from as int, from as int)));
    while i < to
        invariant
            from <= i <= to <= lines@.len(),
            lines.deep_view().len() == lines@.len(),
            kept.deep_view() == kept_lines(lines.deep_view().subrange(from as int, i as int)),
        decreases to - i,
    {
        let ghost prev = kept.deep_view();
        proof {
            let t = lines.deep_view().subrange(from as int, i as int + 1);
            assert(t.drop_last() =~= lines.deep_view().subrange(from as int, i as int));
            assert(t.last() == lines.deep_view()[i as int]);
            assert(lines.deep_view()[i as int] =~= lines@[i as int]@);
        }
        let t = trim_chars(&lines[i]);
        if t.len() > 0 {
            kept.push(t);
            proof {
                assert(kept.deep_view() =~~= prev.push(spec_trim(lines@[i as int]@)));
            }
        }
        i = i + 1;
    }
    join_with_char(&kept, '\n')
}

/// Normalizes one raw text block: trim each of its lines, drop the empty
/// ones, rejoin with newlines.
pub fn format_pdf_content(content: &str) -> (r: String)
    ensures
        r@ == spec_normalize(content@),
{
    let chars = to_chars(content);
    let lines = split_lines(&chars);
    let n = lines.len();
    let norm = normalize_line_group(&lines, 0, n);
    assert(lines.deep_view().subrange(0, lines.deep_view().len() as int) =~= lines.deep_view());
    from_chars(&norm)
}

/// Splits raw text into its ordered sequence of normalized pages; the result
/// always holds at least one page.
pub fn split_into_pages(text: &str) -> (r: Vec<String>)
    ensures
        r.deep_view() == spec_paginate(text@),
        r.deep_view().len() > 0,
{
    let chars = to_chars(text);
    let has_ff = contains_char(&chars, PAGE_BREAK);
    let mut pages: Vec<String> = Vec::new();
    if has_ff {
        let segs = split_on_char(&chars, PAGE_BREAK);
        let mut i: usize = 0;
        assert(pages.deep_view() =~~= kept_pages(segs.deep_view().subrange(0, 0)));
        while i < segs.len()
            invariant
                i <= segs@.len(),
                segs.deep_view().len() == segs@.len(),
                pages.deep_view() == kept_pages(segs.deep_view().subrange(0, i as int)),
            decreases segs@.len() - i,
        {
            let ghost prev = pages.deep_view();
            proof {
                let t = segs.deep_view().subrange(0, i as int + 1);
                assert(t.drop_last() =~= segs.deep_view().subrange(0, i as int));
                assert(t.last() == segs.deep_view()[i as int]);
                assert(segs.deep_view()[i as int] =~= segs@[i as int]@);
            }
            let seg_lines = split_lines(&segs[i]);
            let m = seg_lines.len();
            let norm = normalize_line_group(&seg_lines, 0, m);
            assert(seg_lines.deep_view().subrange(0, seg_lines.deep_view().len() as int)
                =~= seg_lines.deep_view());
            if norm.len() > 0 {
                let page = from_chars(&norm);
                pages.push(page);
                proof {
                    assert(pages.deep_view() =~~= prev.push(spec_normalize(segs@[i as int]@)));
                }
            }
            i = i + 1;
        }
        assert(segs.deep_view().subrange(0, segs.deep_view().len() as int) =~= segs.deep_view());
    } else {
        let lines = split_lines(&chars);
        let ghost all = lines.deep_view();
        let mut i: usize = 0;
        assert(all.skip(0) =~= all);
        while i < lines.len()
            invariant
                i <= lines@.len(),
                all == lines.deep_view(),
                all.len() == lines@.len(),
                chunk_pages(all) == pages.deep_view() + chunk_pages(all.skip(i as int)),
            decreases lines@.len() - i,
        {
            let c = if lines.len() - i < LINES_PER_PAGE {
                lines.len() - i
            } else {
                LINES_PER_PAGE
            };
            proof {
                let rem = all.skip(i as int);
                assert(rem.take(c as int) =~= all.subrange(i as int, i as int + c as int));
                assert(rem.skip(c as int) =~= all.skip(i as int + c as int));
            }
            let norm = normalize_line_group(&lines, i, i + c);
            let ghost prev = pages.deep_view();
            if norm.len() > 0 {
                let page = from_chars(&norm);
                pages.push(page);
                proof {
                    assert(pages.deep_view() =~~= prev.push(normalize_lines(all.subrange(
                        i as int,
                        i as int + c as int,
                    ))));
                    assert(pages.deep_view() + chunk_pages(all.skip(i as int + c as int)) =~~= prev
                        + chunk_pages(all.skip(i as int)));
                }
            }
            i = i + c;
        }
        assert(all.skip(i as int) =~= Seq::<Seq<char>>::empty());
        assert(pages.deep_view() + chunk_pages(all.skip(i as int)) =~~= pages.deep_view());
    }
    if pages.len() == 0 {
        let lines = split_lines(&chars);
        let n = lines.len();
        let norm = normalize_line_group(&lines, 0, n);
        assert(lines.deep_view().subrange(0, lines.deep_view().len() as int)
            =~= lines.deep_view());
        let page = from_chars(&norm);
        let ghost prev = pages.deep_view();
        pages.push(page);
        proof {
            assert(pages.deep_view() =~~= prev.push(spec_normalize(text@)));
            assert(pages.deep_view() =~~= seq![spec_normalize(text@)]);
        }
    }
    pages
}

proof fn lemma_trim_front_all_ws(l: Seq<char>)
    requires
        forall|i: int| 0 <= i < l.len() ==> is_whitespace_char(l[i]),
    ensures
        crate::text::trim_front(l).len() == 0,
    decreases l.len(),
{
    if l.len() > 0 {
        assert(forall|i: int|
            0 <= i < l.drop_first().len() ==> is_whitespace_char(l.drop_first()[i]));
        lemma_trim_front_all_ws(l.drop_first());
    }
}

/// A line made of whitespace alone trims to nothing.
proof fn lemma_all_ws_trim_empty(l: Seq<char>)
    requires
        forall|i: int| 0 <= i < l.len() ==> is_whitespace_char(l[i]),
    ensures
        spec_trim(l).len() == 0,
{
    lemma_trim_front_all_ws(l);
}

/// Splitting an all-whitespace text gives all-whitespace pieces.
proof fn lemma_split_on_all_ws(s: Seq<char>, sep: char)
    requires
        forall|i: int| 0 <= i < s.len() ==> is_whitespace_char(s[i]),
    ensures
        forall|k: int, j: int|
            0 <= k < split_on(s, sep).len() && 0 <= j < split_on(s, sep)[k].len()
                ==> is_whitespace_char(split_on(s, sep)[k][j]),
    decreases s.len(),
{
    if s.len() > 0 {
        assert(forall|i: int|
            0 <= i < s.drop_last().len() ==> is_whitespace_char(s.drop_last()[i]));
        lemma_split_on_all_ws(s.drop_last(), sep);
        let r = split_on(s.drop_last(), sep);
        if s.last() == sep {
        } else {
            assert forall|k: int, j: int|
                0 <= k < split_on(s, sep).len() && 0 <= j < split_on(s, sep)[k].len()
                    implies is_whitespace_char(split_on(s, sep)[k][j]) by {
                if k < split_on(s, sep).len() - 1 {
                    assert(split_on(s, sep)[k] == r[k]);
                } else {
                    assert(split_on(s, sep)[k] == r.last().push(s.last()));
                }
            }
        }
    }
}

/// All-whitespace lines leave nothing after normalization.
proof fn lemma_kept_lines_all_ws(ls: Seq<Seq<char>>)
    requires
        forall|k: int, j: int|
            0 <= k < ls.len() && 0 <= j < ls[k].len() ==> is_whitespace_char(ls[k][j]),
    ensures
        kept_lines(ls).len() == 0,
    decreases ls.len(),
{
    if ls.len() > 0 {
        assert(forall|k: int, j: int|
            0 <= k < ls.drop_last().len() && 0 <= j < ls.drop_last()[k].len()
                ==> is_whitespace_char(ls.drop_last()[k][j]));
        lemma_kept_lines_all_ws(ls.drop_last());
        lemma_all_ws_trim_empty(ls.last());
    }
}

/// An all-whitespace text normalizes to the empty text.
proof fn lemma_normalize_all_ws(s: Seq<char>)
    requires
        forall|i: int| 0 <= i < s.len() ==> is_whitespace_char(s[i]),
    ensures
        spec_normalize(s).len() == 0,
{
    lemma_split_on_all_ws(s, '\n');
    let p = split_on(s, '\n');
    assert(forall|k: int, j: int|
        0 <= k < spec_lines(s).len() && 0 <= j < spec_lines(s)[k].len() ==> is_whitespace_char(
            spec_lines(s)[k][j],
        ));
    lemma_kept_lines_all_ws(spec_lines(s));
}

proof fn lemma_kept_pages_all_empty(segs: Seq<Seq<char>>)
    requires
        forall|k: int| 0 <= k < segs.len() ==> spec_normalize(segs[k]).len() == 0,
    ensures
        kept_pages(segs).len() == 0,
    decreases segs.len(),
{
    if segs.len() > 0 {
        assert(forall|k: int|
            0 <= k < segs.drop_last().len() ==> spec_normalize(segs.drop_last()[k]).len() == 0);
        lemma_kept_pages_all_empty(segs.drop_last());
    }
}

proof fn lemma_chunk_pages_all_ws(ls: Seq<Seq<char>>)
    requires
        forall|k: int, j: int|
            0 <= k < ls.len() && 0 <= j < ls[k].len() ==> is_whitespace_char(ls[k][j]),
    ensures
        chunk_pages(ls).len() == 0,
    decreases ls.len(),
{
    if ls.len() > 0 {
        let c = if ls.len() < LINES_PER_PAGE as int {
            ls.len() as int
        } else {
            LINES_PER_PAGE as int
        };
        assert(forall|k: int, j: int|
            0 <= k < ls.take(c).len() && 0 <= j < ls.take(c)[k].len() ==> is_whitespace_char(
                ls.take(c)[k][j],
            ));
        lemma_kept_lines_all_ws(ls.take(c));
        assert(forall|k: int, j: int|
            0 <= k < ls.skip(c).len() && 0 <= j < ls.skip(c)[k].len() ==> is_whitespace_char(
                ls.skip(c)[k][j],
            ));
        lemma_chunk_pages_all_ws(ls.skip(c));
    }
}

/// An input made of whitespace alone paginates to exactly one page, and that
/// page is empty.
pub proof fn lemma_paginate_all_whitespace(s: Seq<char>)
    requires
        forall|i: int| 0 <= i < s.len() ==> is_whitespace_char(s[i]),
    ensures
        spec_paginate(s).len() == 1,
        spec_paginate(s)[0].len() == 0,
{
    lemma_normalize_all_ws(s);
    if count_char(s, PAGE_BREAK) > 0 {
        lemma_split_on_all_ws(s, PAGE_BREAK);
        let segs = split_on(s, PAGE_BREAK);
        assert forall|k: int| 0 <= k < segs.len() implies spec_normalize(segs[k]).len() == 0 by {
            lemma_normalize_all_ws(segs[k]);
        }
        lemma_kept_pages_all_empty(segs);
    } else {
        lemma_split_on_all_ws(s, '\n');
        assert(forall|k: int, j: int|
            0 <= k < spec_lines(s).len() && 0 <= j < spec_lines(s)[k].len() ==> is_whitespace_char(
                spec_lines(s)[k][j],
            ));
        lemma_chunk_pages_all_ws(spec_lines(s));
    }
}

proof fn lemma_kept_pages_all_kept(segs: Seq<Seq<char>>)
    requires
        forall|k: int| 0 <= k < segs.len() ==> spec_normalize(segs[k]).len() > 0,
    ensures
        kept_pages(segs).len() == segs.len(),
        forall|k: int| 0 <= k < segs.len() ==> kept_pages(segs)[k] == spec_normalize(segs[k]),
    decreases segs.len(),
{
    if segs.len() > 0 {
        assert(forall|k: int|
            0 <= k < segs.drop_last().len() ==> spec_normalize(segs.drop_last()[k]).len() > 0);
        lemma_kept_pages_all_kept(segs.drop_last());
        assert forall|k: int| 0 <= k < segs.len() implies kept_pages(segs)[k] == spec_normalize(
            segs[k],
        ) by {
            if k < segs.len() - 1 {
                assert(kept_pages(segs)[k] == kept_pages(segs.drop_last())[k]);
                assert(segs.drop_last()[k] == segs[k]);
            }
        }
    }
}

/// An input whose form-feed segments all normalize to something yields one
/// page per segment — `k` form feeds give `k + 1` pages — each non-empty
/// and in the original segment order.
pub proof fn lemma_paginate_form_feeds(s: Seq<char>)
    requires
        count_char(s, PAGE_BREAK) > 0,
        forall|k: int|
            0 <= k < split_on(s, PAGE_BREAK).len() ==> spec_normalize(
                split_on(s, PAGE_BREAK)[k],
            ).len() > 0,
    ensures
        spec_paginate(s).len() == count_char(s, PAGE_BREAK) + 1,
        forall|k: int|
            0 <= k < spec_paginate(s).len() ==> spec_paginate(s)[k] == spec_normalize(
                split_on(s, PAGE_BREAK)[k],
            ),
        forall|k: int| 0 <= k < spec_paginate(s).len() ==> spec_paginate(s)[k].len() > 0,
{
    lemma_kept_pages_all_kept(split_on(s, PAGE_BREAK));
    crate::text::lemma_split_on_len(s, PAGE_BREAK);
}

proof fn lemma_kept_lines_id(ls: Seq<Seq<char>>)
    requires
        forall|k: int| 0 <= k < ls.len() ==> spec_trim(ls[k]) == ls[k] && ls[k].len() > 0,
    ensures
        kept_lines(ls) == ls,
    decreases ls.len(),
{
    if ls.len() > 0 {
        assert(forall|k: int|
            0 <= k < ls.drop_last().len() ==> spec_trim(ls.drop_last()[k]) == ls.drop_last()[k]
                && ls.drop_last()[k].len() > 0);
        lemma_kept_lines_id(ls.drop_last());
        assert(kept_lines(ls) =~= ls);
    }
}

proof fn lemma_chunk_pages_count(ls: Seq<Seq<char>>)
    requires
        ls.len() > 0,
        forall|k: int| 0 <= k < ls.len() ==> spec_trim(ls[k]) == ls[k] && ls[k].len() > 0,
    ensures
        chunk_pages(ls).len() == (ls.len() + LINES_PER_PAGE - 1) / (LINES_PER_PAGE as int),
    decreases ls.len(),
{
    let lpp = LINES_PER_PAGE as int;
    let c = if ls.len() < lpp {
        ls.len() as int
    } else {
        lpp
    };
    assert(forall|k: int|
        0 <= k < ls.take(c).len() ==> spec_trim(ls.take(c)[k]) == ls.take(c)[k]
            && ls.take(c)[k].len() > 0);
    lemma_kept_lines_id(ls.take(c));
    let page = normalize_lines(ls.take(c));
    assert(page.len() > 0);
    if ls.len() <= lpp {
        assert(ls.skip(c) =~= Seq::<Seq<char>>::empty());
        assert(chunk_pages(Seq::<Seq<char>>::empty()).len() == 0);
        assert(chunk_pages(ls).len() == 1);
        assert((ls.len() + lpp - 1) / lpp == 1) by {
            vstd::arithmetic::div_mod::lemma_div_plus_one(ls.len() - 1, lpp);
            vstd::arithmetic::div_mod::lemma_basic_div(ls.len() - 1, lpp);
        }
    } else {
        assert(forall|k: int|
            0 <= k < ls.skip(c).len() ==> spec_trim(ls.skip(c)[k]) == ls.skip(c)[k]
                && ls.skip(c)[k].len() > 0);
        lemma_chunk_pages_count(ls.skip(c));
        assert((ls.len() + lpp - 1) / lpp == (ls.len() - lpp + lpp - 1) / lpp + 1) by {
            vstd::arithmetic::div_mod::lemma_div_plus_one(ls.len() - 1, lpp);
        }
    }
}

/// An input with no form feeds whose lines are already trimmed and
/// non-empty paginates into ceiling(lines / page size) pages.
pub proof fn lemma_paginate_full_chunks(s: Seq<char>)
    requires
        count_char(s, PAGE_BREAK) == 0,
        spec_lines(s).len() > 0,
        forall|k: int|
            0 <= k < spec_lines(s).len() ==> spec_trim(spec_lines(s)[k]) == spec_lines(s)[k]
                && spec_lines(s)[k].len() > 0,
    ensures
        spec_paginate(s).len() == (spec_lines(s).len() + LINES_PER_PAGE - 1) / (
        LINES_PER_PAGE as int),
{
    lemma_chunk_pages_count(spec_lines(s));
    let lpp = LINES_PER_PAGE as int;
    assert((spec_lines(s).len() + lpp - 1) / lpp > 0) by {
        vstd::arithmetic::div_mod::lemma_div_plus_one(spec_lines(s).len() - 1, lpp);
        vstd::arithmetic::div_mod::lemma_div_pos_is_pos(spec_lines(s).len() - 1, lpp);
    }
}

} // verus!
