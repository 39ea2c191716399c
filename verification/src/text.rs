//! Character and string groundwork: whitespace trimming, splitting and
//! joining on a separator character, decimal digits, and the case folding
//! that search relies on.

use vstd::prelude::*;

verus! {

/// Whether a character has the Unicode `White_Space` property; the exact
/// character set is std's and is not restated here.
pub uninterp spec fn is_whitespace_char(c: char) -> bool;

/// The Unicode lowercase form of a character sequence, as `str::to_lowercase`
/// computes it; a function of the characters alone.
pub uninterp spec fn lower_of(s: Seq<char>) -> Seq<char>;

/// Relies on char::is_whitespace: true exactly for characters with the
/// Unicode `White_Space` property, a function of the character alone.
pub assume_specification[ char::is_whitespace ](c: char) -> (r: bool)
    ensures
        r == is_whitespace_char(c),
;

/// Relies on String::push: appends the given character at the end of the
/// string.
pub assume_specification[ String::push ](s: &mut String, c: char)
    ensures
        final(s)@ == old(s)@.push(c),
;

/// Relies on str::to_lowercase: returns the lowercase equivalent of the
/// string; the result depends on the characters alone.
#[verifier::external_body]
pub(crate) fn lowercase(s: &str) -> (r: String)
    ensures
        r@ == lower_of(s@),
{
    s.to_lowercase()
}

/// The characters of `s`, in order.
pub fn to_chars(s: &str) -> (v: Vec<char>)
    ensures
        v@ == s@,
{
    let n = s.unicode_len();
    let mut v: Vec<char> = Vec::new();
    let mut i: usize = 0;
    while i < n
        invariant
            n == s@.len(),
            i <= n,
            v@ == s@.subrange(0, i as int),
        decreases n - i,
    {
        v.push(s.get_char(i));
        i = i + 1;
        assert(v@ =~= s@.subrange(0, i as int));
    }
    assert(s@.subrange(0, n as int) =~= s@);
    v
}

/// The string holding exactly the characters of `v`, in order.
pub fn from_chars(v: &Vec<char>) -> (s: String)
    ensures
        s@ == v@,
{
    let mut s = String::new();
    let mut i: usize = 0;
    while i < v.len()
        invariant
            i <= v@.len(),
            s@ == v@.subrange(0, i as int),
        decreases v@.len() - i,
    {
        s.push(v[i]);
        i = i + 1;
        assert(s@ =~= v@.subrange(0, i as int));
    }
    assert(v@.subrange(0, v@.len() as int) =~= v@);
    s
}

pub open spec fn is_digit_char(c: char) -> bool {
    c == '0' || c == '1' || c == '2' || c == '3' || c == '4' || c == '5' || c == '6' || c == '7'
        || c == '8' || c == '9'
}

pub fn char_is_digit(c: char) -> (r: bool)
    ensures
        r == is_digit_char(c),
{
    c == '0' || c == '1' || c == '2' || c == '3' || c == '4' || c == '5' || c == '6' || c == '7'
        || c == '8' || c == '9'
}

pub open spec fn digit_val(c: char) -> nat {
    if c == '0' {
        0
    } else if c == '1' {
        1
    } else if c == '2' {
        2
    } else if c == '3' {
        3
    } else if c == '4' {
        4
    } else if c == '5' {
        5
    } else if c == '6' {
        6
    } else if c == '7' {
        7
    } else if c == '8' {
        8
    } else {
        9
    }
}

/// The value of a digit string read in base ten.
pub open spec fn digits_value(s: Seq<char>) -> nat
    decreases s.len(),
{
    if s.len() == 0 {
        0
    } else {
        digits_value(s.drop_last()) * 10 + digit_val(s.last())
    }
}

pub open spec fn digit_char(d: nat) -> char {
    if d == 0 {
        '0'
    } else if d == 1 {
        '1'
    } else if d == 2 {
        '2'
    } else if d == 3 {
        '3'
    } else if d == 4 {
        '4'
    } else if d == 5 {
        '5'
    } else if d == 6 {
        '6'
    } else if d == 7 {
        '7'
    } else if d == 8 {
        '8'
    } else {
        '9'
    }
}

/// The base-ten digit string of `n`, without leading zeros (a lone zero for 0).
pub open spec fn dec_digits(n: nat) -> Seq<char>
    decreases n,
{
    if n < 10 {
        seq![digit_char(n)]
    } else {
        dec_digits(n / 10).push(digit_char(n % 10))
    }
}

fn digit_to_char(d: usize) -> (c: char)
    requires
        d < 10,
    ensures
        c == digit_char(d as nat),
{
    if d == 0 {
        '0'
    } else if d == 1 {
        '1'
    } else if d == 2 {
        '2'
    } else if d == 3 {
        '3'
    } else if d == 4 {
        '4'
    } else if d == 5 {
        '5'
    } else if d == 6 {
        '6'
    } else if d == 7 {
        '7'
    } else if d == 8 {
        '8'
    } else {
        '9'
    }
}

/// The base-ten rendering of `n`.
pub fn usize_to_string(n: usize) -> (r: String)
    ensures
        r@ == dec_digits(n as nat),
    decreases n,
{
    if n < 10 {
        let mut s = String::new();
        s.push(digit_to_char(n));
        assert(s@ =~= seq![digit_char(n as nat)]);
        s
    } else {
        let mut s = usize_to_string(n / 10);
        s.push(digit_to_char(n % 10));
        s
    }
}

/// Parses a base-ten number: defined exactly when the string is non-empty,
/// all digits, and the value fits in `usize`.
pub fn parse_usize(s: &Vec<char>) -> (r: Option<usize>)
    ensures
        match r {
            Some(v) => s@.len() > 0 && (forall|i: int| 0 <= i < s@.len() ==> is_digit_char(s@[i]))
                && v as nat == digits_value(s@),
            None => s@.len() == 0 || (exists|i: int| 0 <= i < s@.len() && !is_digit_char(s@[i]))
                || digits_value(s@) > usize::MAX,
        },
{
    if s.len() == 0 {
        return None;
    }
    let mut acc: usize = 0;
    let mut i: usize = 0;
    while i < s.len()
        invariant
            i <= s@.len(),
            forall|j: int| 0 <= j < i ==> is_digit_char(s@[j]),
            acc as nat == digits_value(s@.subrange(0, i as int)),
        decreases s@.len() - i,
    {
        let c = s[i];
        if !char_is_digit(c) {
            return None;
        }
        let d = digit_value_exec(c);
        if acc > (usize::MAX - d) / 10 {
            proof {
                lemma_digits_prefix_overflow(s@, i as int);
            }
            return None;
        }
        proof {
            lemma_digits_take_succ(s@, i as int);
        }
        acc = acc * 10 + d;
        i = i + 1;
    }
    assert(s@.subrange(0, s@.len() as int) =~= s@);
    Some(acc)
}

fn digit_value_exec(c: char) -> (d: usize)
    requires
        is_digit_char(c),
    ensures
        d as nat == digit_val(c),
        d < 10,
{
    if c == '0' {
        0
    } else if c == '1' {
        1
    } else if c == '2' {
        2
    } else if c == '3' {
        3
    } else if c == '4' {
        4
    } else if c == '5' {
        5
    } else if c == '6' {
        6
    } else if c == '7' {
        7
    } else if c == '8' {
        8
    } else {
        9
    }
}

proof fn lemma_digits_take_succ(s: Seq<char>, i: int)
    requires
        0 <= i < s.len(),
    ensures
        digits_value(s.subrange(0, i + 1)) == digits_value(s.subrange(0, i)) * 10 + digit_val(
            s[i],
        ),
{
    let t = s.subrange(0, i + 1);
    assert(t.drop_last() =~= s.subrange(0, i));
    assert(t.last() == s[i]);
}

/// Once a digit prefix is already too large for `usize`, every longer prefix is.
proof fn lemma_digits_prefix_overflow(s: Seq<char>, i: int)
    requires
        0 <= i < s.len(),
        digits_value(s.subrange(0, i)) * 10 + digit_val(s[i]) > usize::MAX,
    ensures
        digits_value(s) > usize::MAX,
    decreases s.len() - i,
{
    lemma_digits_take_succ(s, i);
    if i + 1 == s.len() {
        assert(s.subrange(0, s.len() as int) =~= s);
    } else {
        assert(digits_value(s.subrange(0, i + 1)) * 10 + digit_val(s[i + 1]) > usize::MAX);
        lemma_digits_prefix_overflow(s, i + 1);
    }
}

/// `s` with leading whitespace removed.
pub open spec fn trim_front(s: Seq<char>) -> Seq<char>
    decreases s.len(),
{
    if s.len() > 0 && is_whitespace_char(s.first()) {
        trim_front(s.drop_first())
    } else {
        s
    }
}

/// `s` with trailing whitespace removed.
pub open spec fn trim_back(s: Seq<char>) -> Seq<char>
    decreases s.len(),
{
    if s.len() > 0 && is_whitespace_char(s.last()) {
        trim_back(s.drop_last())
    } else {
        s
    }
}

/// `s` with leading and trailing whitespace removed, as `str::trim` does.
pub open spec fn spec_trim(s: Seq<char>) -> Seq<char> {
    trim_back(trim_front(s))
}

/// The trimmed copy of `v`.
pub fn trim_chars(v: &Vec<char>) -> (r: Vec<char>)
    ensures
        r@ == spec_trim(v@),
{
    let n = v.len();
    assert(v@.subrange(0, n as int) =~= v@);
    let mut start: usize = 0;
    while start < n && v[start].is_whitespace()
        invariant
            n == v@.len(),
            start <= n,
            trim_front(v@) == trim_front(v@.subrange(start as int, n as int)),
        decreases n - start,
    {
        proof {
            let t = v@.subrange(start as int, n as int);
            assert(t.drop_first() =~= v@.subrange(start as int + 1, n as int));
        }
        start = start + 1;
    }
    proof {
        let t = v@.subrange(start as int, n as int);
        if t.len() > 0 {
            assert(t.first() == v@[start as int]);
        }
        assert(trim_front(v@) == t);
    }
    let mut end: usize = n;
    while end > start && v[end - 1].is_whitespace()
        invariant
            n == v@.len(),
            start <= end <= n,
            trim_front(v@) == v@.subrange(start as int, n as int),
            start < n ==> !is_whitespace_char(v@[start as int]),
            trim_back(v@.subrange(start as int, n as int)) == trim_back(
                v@.subrange(start as int, end as int),
            ),
        decreases end,
    {
        proof {
            let t = v@.subrange(start as int, end as int);
            assert(t.last() == v@[end - 1]);
            assert(t.drop_last() =~= v@.subrange(start as int, end as int - 1));
        }
        end = end - 1;
    }
    proof {
        let t = v@.subrange(start as int, end as int);
        if t.len() > 0 {
            assert(t.last() == v@[end as int - 1]);
        }
        assert(trim_back(t) == t);
    }
    let mut r: Vec<char> = Vec::new();
    let mut i: usize = start;
    while i < end
        invariant
            start <= i <= end <= v@.len(),
            r@ == v@.subrange(start as int, i as int),
        decreases end - i,
    {
        r.push(v[i]);
        i = i + 1;
        assert(r@ =~= v@.subrange(start as int, i as int));
    }
    r
}

/// `s` split on every occurrence of `sep`; always at least one piece, and no
/// piece contains `sep`.
pub open spec fn split_on(s: Seq<char>, sep: char) -> Seq<Seq<char>>
    decreases s.len(),
{
    if s.len() == 0 {
        seq![Seq::<char>::empty()]
    } else if s.last() == sep {
        split_on(s.drop_last(), sep).push(Seq::<char>::empty())
    } else {
        let r = split_on(s.drop_last(), sep);
        r.drop_last().push(r.last().push(s.last()))
    }
}

pub proof fn lemma_split_on_len(s: Seq<char>, sep: char)
    ensures
        split_on(s, sep).len() == count_char(s, sep) + 1,
    decreases s.len(),
{
    if s.len() > 0 {
        lemma_split_on_len(s.drop_last(), sep);
    }
}

/// How many times `c` occurs in `s`.
pub open spec fn count_char(s: Seq<char>, c: char) -> nat
    decreases s.len(),
{
    if s.len() == 0 {
        0
    } else {
        count_char(s.drop_last(), c) + (if s.last() == c {
            1nat
        } else {
            0nat
        })
    }
}

/// The pieces of `v` between occurrences of `sep`.
pub fn split_on_char(v: &Vec<char>, sep: char) -> (r: Vec<Vec<char>>)
    ensures
        r.deep_view() == split_on(v@, sep),
{
    let mut done: Vec<Vec<char>> = Vec::new();
    let mut cur: Vec<char> = Vec::new();
    let mut i: usize = 0;
    assert(done.deep_view().push(cur@) =~~= split_on(v@.subrange(0, 0), sep));
    while i < v.len()
        invariant
            i <= v@.len(),
            done.deep_view().push(cur@) == split_on(v@.subrange(0, i as int), sep),
        decreases v@.len() - i,
    {
        let ghost prev_done = done.deep_view();
        let ghost prev_cur = cur@;
        let ghost s_i = v@.subrange(0, i as int);
        let ghost s_i1 = v@.subrange(0, i as int + 1);
        proof {
            assert(s_i1.drop_last() =~= s_i);
            assert(s_i1.last() == v@[i as int]);
        }
        if v[i] == sep {
            done.push(cur);
            cur = Vec::new();
            proof {
                assert(done.deep_view() =~~= prev_done.push(prev_cur));
                assert(split_on(s_i1, sep) == split_on(s_i, sep).push(Seq::<char>::empty()));
                assert(done.deep_view().push(cur@) =~~= split_on(s_i1, sep));
            }
        } else {
            cur.push(v[i]);
            proof {
                let p = split_on(s_i, sep);
                assert(prev_done.push(prev_cur) == p);
                assert(prev_done =~~= p.drop_last());
                assert(prev_cur == p.last());
                assert(done.deep_view() =~~= prev_done);
                assert(cur@ == prev_cur.push(v@[i as int]));
                assert(split_on(s_i1, sep) == p.drop_last().push(p.last().push(v@[i as int])));
                assert(done.deep_view().push(cur@) =~~= split_on(s_i1, sep));
            }
        }
        i = i + 1;
    }
    assert(v@.subrange(0, v@.len() as int) =~= v@);
    let ghost prev_done = done.deep_view();
    let ghost prev_cur = cur@;
    done.push(cur);
    proof {
        assert(done.deep_view() =~~= prev_done.push(prev_cur));
    }
    done
}

/// The lines of `s`, as `str::lines` yields them for text without carriage
/// returns: pieces between newline characters, with a final empty piece (from
/// a trailing newline or an empty input) dropped.
pub open spec fn spec_lines(s: Seq<char>) -> Seq<Seq<char>> {
    let p = split_on(s, '\n');
    if p.last().len() == 0 {
        p.drop_last()
    } else {
        p
    }
}

/// The lines of `v`.
pub fn split_lines(v: &Vec<char>) -> (r: Vec<Vec<char>>)
    ensures
        r.deep_view() == spec_lines(v@),
{
    let mut r = split_on_char(v, '\n');
    let last_empty = r[r.len() - 1].len() == 0;
    assert(r.deep_view().last() == r.deep_view()[r.deep_view().len() - 1]);
    if last_empty {
        let _ = r.pop();
        assert(r.deep_view() =~= split_on(v@, '\n').drop_last());
    }
    r
}

/// The pieces of `ps` joined with the single character `sep` between them.
pub open spec fn join_with(ps: Seq<Seq<char>>, sep: char) -> Seq<char>
    decreases ps.len(),
{
    if ps.len() == 0 {
        Seq::empty()
    } else if ps.len() == 1 {
        ps.last()
    } else {
        join_with(ps.drop_last(), sep).push(sep) + ps.last()
    }
}

/// Joins `ps` with `sep`.
pub fn join_with_char(ps: &Vec<Vec<char>>, sep: char) -> (r: Vec<char>)
    ensures
        r@ == join_with(ps.deep_view(), sep),
{
    let mut r: Vec<char> = Vec::new();
    let mut i: usize = 0;
    while i < ps.len()
        invariant
            i <= ps@.len(),
            ps.deep_view().len() == ps@.len(),
            r@ == join_with(ps.deep_view().subrange(0, i as int), sep),
        decreases ps@.len() - i,
    {
        proof {
            let t = ps.deep_view().subrange(0, i as int + 1);
            assert(t.drop_last() =~= ps.deep_view().subrange(0, i as int));
            assert(t.last() == ps.deep_view()[i as int]);
        }
        if i > 0 {
            r.push(sep);
        }
        let piece = &ps[i];
        let mut j: usize = 0;
        let ghost base = r@;
        while j < piece.len()
            invariant
                j <= piece@.len(),
                r@ == base + piece@.subrange(0, j as int),
            decreases piece@.len() - j,
        {
            r.push(piece[j]);
            j = j + 1;
            assert(r@ =~= base + piece@.subrange(0, j as int));
        }
        assert(piece@.subrange(0, piece@.len() as int) =~= piece@);
        proof {
            assert(ps.deep_view()[i as int] == piece@);
        }
        i = i + 1;
        assert(r@ =~= join_with(ps.deep_view().subrange(0, i as int), sep));
    }
    assert(ps.deep_view().subrange(0, ps.deep_view().len() as int) =~= ps.deep_view());
    r
}

} // verus!
