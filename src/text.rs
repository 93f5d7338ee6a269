//! Plain text helpers over character sequences: trimming white space and
//! splitting at a separator, with their models.

use vstd::prelude::*;
use crate::message::is_white_space;

verus! {

/// `s` without its leading white space.
pub open spec fn trim_start(s: Seq<char>) -> Seq<char>
    decreases s.len(),
{
    if s.len() > 0 && is_white_space(s[0]) {
        trim_start(s.drop_first())
    } else {
        s
    }
}

/// `s` without its trailing white space.
pub open spec fn trim_end(s: Seq<char>) -> Seq<char>
    decreases s.len(),
{
    if s.len() > 0 && is_white_space(s.last()) {
        trim_end(s.drop_last())
    } else {
        s
    }
}

/// `s` without white space at either end.
pub open spec fn trim(s: Seq<char>) -> Seq<char> {
    trim_end(trim_start(s))
}

/// How far from `from` the next `sep` is (to the end of `s` when none
/// follows).
pub open spec fn sep_offset(s: Seq<char>, from: int, sep: char) -> nat
    decreases s.len() - from,
{
    if from >= s.len() || s[from] == sep {
        0
    } else {
        1 + sep_offset(s, from + 1, sep)
    }
}

/// The pieces of `s` from `from` on, cut at each `sep`.
pub open spec fn pieces_from(s: Seq<char>, from: int, sep: char) -> Seq<Seq<char>>
    decreases s.len() - from,
{
    let e = from + sep_offset(s, from, sep);
    if e >= s.len() {
        seq![s.subrange(from, s.len() as int)]
    } else {
        seq![s.subrange(from, e)] + pieces_from(s, e + 1, sep)
    }
}

/// The pieces of `s` cut at each `sep`: one more than there are separators.
pub open spec fn split(s: Seq<char>, sep: char) -> Seq<Seq<char>> {
    pieces_from(s, 0, sep)
}

/// The characters of a string.
pub fn chars_of(s: &str) -> (r: Vec<char>)
    ensures
        r@ == s@,
{
    let mut out: Vec<char> = Vec::new();
    for c in it: s.chars()
        invariant
            it.seq() == s@,
            out@ == s@.take(it.index() as int),
    {
        out.push(c);
        proof {
            assert(out@ =~= s@.take(it.index() + 1));
        }
    }
    proof {
        assert(s@.take(s@.len() as int) =~= s@);
    }
    out
}

/// The bounds of `cs[start..end]` once white space is trimmed from both ends.
pub fn trim_bounds(cs: &Vec<char>, start: usize, end: usize) -> (r: (usize, usize))
    requires
        start <= end <= cs@.len(),
    ensures
        start <= r.0 <= r.1 <= end,
        cs@.subrange(r.0 as int, r.1 as int) == trim(cs@.subrange(start as int, end as int)),
{
    let ghost s = cs@;
    let mut i = start;
    while i < end && crate::message::white_space(cs[i])
        invariant
            start <= i <= end <= s.len(),
            s == cs@,
            trim_start(s.subrange(start as int, end as int)) == trim_start(
                s.subrange(i as int, end as int),
            ),
        decreases end - i,
    {
        proof {
            assert(s.subrange(i as int, end as int).drop_first() =~= s.subrange(i + 1, end as int));
        }
        i = i + 1;
    }
    let mut j = end;
    while j > i && crate::message::white_space(cs[j - 1])
        invariant
            start <= i <= j <= end <= s.len(),
            s == cs@,
            trim_start(s.subrange(start as int, end as int)) == s.subrange(i as int, end as int),
            trim(s.subrange(start as int, end as int)) == trim_end(s.subrange(i as int, j as int)),
        decreases j - i,
    {
        proof {
            assert(s.subrange(i as int, j as int).drop_last() =~= s.subrange(i as int, j - 1));
        }
        j = j - 1;
    }
    (i, j)
}

/// One more element of a prefix, filtered.
pub proof fn lemma_filter_take_step<A>(s: Seq<A>, p: spec_fn(A) -> bool, i: int)
    requires
        0 <= i < s.len(),
    ensures
        s.take(i + 1).filter(p) == (if p(s[i]) {
            s.take(i).filter(p).push(s[i])
        } else {
            s.take(i).filter(p)
        }),
{
    reveal(Seq::filter);
    assert(s.take(i + 1).drop_last() =~= s.take(i));
}

/// The text of each range of `s`.
pub open spec fn range_texts(s: Seq<char>, ranges: Seq<(usize, usize)>) -> Seq<Seq<char>> {
    ranges.map_values(|r: (usize, usize)| s.subrange(r.0 as int, r.1 as int))
}

/// The next separator after `from` stands at `k`.
pub(crate) proof fn lemma_sep_offset(s: Seq<char>, from: int, k: int, sep: char)
    requires
        0 <= from <= k <= s.len(),
        forall|j: int| from <= j < k ==> s[j] != sep,
        k == s.len() || s[k] == sep,
    ensures
        from + sep_offset(s, from, sep) == k,
    decreases k - from,
{
    if from < k {
        lemma_sep_offset(s, from + 1, k, sep);
    }
}

/// The ranges of the pieces of `cs` cut at each `sep`.
pub fn piece_ranges(cs: &Vec<char>, sep: char) -> (r: Vec<(usize, usize)>)
    ensures
        range_texts(cs@, r@) == split(cs@, sep),
        forall|i: int| 0 <= i < r@.len() ==> (#[trigger] r@[i]).0 <= r@[i].1 <= cs@.len(),
{
    let ghost s = cs@;
    let mut out: Vec<(usize, usize)> = Vec::new();
    let mut start: usize = 0;
    let mut k: usize = 0;
    while k < cs.len()
        invariant
            start <= k <= cs@.len(),
            s == cs@,
            forall|j: int| start <= j < k ==> s[j] != sep,
            split(s, sep) == range_texts(s, out@) + pieces_from(s, start as int, sep),
            forall|i: int| 0 <= i < out@.len() ==> (#[trigger] out@[i]).0 <= out@[i].1 < start,
        decreases cs.len() - k,
    {
        if cs[k] == sep {
            proof {
                lemma_sep_offset(s, start as int, k as int, sep);
                assert(range_texts(s, out@.push((start, k))) =~= range_texts(s, out@).push(
                    s.subrange(start as int, k as int),
                ));
                assert(range_texts(s, out@) + pieces_from(s, start as int, sep) =~= range_texts(
                    s,
                    out@.push((start, k)),
                ) + pieces_from(s, k + 1, sep));
            }
            out.push((start, k));
            start = k + 1;
        }
        k = k + 1;
    }
    proof {
        lemma_sep_offset(s, start as int, k as int, sep);
        assert(range_texts(s, out@.push((start, k))) =~= range_texts(s, out@) + pieces_from(
            s,
            start as int,
            sep,
        ));
    }
    let ghost prev = out@;
    out.push((start, k));
    assert forall|i: int| 0 <= i < out@.len() implies (#[trigger] out@[i]).0 <= out@[i].1 <= cs@.len() by {
        if i < prev.len() {
            assert(out@[i] == prev[i]);
        }
    }
    out
}

} // verus!
