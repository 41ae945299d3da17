//! Splitting the external tool's output text.
//!
//! Each match is reported on its own line as colon-delimited segments, so the
//! parser needs two cuts: the output into lines, and a line into at most a
//! fixed number of colon-separated parts, the last part keeping any further
//! colons.

use vstd::prelude::*;

use crate::text::range_to_string;

verus! {

/// The position of the first `sep` at or after `from`, or the length of `s`
/// when there is none.
pub open spec fn spec_find(s: Seq<char>, sep: char, from: int) -> int
    decreases s.len() - from,
{
    if from < 0 || from >= s.len() {
        s.len() as int
    } else if s[from] == sep {
        from
    } else {
        spec_find(s, sep, from + 1)
    }
}

/// Where the first separator is found: within bounds, on a separator unless
/// the end was reached, and past nothing but other characters.
pub proof fn lemma_find_bounds(s: Seq<char>, sep: char, from: int)
    requires
        0 <= from <= s.len(),
    ensures
        from <= spec_find(s, sep, from) <= s.len(),
        spec_find(s, sep, from) < s.len() ==> s[spec_find(s, sep, from)] == sep,
        forall|k: int| from <= k < spec_find(s, sep, from) ==> s[k] != sep,
    decreases s.len() - from,
{
    if from < s.len() && s[from] != sep {
        lemma_find_bounds(s, sep, from + 1);
    }
}

/// Finds the first `sep` in `cs` at or after `from` and before `end`, given
/// as its absolute position; `end` when there is none. The position is the
/// first separator of the subrange `[from, end)` of `cs`.
pub fn find_in_range(cs: &Vec<char>, sep: char, from: usize, end: usize) -> (j: usize)
    requires
        from <= end <= cs@.len(),
    ensures
        from <= j <= end,
        j - from == spec_find(cs@.subrange(from as int, end as int), sep, 0),
        j < end ==> cs@[j as int] == sep,
{
    let ghost seg = cs@.subrange(from as int, end as int);
    let mut i = from;
    while i < end
        invariant
            from <= i <= end <= cs@.len(),
            seg == cs@.subrange(from as int, end as int),
            spec_find(seg, sep, 0) == spec_find(seg, sep, i - from),
        decreases end - i,
    {
        proof {
            assert(seg[i - from] == cs@[i as int]);
        }
        if cs[i] == sep {
            return i;
        }
        i = i + 1;
    }
    i
}

/// Splits `s` on `sep` into at most `n` parts, the last part keeping the rest
/// of the string unsplit.
pub open spec fn spec_splitn(s: Seq<char>, sep: char, n: nat) -> Seq<Seq<char>>
    decreases n,
{
    if n == 0 {
        Seq::empty()
    } else {
        let j = spec_find(s, sep, 0);
        if n == 1 || j == s.len() {
            seq![s]
        } else {
            seq![s.take(j)] + spec_splitn(s.skip(j + 1), sep, (n - 1) as nat)
        }
    }
}

/// Splits the subrange `[start, end)` of `cs` on `sep` into at most `n`
/// parts.
pub fn splitn_range(cs: &Vec<char>, sep: char, start: usize, end: usize, n: usize) -> (parts: Vec<
    String,
>)
    requires
        start <= end <= cs@.len(),
    ensures
        parts.deep_view() == spec_splitn(cs@.subrange(start as int, end as int), sep, n as nat),
        parts@.len() <= n,
    decreases n,
{
    let ghost seg = cs@.subrange(start as int, end as int);
    let mut parts: Vec<String> = Vec::new();
    if n == 0 {
        proof {
            assert(parts.deep_view() =~= spec_splitn(seg, sep, 0));
        }
        return parts;
    }
    let j = find_in_range(cs, sep, start, end);
    if n == 1 || j == end {
        parts.push(range_to_string(cs, start, end));
        proof {
            assert(parts.deep_view() =~= spec_splitn(seg, sep, n as nat));
        }
        parts
    } else {
        let head = range_to_string(cs, start, j);
        let mut rest = splitn_range(cs, sep, j + 1, end, n - 1);
        parts.push(head);
        parts.append(&mut rest);
        proof {
            assert(seg.take(j - start) =~= cs@.subrange(start as int, j as int));
            assert(seg.skip(j - start + 1) =~= cs@.subrange(j + 1, end as int));
            assert(parts.deep_view() =~= spec_splitn(seg, sep, n as nat));
        }
        parts
    }
}

/// Strips one trailing carriage return, as the line cut does at the end of a
/// line.
pub open spec fn spec_strip_cr(s: Seq<char>) -> Seq<char> {
    if s.len() > 0 && s.last() == '\r' {
        s.drop_last()
    } else {
        s
    }
}

/// The lines of `s`: cut at every newline, a trailing carriage return removed
/// from each line, and no empty line after a final newline.
pub open spec fn spec_lines(s: Seq<char>) -> Seq<Seq<char>>
    decreases s.len(),
    via spec_lines_decreases
{
    if s.len() == 0 {
        Seq::empty()
    } else {
        let j = spec_find(s, '\n', 0);
        if j == s.len() {
            seq![spec_strip_cr(s)]
        } else {
            seq![spec_strip_cr(s.take(j))] + spec_lines(s.skip(j + 1))
        }
    }
}

#[via_fn]
proof fn spec_lines_decreases(s: Seq<char>) {
    if s.len() > 0 {
        lemma_find_bounds(s, '\n', 0);
    }
}

} // verus!
