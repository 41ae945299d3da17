//! Moving between strings and character buffers.
//!
//! The decoders index into the output text character by character, so the
//! captured text is read into a `Vec<char>` once, worked on by position, and
//! the pieces that end up in records are written back into `String`s.

use vstd::prelude::*;

verus! {

/// Reads a string into its characters, in order.
pub fn str_chars(s: &str) -> (v: Vec<char>)
    ensures
        v@ == s@,
{
    broadcast use vstd::string::group_string_axioms;

    let mut v: Vec<char> = Vec::new();
    for c in it: s.chars()
        invariant
            v@ =~= it.seq().take(it.index() as int),
            it.seq() == s@,
    {
        v.push(c);
    }
    proof {
        assert(v@ =~= s@);
    }
    v
}

/// Relies on `String::push`: appends the given character to the end of the
/// string.
#[verifier::external_body]
fn push_char(s: &mut String, c: char)
    ensures
        final(s)@ == old(s)@.push(c),
{
    s.push(c);
}

/// Writes the characters of `cs` between `start` and `end` into a string.
pub fn range_to_string(cs: &Vec<char>, start: usize, end: usize) -> (s: String)
    requires
        start <= end <= cs@.len(),
    ensures
        s@ == cs@.subrange(start as int, end as int),
{
    let mut s = String::new();
    let mut i = start;
    proof {
        assert(s@ =~= cs@.subrange(start as int, start as int));
    }
    while i < end
        invariant
            start <= i <= end <= cs@.len(),
            s@ == cs@.subrange(start as int, i as int),
        decreases end - i,
    {
        push_char(&mut s, cs[i]);
        proof {
            assert(cs@.subrange(start as int, i + 1).drop_last() =~= cs@.subrange(
                start as int,
                i as int,
            ));
            assert(cs@.subrange(start as int, i + 1).last() == cs@[i as int]);
            assert(s@ =~= cs@.subrange(start as int, i + 1));
        }
        i = i + 1;
    }
    s
}

} // verus!
