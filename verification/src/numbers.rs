//! Decimal reading and writing of the numeric fields.
//!
//! The external tool reports line and column as decimal text; a segment that
//! is not a valid number stands for `0`. Going the other way, the depth limit
//! is written into its flag as decimal text.

use vstd::prelude::*;

use crate::text::str_chars;

verus! {

/// A decimal digit character.
pub open spec fn spec_is_digit(c: char) -> bool {
    48 <= c as int && c as int <= 57
}

/// The numeric value of a decimal digit character.
pub open spec fn spec_digit_val(c: char) -> int {
    c as int - 48
}

/// Every character of `s` is a decimal digit.
pub open spec fn spec_all_digits(s: Seq<char>) -> bool {
    forall|i: int| 0 <= i < s.len() ==> spec_is_digit(#[trigger] s[i])
}

/// The value of a digit string, most significant digit first.
pub open spec fn spec_digits_val(s: Seq<char>) -> int
    decreases s.len(),
{
    if s.len() == 0 {
        0
    } else {
        spec_digits_val(s.drop_last()) * 10 + spec_digit_val(s.last())
    }
}

/// The digit part of a numeric segment: a single leading `+` sign is allowed
/// and carries no value.
pub open spec fn spec_digits_of(s: Seq<char>) -> Seq<char> {
    if s.len() > 0 && s[0] == '+' {
        s.skip(1)
    } else {
        s
    }
}

/// What a numeric segment stands for: its decimal value when it is a
/// well-formed number that fits in a `u32`, and `0` otherwise.
pub open spec fn spec_parse_u32(s: Seq<char>) -> u32 {
    let d = spec_digits_of(s);
    if d.len() > 0 && spec_all_digits(d) && spec_digits_val(d) <= u32::MAX {
        spec_digits_val(d) as u32
    } else {
        0
    }
}

/// A digit string's value is never negative.
proof fn lemma_digits_val_nonneg(s: Seq<char>)
    requires
        spec_all_digits(s),
    ensures
        spec_digits_val(s) >= 0,
    decreases s.len(),
{
    if s.len() > 0 {
        assert(spec_all_digits(s.drop_last()));
        lemma_digits_val_nonneg(s.drop_last());
    }
}

/// Extending a digit string can only grow its value.
proof fn lemma_digits_val_prefix(s: Seq<char>, i: int)
    requires
        spec_all_digits(s),
        0 <= i <= s.len(),
    ensures
        spec_digits_val(s) >= spec_digits_val(s.take(i)),
    decreases s.len() - i,
{
    if i < s.len() {
        lemma_digits_val_nonneg(s.take(i));
        assert(s.take(i + 1).drop_last() =~= s.take(i));
        assert(s.take(i + 1).last() == s[i]);
        assert(spec_digits_val(s.take(i + 1)) >= spec_digits_val(s.take(i)));
        lemma_digits_val_prefix(s, i + 1);
        assert(s.take(s.len() as int) =~= s);
    } else {
        assert(s.take(i) =~= s);
    }
}

/// Reads a numeric segment as the external tool writes line and column
/// numbers: the decimal value when well formed, `0` on anything else,
/// including overflow.
pub fn parse_u32(s: &str) -> (n: u32)
    ensures
        n == spec_parse_u32(s@),
{
    let cs = str_chars(s);
    let len = cs.len();
    let mut i: usize = 0;
    if len > 0 && cs[0] == '+' {
        i = 1;
    }
    let ghost start = i as int;
    let ghost d = spec_digits_of(s@);
    proof {
        assert(d =~= s@.skip(start));
    }
    if i >= len {
        return 0;
    }
    let mut val: u64 = 0;
    while i < len
        invariant
            0 <= start <= i as int <= len,
            len == s@.len(),
            cs@ == s@,
            d == s@.skip(start),
            d == spec_digits_of(s@),
            spec_all_digits(d.take(i - start)),
            val == spec_digits_val(d.take(i - start)),
            val <= u32::MAX,
        decreases len - i,
    {
        let c = cs[i];
        if c < '0' || c > '9' {
            proof {
                assert(s@.skip(start)[i - start] == s@[i as int]);
                assert(!spec_is_digit(d[i - start]));
            }
            return 0;
        }
        let dv: u64 = (c as u32 - 48) as u64;
        let next: u64 = val * 10 + dv;
        proof {
            assert(d.take(i - start + 1).drop_last() =~= d.take(i - start));
            assert(d.take(i - start + 1).last() == d[i - start]);
            assert(s@.skip(start)[i - start] == s@[i as int]);
        }
        if next > 0xffff_ffff {
            proof {
                if spec_all_digits(d) {
                    lemma_digits_val_prefix(d, i - start + 1);
                }
            }
            return 0;
        }
        val = next;
        i = i + 1;
    }
    proof {
        assert(d.take(i - start) =~= d);
    }
    val as u32
}

/// The character that writes a single decimal digit.
pub open spec fn spec_digit_char(d: int) -> char {
    if d == 0 {
        '0'
    } else if d == 1 {
        '1'
    } else if d == 2 {
        '2'
    } else if d == 3 {
        '3'
    } else if d == 4 {
        '4'
    } else if d == 5 {
        '5'
    } else if d == 6 {
        '6'
    } else if d == 7 {
        '7'
    } else if d == 8 {
        '8'
    } else {
        '9'
    }
}

/// The decimal writing of a non-negative number, without sign or padding.
pub open spec fn spec_u32_string(n: int) -> Seq<char>
    decreases n,
{
    if n < 10 {
        seq![spec_digit_char(n)]
    } else {
        spec_u32_string(n / 10).push(spec_digit_char(n % 10))
    }
}

/// The one-character string for a single decimal digit.
fn digit_str(d: u32) -> (s: &'static str)
    requires
        d < 10,
    ensures
        s@ == seq![spec_digit_char(d as int)],
{
    proof {
        reveal_strlit("0");
        reveal_strlit("1");
        reveal_strlit("2");
        reveal_strlit("3");
        reveal_strlit("4");
        reveal_strlit("5");
        reveal_strlit("6");
        reveal_strlit("7");
        reveal_strlit("8");
        reveal_strlit("9");
    }
    if d == 0 {
        proof {
            assert("0"@ =~= seq![spec_digit_char(0)]);
        }
        "0"
    } else if d == 1 {
        proof {
            assert("1"@ =~= seq![spec_digit_char(1)]);
        }
        "1"
    } else if d == 2 {
        proof {
            assert("2"@ =~= seq![spec_digit_char(2)]);
        }
        "2"
    } else if d == 3 {
        proof {
            assert("3"@ =~= seq![spec_digit_char(3)]);
        }
        "3"
    } else if d == 4 {
        proof {
            assert("4"@ =~= seq![spec_digit_char(4)]);
        }
        "4"
    } else if d == 5 {
        proof {
            assert("5"@ =~= seq![spec_digit_char(5)]);
        }
        "5"
    } else if d == 6 {
        proof {
            assert("6"@ =~= seq![spec_digit_char(6)]);
        }
        "6"
    } else if d == 7 {
        proof {
            assert("7"@ =~= seq![spec_digit_char(7)]);
        }
        "7"
    } else if d == 8 {
        proof {
            assert("8"@ =~= seq![spec_digit_char(8)]);
        }
        "8"
    } else {
        proof {
            assert("9"@ =~= seq![spec_digit_char(9)]);
        }
        "9"
    }
}

/// Writes a number in decimal, as it is carried inside the depth flag.
pub fn format_u32(n: u32) -> (s: String)
    ensures
        s@ == spec_u32_string(n as int),
    decreases n,
{
    if n < 10 {
        String::from_str(digit_str(n))
    } else {
        let mut s = format_u32(n / 10);
        s.append(digit_str(n % 10));
        proof {
            assert(spec_u32_string((n / 10) as int).push(spec_digit_char(n as int % 10)) =~= s@);
        }
        s
    }
}

} // verus!
