//! Decimal integer parsing for the premium column of the rate matrix: an
//! optional sign, one or more digits, and a value that fits a 32-bit
//! signed integer.

use vstd::prelude::*;

verus! {

/// Whether a character is a decimal digit.
pub open spec fn is_digit(c: char) -> bool {
    48 <= c as int <= 57
}

/// The value of a decimal digit character.
pub open spec fn digit_val(c: char) -> int {
    c as int - 48
}

/// Whether every character of a sequence is a decimal digit.
pub open spec fn all_digits(s: Seq<char>) -> bool {
    forall|i: int| 0 <= i < s.len() ==> is_digit(s[i])
}

/// The value of a sequence of decimal digits, most significant first.
pub open spec fn dec_val(s: Seq<char>) -> int
    decreases s.len(),
{
    if s.len() == 0 {
        0
    } else {
        dec_val(s.drop_last()) * 10 + digit_val(s.last())
    }
}

/// The digits of an integer string: everything after a leading sign.
pub open spec fn digits_part(s: Seq<char>) -> Seq<char> {
    if s.len() > 0 && (s[0] == '+' || s[0] == '-') {
        s.subrange(1, s.len() as int)
    } else {
        s
    }
}

/// Whether an integer string denotes a negative value.
pub open spec fn is_negative(s: Seq<char>) -> bool {
    s.len() > 0 && s[0] == '-'
}

/// The signed value of an integer string.
pub open spec fn int_val(s: Seq<char>) -> int {
    if is_negative(s) {
        -dec_val(digits_part(s))
    } else {
        dec_val(digits_part(s))
    }
}

/// Whether a string is a well-formed decimal integer whose value fits a
/// 32-bit signed integer: an optional sign, then one or more digits.
pub open spec fn is_i32_string(s: Seq<char>) -> bool {
    &&& digits_part(s).len() > 0
    &&& all_digits(digits_part(s))
    &&& i32::MIN <= int_val(s) <= i32::MAX
}

/// A sequence of digits has a non-negative value.
proof fn lemma_dec_val_nonneg(s: Seq<char>)
    requires
        all_digits(s),
    ensures
        dec_val(s) >= 0,
    decreases s.len(),
{
    if s.len() > 0 {
        lemma_dec_val_nonneg(s.drop_last());
    }
}

/// Extending a digit sequence by further digits cannot shrink its value.
proof fn lemma_dec_val_extend_ge(s: Seq<char>, a: int, i: int, j: int)
    requires
        0 <= a <= i <= j <= s.len(),
        forall|k: int| a <= k < j ==> is_digit(s[k]),
    ensures
        dec_val(s.subrange(a, j)) >= dec_val(s.subrange(a, i)),
    decreases j - i,
{
    if i < j {
        lemma_dec_val_extend_ge(s, a, i, j - 1);
        let prev = s.subrange(a, j - 1);
        assert(s.subrange(a, j).drop_last() =~= prev);
        assert(forall|k: int| 0 <= k < prev.len() ==> is_digit(prev[k]));
        lemma_dec_val_nonneg(prev);
        assert(dec_val(s.subrange(a, j)) == dec_val(prev) * 10 + digit_val(s[j - 1]));
    }
}

/// Parses a decimal integer: an optional sign followed by one or more
/// digits, rejecting any other shape and any value outside the 32-bit
/// signed range.
pub fn parse_i32(s: &str) -> (r: Option<i32>)
    ensures
        match r {
            Some(v) => is_i32_string(s@) && v as int == int_val(s@),
            None => !is_i32_string(s@),
        },
{
    let n = s.unicode_len();
    if n == 0 {
        return None;
    }
    let c0 = s.get_char(0);
    let neg = c0 == '-';
    let start: usize = if neg || c0 == '+' {
        1
    } else {
        0
    };
    if start == n {
        return None;
    }
    let mut i = start;
    let mut acc: u64 = 0;
    while i < n
        invariant
            start <= i <= n,
            start <= 1,
            1 <= n == s@.len(),
            start == 1 ==> (s@[0] == '+' || s@[0] == '-'),
            start == 0 ==> !(s@[0] == '+' || s@[0] == '-'),
            forall|k: int| start <= k < i ==> is_digit(s@[k]),
            acc == dec_val(s@.subrange(start as int, i as int)),
            acc <= 0x8000_0000,
        decreases n - i,
    {
        let c = s.get_char(i);
        let d = c as u32;
        if d < 48 || d > 57 {
            proof {
                assert(digits_part(s@) =~= s@.subrange(start as int, n as int));
                assert(!is_digit(digits_part(s@)[i - start]));
            }
            return None;
        }
        acc = acc * 10 + (d - 48) as u64;
        proof {
            assert(s@.subrange(start as int, i + 1).drop_last() =~= s@.subrange(
                start as int,
                i as int,
            ));
        }
        i = i + 1;
        if acc > 0x8000_0000 {
            proof {
                assert(digits_part(s@) =~= s@.subrange(start as int, n as int));
                if all_digits(digits_part(s@)) {
                    assert forall|k: int| start <= k < n implies is_digit(s@[k]) by {
                        assert(s@[k] == digits_part(s@)[k - start]);
                    }
                    lemma_dec_val_extend_ge(s@, start as int, i as int, n as int);
                }
            }
            return None;
        }
    }
    proof {
        assert(s@.subrange(start as int, n as int) =~= digits_part(s@));
    }
    if neg {
        if acc == 0x8000_0000 {
            Some(i32::MIN)
        } else {
            Some(0i32 - (acc as i32))
        }
    } else {
        if acc > 0x7FFF_FFFF {
            return None;
        }
        Some(acc as i32)
    }
}

} // verus!
