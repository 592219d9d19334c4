//! A verified reader of signed decimal integers, as the `exit` builtin
//! needs it: an optional sign followed by one or more digits, nothing
//! else, value within the 32-bit signed range.

use vstd::prelude::*;
use vstd::string::*;

verus! {

/// Whether `c` is a decimal digit.
pub open spec fn is_digit(c: char) -> bool {
    48 <= c as u32 <= 57
}

/// The value of the digit `c`.
pub open spec fn digit_value(c: char) -> int {
    c as u32 - 48
}

/// Whether every character of `s` is a decimal digit.
pub open spec fn all_digits(s: Seq<char>) -> bool {
    forall|k: int| 0 <= k < s.len() ==> is_digit(#[trigger] s[k])
}

/// The value of a digit string read in base ten.
pub open spec fn digits_value(s: Seq<char>) -> int
    decreases s.len(),
{
    if s.len() == 0 {
        0
    } else {
        digits_value(s.drop_last()) * 10 + digit_value(s.last())
    }
}

/// Whether `s` is a decimal integer literal: an optional `+` or `-`
/// sign followed by at least one digit, and nothing but digits.
pub open spec fn is_int_literal(s: Seq<char>) -> bool {
    if s.len() == 0 {
        false
    } else if s[0] == '+' || s[0] == '-' {
        s.len() >= 2 && all_digits(s.drop_first())
    } else {
        all_digits(s)
    }
}

/// The value of a decimal integer literal.
pub open spec fn int_literal_value(s: Seq<char>) -> int {
    if s.len() > 0 && s[0] == '-' {
        -digits_value(s.drop_first())
    } else if s.len() > 0 && s[0] == '+' {
        digits_value(s.drop_first())
    } else {
        digits_value(s)
    }
}

/// Read `s` as a 32-bit signed integer.  The result is `Some` exactly
/// when `s` is a decimal integer literal whose value fits the type.
pub fn parse_i32(s: &str) -> (r: Option<i32>)
    ensures
        (is_int_literal(s@) && i32::MIN <= int_literal_value(s@) <= i32::MAX) ==> r == Some(
            int_literal_value(s@) as i32,
        ),
        (is_int_literal(s@) && i32::MIN <= int_literal_value(s@) <= i32::MAX) || r is None,
{
    let len: usize = s.unicode_len();
    if len == 0 {
        return None;
    }
    let first = s.get_char(0);
    let neg = first == '-';
    let has_sign = neg || first == '+';
    let start: usize = if has_sign {
        1
    } else {
        0
    };
    if start == len {
        return None;
    }
    let limit: u64 = if neg {
        2147483648
    } else {
        2147483647
    };
    let mut acc: u64 = 0;
    let mut overflow = false;
    let mut i: usize = start;
    proof {
        assert(s@.subrange(start as int, start as int) =~= Seq::<char>::empty());
    }
    while i < len
        invariant
            len == s@.len(),
            start <= i <= len,
            start < len,
            start == if has_sign {
                1int
            } else {
                0int
            },
            neg ==> has_sign,
            has_sign ==> (s@[0] == '+' || s@[0] == '-'),
            neg <==> (s@.len() > 0 && s@[0] == '-'),
            !has_sign ==> !(s@[0] == '+' || s@[0] == '-'),
            limit == if neg {
                2147483648u64
            } else {
                2147483647u64
            },
            all_digits(s@.subrange(start as int, i as int)),
            !overflow ==> acc == digits_value(s@.subrange(start as int, i as int)) && acc <= limit,
            overflow ==> digits_value(s@.subrange(start as int, i as int)) > limit,
        decreases len - i,
    {
        let c = s.get_char(i);
        let cu = c as u32;
        if cu < 48 || cu > 57 {
            proof {
                if has_sign {
                    assert(s@.drop_first()[i as int - 1] == s@[i as int]);
                    assert(!all_digits(s@.drop_first()));
                } else {
                    assert(!all_digits(s@));
                }
            }
            return None;
        }
        let ghost part = s@.subrange(start as int, i as int);
        let ghost part1 = s@.subrange(start as int, i as int + 1);
        proof {
            assert(part1.drop_last() =~= part);
            assert(part1.last() == s@[i as int]);
            assert(digits_value(part1) == digits_value(part) * 10 + digit_value(s@[i as int]));
            assert forall|k: int| 0 <= k < part1.len() implies is_digit(#[trigger] part1[k]) by {
                if k < part.len() {
                    assert(part1[k] == part[k]);
                } else {
                    assert(part1[k] == s@[i as int]);
                }
            }
        }
        if !overflow {
            let d: u64 = (cu - 48) as u64;
            acc = acc * 10 + d;
            if acc > limit {
                overflow = true;
            }
        }
        i = i + 1;
    }
    proof {
        if has_sign {
            assert(s@.drop_first() =~= s@.subrange(start as int, len as int));
        } else {
            assert(s@ =~= s@.subrange(start as int, len as int));
        }
        assert(is_int_literal(s@));
    }
    if overflow {
        return None;
    }
    if neg {
        proof {
            assert(int_literal_value(s@) == -(acc as int));
        }
        Some((-(acc as i64)) as i32)
    } else {
        proof {
            assert(int_literal_value(s@) == acc as int);
        }
        Some(acc as i32)
    }
}

} // verus!
