//! Decimal integer fields.

use vstd::prelude::*;

verus! {

/// ASCII decimal digit.
pub open spec fn is_digit(b: u8) -> bool {
    48 <= b && b <= 57
}

/// The numeric value of one ASCII digit.
pub open spec fn digit_value(b: u8) -> int {
    b - 48
}

/// Every byte of `s` is an ASCII digit.
pub open spec fn all_digits(s: Seq<u8>) -> bool {
    forall|i: int| 0 <= i < s.len() ==> is_digit(#[trigger] s[i])
}

/// The non-negative integer a digit string denotes, most significant
/// digit first.
pub open spec fn digits_value(s: Seq<u8>) -> int
    decreases s.len(),
{
    if s.len() == 0 {
        0
    } else {
        digits_value(s.drop_last()) * 10 + digit_value(s.last())
    }
}

/// The digits of `s` after an optional single leading `+` or `-`.
pub open spec fn magnitude_digits(s: Seq<u8>) -> Seq<u8> {
    if s.len() > 0 && (s[0] == 43 || s[0] == 45) {
        s.subrange(1, s.len() as int)
    } else {
        s
    }
}

/// `s` starts with a `-` sign.
pub open spec fn has_minus_sign(s: Seq<u8>) -> bool {
    s.len() > 0 && s[0] == 45
}

/// The `i32` a decimal field denotes: an optional single `+` or `-`
/// sign followed by one or more ASCII digits, with the signed value in
/// `i32` range; anything else denotes nothing.
pub open spec fn parsed_i32(s: Seq<u8>) -> Option<i32> {
    let mag = magnitude_digits(s);
    if mag.len() > 0 && all_digits(mag) {
        if has_minus_sign(s) {
            if digits_value(mag) <= 0x8000_0000 {
                Some((-digits_value(mag)) as i32)
            } else {
                None
            }
        } else {
            if digits_value(mag) <= 0x7fff_ffff {
                Some(digits_value(mag) as i32)
            } else {
                None
            }
        }
    } else {
        None
    }
}

/// Appending a digit multiplies the value by ten and adds the digit.
proof fn lemma_digits_value_push(s: Seq<u8>, b: u8)
    ensures
        digits_value(s.push(b)) == digits_value(s) * 10 + digit_value(b),
{
    assert(s.push(b).drop_last() =~= s);
    assert(s.push(b).last() == b);
}

/// Parse a decimal integer field, exactly as `parsed_i32` describes.
pub fn parse_i32(s: &[u8]) -> (r: Option<i32>)
    ensures
        r == parsed_i32(s@),
{
    let n = s.len();
    if n == 0 {
        return None;
    }
    let first = s[0];
    let neg = first == 45;
    let start: usize = if first == 45 || first == 43 {
        1
    } else {
        0
    };
    let ghost mag = magnitude_digits(s@);
    proof {
        assert(mag =~= s@.subrange(start as int, n as int));
    }
    if start == n {
        return None;
    }
    let mut i: usize = start;
    let mut acc: u64 = 0;
    let mut overflow = false;
    while i < n
        invariant
            start <= i <= n,
            n == s@.len(),
            mag == magnitude_digits(s@),
            mag == s@.subrange(start as int, n as int),
            forall|j: int| 0 <= j < i - start ==> is_digit(#[trigger] mag[j]),
            !overflow ==> acc == digits_value(mag.take(i - start)) && acc <= 0x8000_0000,
            overflow ==> digits_value(mag.take(i - start)) > 0x8000_0000,
        decreases n - i,
    {
        let b = s[i];
        if b < 48 || b > 57 {
            proof {
                assert(mag[i - start] == b);
                assert(!all_digits(mag));
            }
            return None;
        }
        proof {
            assert(mag.take(i + 1 - start) =~= mag.take(i - start).push(mag[i - start]));
            lemma_digits_value_push(mag.take(i - start), b);
        }
        if !overflow {
            let next: u64 = acc * 10 + ((b - 48) as u64);
            if next > 0x8000_0000 {
                overflow = true;
            } else {
                acc = next;
            }
        } else {
            proof {
                assert(digit_value(mag[i - start]) >= 0);
            }
        }
        i += 1;
    }
    proof {
        assert(mag.take(n - start) =~= mag);
        assert(all_digits(mag));
    }
    if overflow {
        return None;
    }
    if neg {
        Some((-(acc as i64)) as i32)
    } else {
        if acc > 0x7fff_ffff {
            None
        } else {
            Some(acc as i32)
        }
    }
}

} // verus!
