//! Validation of the baud-rate argument.
//!
//! A baud rate is given on the command line as text and must be a positive
//! decimal integer that fits in a `u32`: an optional leading `+`, then one or
//! more decimal digits whose value is at least 1 and at most `u32::MAX`.

use vstd::prelude::*;
use vstd::string::StringExecFns;

verus! {

/// `c` is a decimal digit `'0'..='9'`.
pub open spec fn is_dec_digit(c: char) -> bool {
    48 <= c as int && c as int <= 57
}

/// The numeric value of the digit `c`.
pub open spec fn digit_val(c: char) -> int {
    c as int - 48
}

/// Every character of `s` is a decimal digit.
pub open spec fn all_dec_digits(s: Seq<char>) -> bool {
    forall|i: int| 0 <= i < s.len() ==> is_dec_digit(s[i])
}

/// The value of the digit string `s` read in base 10.
pub open spec fn dec_value(s: Seq<char>) -> int
    recommends
        all_dec_digits(s),
    decreases s.len(),
{
    if s.len() == 0 {
        0
    } else {
        dec_value(s.drop_last()) * 10 + digit_val(s.last())
    }
}

/// The digit part of a number written in text: everything after an optional
/// leading `+` sign.
pub open spec fn digits_of(s: Seq<char>) -> Seq<char> {
    if s.len() > 0 && s[0] == '+' {
        s.drop_first()
    } else {
        s
    }
}

/// `s` is a valid `u32` written in decimal: an optional leading `+`, then at
/// least one digit, and a value of at most `u32::MAX`.
pub open spec fn is_valid_u32(s: Seq<char>) -> bool {
    let d = digits_of(s);
    &&& d.len() > 0
    &&& all_dec_digits(d)
    &&& dec_value(d) <= u32::MAX
}

/// A digit string is never negative.
proof fn lemma_dec_value_nonneg(d: Seq<char>)
    requires
        all_dec_digits(d),
    ensures
        dec_value(d) >= 0,
    decreases d.len(),
{
    if d.len() > 0 {
        assert forall|i: int| 0 <= i < d.drop_last().len()
            implies is_dec_digit(d.drop_last()[i]) by {
            assert(d.drop_last()[i] == d[i]);
        }
        lemma_dec_value_nonneg(d.drop_last());
    }
}

/// Reading more digits never shrinks the value: the whole digit string is
/// worth at least any of its prefixes.
proof fn lemma_dec_value_prefix(d: Seq<char>, j: int)
    requires
        all_dec_digits(d),
        0 <= j <= d.len(),
    ensures
        dec_value(d) >= dec_value(d.take(j)),
    decreases d.len(),
{
    if j == d.len() {
        assert(d.take(j) =~= d);
    } else {
        assert forall|i: int| 0 <= i < d.drop_last().len()
            implies is_dec_digit(d.drop_last()[i]) by {
            assert(d.drop_last()[i] == d[i]);
        }
        assert(d.drop_last().take(j) =~= d.take(j));
        lemma_dec_value_prefix(d.drop_last(), j);
        lemma_dec_value_nonneg(d.drop_last());
    }
}

/// Parse an unsigned 32-bit decimal integer: an optional leading `+`, then
/// one or more digits, rejected when empty, when any character is not a
/// digit, or when the value exceeds `u32::MAX`.
pub fn parse_u32(s: &str) -> (r: Option<u32>)
    ensures
        r is Some <==> is_valid_u32(s@),
        r matches Some(n) ==> n as int == dec_value(digits_of(s@)),
{
    let len = s.unicode_len();
    let start: usize = if len > 0 && s.get_char(0) == '+' {
        1
    } else {
        0
    };
    let ghost d = digits_of(s@);
    proof {
        assert(d.len() == len - start);
        assert(forall|j: int| 0 <= j < d.len() ==> d[j] == s@[j + start as int]);
    }
    if start == len {
        return None;
    }
    let mut acc: u32 = 0;
    let mut i: usize = start;
    while i < len
        invariant
            start <= i <= len,
            len == s@.len(),
            d == digits_of(s@),
            d.len() == len - start,
            forall|j: int| 0 <= j < d.len() ==> d[j] == s@[j + start as int],
            all_dec_digits(d.take(i - start)),
            acc as int == dec_value(d.take(i - start)),
        decreases len - i,
    {
        let c = s.get_char(i);
        let cu = c as u32;
        if cu < 48 || cu > 57 {
            proof {
                assert(d[i - start] == c);
                assert(!is_dec_digit(d[i - start]));
            }
            return None;
        }
        let digit: u32 = cu - 48;
        let ghost k = i - start;
        proof {
            assert(d.take(k + 1).drop_last() =~= d.take(k));
            assert(d.take(k + 1).last() == d[k]);
            assert(d[k] == c);
        }
        let widened = match acc.checked_mul(10) {
            Some(w) => w.checked_add(digit),
            None => None,
        };
        match widened {
            Some(next) => {
                acc = next;
            },
            None => {
                proof {
                    if all_dec_digits(d) {
                        lemma_dec_value_prefix(d, k + 1);
                    }
                }
                return None;
            },
        }
        proof {
            assert forall|j: int| 0 <= j < d.take(k + 1).len()
                implies is_dec_digit(#[trigger] d.take(k + 1)[j]) by {
                if j < k {
                    assert(d.take(k + 1)[j] == d.take(k)[j]);
                }
            }
        }
        i = i + 1;
    }
    proof {
        assert(d.take(i - start) =~= d);
    }
    Some(acc)
}

/// `s` is a valid baud rate: a positive integer written in decimal that fits
/// in a `u32`.
pub open spec fn is_valid_baud(s: Seq<char>) -> bool {
    &&& is_valid_u32(s)
    &&& dec_value(digits_of(s)) >= 1
}

/// Check a baud-rate argument. Accepts exactly the text forms of a positive
/// decimal integer that fits in a `u32`; everything else — zero included —
/// is rejected with a message citing the offending text.
pub fn valid_baud(val: &str) -> (r: Result<(), String>)
    ensures
        r is Ok <==> is_valid_baud(val@),
        r matches Err(m) ==> m@ == "Invalid baud rate '"@ + val@ + "' specified"@,
{
    match parse_u32(val) {
        Some(rate) if rate >= 1 => Ok(()),
        _ => {
            let mut msg: String = "Invalid baud rate '".to_owned();
            msg.append(val);
            msg.append("' specified");
            proof {
                assert(msg@ =~= "Invalid baud rate '"@ + val@ + "' specified"@);
            }
            Err(msg)
        },
    }
}

} // verus!
