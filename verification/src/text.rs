//! Verified helpers on strings: equality, the percentage suffix of a size
//! string, and parsing a size string as a signed cell count.

use vstd::prelude::*;

verus! {

/// Character-wise string equality.
pub fn str_eq(a: &str, b: &str) -> (r: bool)
    ensures
        r == (a@ == b@),
{
    let an = a.unicode_len();
    let bn = b.unicode_len();
    if an != bn {
        return false;
    }
    let mut i: usize = 0;
    while i < an
        invariant
            i <= an,
            an == a@.len(),
            bn == b@.len(),
            an == bn,
            forall|k: int| 0 <= k < i ==> a@[k] == b@[k],
        decreases an - i,
    {
        let ca = a.get_char(i);
        let cb = b.get_char(i);
        if ca != cb {
            return false;
        }
        i = i + 1;
    }
    proof {
        assert(a@ =~= b@);
    }
    true
}

/// Whether a size string is a percentage: it ends with `%`.
pub open spec fn ends_with_percent(s: Seq<char>) -> bool {
    s.len() > 0 && s.last() == '%'
}

/// The size string with every trailing `%` removed.
pub open spec fn strip_percents(s: Seq<char>) -> Seq<char>
    decreases s.len(),
{
    if s.len() > 0 && s.last() == '%' {
        strip_percents(s.drop_last())
    } else {
        s
    }
}

/// Whether the string ends with `%`.
pub fn has_percent_suffix(s: &str) -> (r: bool)
    ensures
        r == ends_with_percent(s@),
{
    let n = s.unicode_len();
    if n == 0 {
        return false;
    }
    let c = s.get_char(n - 1);
    c == '%'
}

/// Returns the string with every trailing `%` removed.
pub fn strip_trailing_percent_marks(s: &str) -> (r: String)
    ensures
        r@ == strip_percents(s@),
{
    let n = s.unicode_len();
    let mut j: usize = n;
    proof {
        assert(s@.subrange(0, n as int) =~= s@);
    }
    loop
        invariant
            j <= n,
            n == s@.len(),
            strip_percents(s@.subrange(0, j as int)) == strip_percents(s@),
        ensures
            j <= n,
            n == s@.len(),
            strip_percents(s@.subrange(0, j as int)) == strip_percents(s@),
            j == 0 || s@[j - 1] != '%',
        decreases j,
    {
        if j == 0 {
            break;
        }
        let c = s.get_char(j - 1);
        if c != '%' {
            break;
        }
        proof {
            let pre = s@.subrange(0, j as int);
            assert(pre.last() == s@[j - 1]);
            assert(pre.drop_last() =~= s@.subrange(0, j - 1));
        }
        j = j - 1;
    }
    let cut = s.substring_char(0, j);
    let r = cut.to_owned();
    proof {
        let pre = s@.subrange(0, j as int);
        if j > 0 {
            assert(pre.last() == s@[j - 1]);
        }
        assert(strip_percents(pre) == pre);
    }
    r
}

/// Whether the character is a decimal digit `0`..`9`.
pub open spec fn is_dec_digit(c: char) -> bool {
    48 <= c as u32 <= 57
}

/// The numeric value of a decimal digit.
pub open spec fn digit_val(c: char) -> int {
    c as u32 - 48
}

/// Whether every character of the sequence is a decimal digit.
pub open spec fn all_dec_digits(s: Seq<char>) -> bool {
    forall|i: int| 0 <= i < s.len() ==> is_dec_digit(#[trigger] s[i])
}

/// The value of a sequence of decimal digits, most significant first.
pub open spec fn digits_val(s: Seq<char>) -> int
    decreases s.len(),
{
    if s.len() == 0 {
        0
    } else {
        10 * digits_val(s.drop_last()) + digit_val(s.last())
    }
}

proof fn lemma_digits_val_nonneg(s: Seq<char>)
    requires
        all_dec_digits(s),
    ensures
        digits_val(s) >= 0,
    decreases s.len(),
{
    if s.len() > 0 {
        assert(all_dec_digits(s.drop_last()));
        lemma_digits_val_nonneg(s.drop_last());
    }
}

/// Parsing a string as a signed 32-bit decimal integer: an optional `+` or
/// `-` sign followed by one or more decimal digits and nothing else, with
/// the value in the 32-bit signed range.
pub open spec fn spec_parse_i32(s: Seq<char>) -> Option<int> {
    let signed = s.len() > 0 && (s[0] == '+' || s[0] == '-');
    let digits = if signed {
        s.subrange(1, s.len() as int)
    } else {
        s
    };
    if digits.len() == 0 || !all_dec_digits(digits) {
        None
    } else {
        let value = if s.len() > 0 && s[0] == '-' {
            -digits_val(digits)
        } else {
            digits_val(digits)
        };
        if i32::MIN <= value <= i32::MAX {
            Some(value)
        } else {
            None
        }
    }
}

/// The cell count a size string stands for: its value as a signed 32-bit
/// decimal integer, or the default of 10 when it does not parse as one.
pub open spec fn cells_value(s: Seq<char>) -> int {
    match spec_parse_i32(s) {
        Some(v) => v,
        None => 10,
    }
}

/// Parses a size string as a cell count; an unparsable string degrades to
/// the default of 10 rather than failing.
pub fn parse_cells(s: &str) -> (r: i32)
    ensures
        r as int == cells_value(s@),
{
    let n = s.unicode_len();
    if n == 0 {
        return 10;
    }
    let c0 = s.get_char(0);
    let negative = c0 == '-';
    let start: usize = if c0 == '-' || c0 == '+' {
        1
    } else {
        0
    };
    if start >= n {
        // a bare sign has no digits
        return 10;
    }
    let ghost digits: Seq<char> = if start == 1 {
        s@.subrange(1, n as int)
    } else {
        s@
    };
    proof {
        if start == 0 {
            assert(digits =~= s@.subrange(0, n as int));
            assert(s@.subrange(0, n as int) =~= s@);
        }
    }
    let mut magnitude: u64 = 0;
    let mut overflow: bool = false;
    let mut i: usize = start;
    while i < n
        invariant
            start <= i <= n,
            start < n,
            n == s@.len(),
            start == (if s@[0] == '+' || s@[0] == '-' {
                1int
            } else {
                0int
            }),
            negative == (s@[0] == '-'),
            digits == (if start == 1 {
                s@.subrange(1, n as int)
            } else {
                s@
            }),
            all_dec_digits(digits.subrange(0, i - start)),
            !overflow ==> magnitude as int == digits_val(digits.subrange(0, i - start))
                && magnitude <= 2147483648,
            overflow ==> digits_val(digits.subrange(0, i - start)) > 2147483648,
        decreases n - i,
    {
        let c = s.get_char(i);
        let cv = c as u32;
        let ghost prev = digits.subrange(0, i - start);
        let ghost cur = digits.subrange(0, i + 1 - start);
        proof {
            assert(digits[i - start] == s@[i as int]);
            assert(cur.drop_last() =~= prev);
            assert(cur.last() == digits[i - start]);
        }
        if cv < 48 || cv > 57 {
            proof {
                assert(!is_dec_digit(digits[i - start]));
            }
            return 10;
        }
        let d: u64 = (cv - 48) as u64;
        if overflow {
            proof {
                lemma_digits_val_nonneg(prev);
                assert(digits_val(cur) == 10 * digits_val(prev) + digit_val(cur.last()));
            }
        } else {
            let next = magnitude * 10 + d;
            proof {
                assert(digits_val(cur) == 10 * digits_val(prev) + digit_val(cur.last()));
            }
            if next > 2147483648 {
                overflow = true;
            } else {
                magnitude = next;
            }
        }
        i = i + 1;
    }
    proof {
        assert(digits.subrange(0, n - start) =~= digits);
    }
    if overflow {
        return 10;
    }
    if negative {
        if magnitude == 2147483648 {
            i32::MIN
        } else {
            let m = magnitude as i32;
            0 - m
        }
    } else {
        if magnitude > 2147483647 {
            // 2147483648 without a minus sign is out of range
            return 10;
        }
        magnitude as i32
    }
}

} // verus!
