//! Small verified utilities on strings: equality, searching, and reading
//! unsigned decimal numbers, as the extraction logic needs them.
use vstd::prelude::*;

verus! {

/// Exec equality of two string slices, tied to equality of their views.
pub fn str_eq(a: &str, b: &str) -> (r: bool)
    ensures
        r == (a@ == b@),
{
    let sa: String = a.to_owned();
    let sb: String = b.to_owned();
    sa == sb
}

/// A decimal digit.
pub open spec fn spec_is_digit(c: char) -> bool {
    '0' as int <= c as int && c as int <= '9' as int
}

/// The numeric value of one digit.
pub open spec fn spec_digit_val(c: char) -> int {
    c as int - '0' as int
}

/// Every character of `s` is a decimal digit.
pub open spec fn spec_all_digits(s: Seq<char>) -> bool {
    forall|i: int| 0 <= i < s.len() ==> spec_is_digit(#[trigger] s[i])
}

/// The value of a string of decimal digits, most significant first.
pub open spec fn spec_digits_val(s: Seq<char>) -> int
    decreases s.len(),
{
    if s.len() == 0 {
        0
    } else {
        spec_digits_val(s.drop_last()) * 10 + spec_digit_val(s.last())
    }
}

/// The value of a digit string is never negative.
pub proof fn lemma_digits_val_nonneg(s: Seq<char>)
    requires
        spec_all_digits(s),
    ensures
        spec_digits_val(s) >= 0,
    decreases s.len(),
{
    if s.len() > 0 {
        assert(spec_all_digits(s.drop_last())) by {
            assert(forall|i: int|
                0 <= i < s.len() - 1 ==> spec_is_digit(#[trigger] s.drop_last()[i]) == spec_is_digit(
                    s[i],
                ));
        }
        lemma_digits_val_nonneg(s.drop_last());
    }
}

/// The digits of `s` without a single leading `'+'`; `s` itself if there is none.
pub open spec fn spec_strip_plus(s: Seq<char>) -> Seq<char> {
    if s.len() > 0 && s[0] == '+' {
        s.drop_first()
    } else {
        s
    }
}

/// What `str::parse::<u32>` returns: an optional `'+'` sign, then one or more
/// decimal digits whose value fits in a `u32`; anything else fails.
pub open spec fn spec_parse_u32(s: Seq<char>) -> Option<u32> {
    let digits = spec_strip_plus(s);
    if digits.len() > 0 && spec_all_digits(digits) && spec_digits_val(digits) <= u32::MAX {
        Option::Some(spec_digits_val(digits) as u32)
    } else {
        Option::None
    }
}

proof fn lemma_take_succ_drop_last(s: Seq<char>, i: int)
    requires
        0 <= i < s.len(),
    ensures
        s.take(i + 1).drop_last() =~= s.take(i),
        s.take(i + 1).last() == s[i],
{
}

/// Reads an unsigned decimal number as `str::parse::<u32>` does.
pub fn parse_u32(s: &str) -> (r: Option<u32>)
    ensures
        r == spec_parse_u32(s@),
{
    let n = s.unicode_len();
    let mut start: usize = 0;
    if n > 0 && s.get_char(0) == '+' {
        start = 1;
    }
    if start == n {
        // empty digit string
        return None;
    }
    let ghost digits: Seq<char> = spec_strip_plus(s@);
    proof {
        assert(digits =~= s@.subrange(start as int, n as int));
    }
    let mut acc: u64 = 0;
    let mut i: usize = start;
    while i < n
        invariant
            start <= i <= n,
            n == s@.len(),
            start < n,
            digits == spec_strip_plus(s@),
            digits =~= s@.subrange(start as int, n as int),
            spec_all_digits(digits.take(i - start)),
            acc <= u32::MAX as u64 + 1 ==> acc == spec_digits_val(digits.take(i - start)),
            acc > u32::MAX as u64 + 1 ==> spec_digits_val(digits.take(i - start)) > u32::MAX,
        decreases n - i,
    {
        let c: char = s.get_char(i);
        let cv: u32 = c as u32;
        if cv < 48 || cv > 57 {
            proof {
                assert(digits[i - start] == s@[i as int]);
                assert(!spec_all_digits(digits));
            }
            return None;
        }
        let d: u64 = (cv - 48) as u64;
        proof {
            lemma_take_succ_drop_last(digits, i - start);
            lemma_digits_val_nonneg(digits.take(i - start));
        }
        if acc > u32::MAX as u64 + 1 {
            // already past any representable value; keep checking digits only
            proof {
                assert(spec_digits_val(digits.take(i - start + 1)) > u32::MAX);
            }
        } else {
            acc = acc * 10 + d;
            if acc > u32::MAX as u64 + 1 {
                // cap the accumulator so it cannot overflow later
                acc = u32::MAX as u64 + 2;
            }
        }
        i += 1;
    }
    proof {
        assert(digits.take(i - start) =~= digits);
    }
    if acc <= u32::MAX as u64 {
        Some(acc as u32)
    } else {
        None
    }
}

} // verus!
