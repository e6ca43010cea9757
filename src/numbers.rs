//! Reading decimal numbers out of DICOM text values.
use vstd::prelude::*;

verus! {

/// An ASCII digit.
pub open spec fn is_digit(c: char) -> bool {
    '0' <= c && c <= '9'
}

/// Every character of `s` is an ASCII digit.
pub open spec fn all_digits(s: Seq<char>) -> bool {
    forall|i: int| 0 <= i < s.len() ==> is_digit(#[trigger] s[i])
}

/// The number that the decimal digits `s` write (`0` for no digits).
pub open spec fn digits_value(s: Seq<char>) -> nat
    decreases s.len(),
{
    if s.len() == 0 {
        0
    } else {
        digits_value(s.drop_last()) * 10 + ((s.last() as u32) - 48) as nat
    }
}

pub open spec fn pow10(n: nat) -> nat
    decreases n,
{
    if n == 0 {
        1
    } else {
        10 * pow10((n - 1) as nat)
    }
}

pub proof fn lemma_digits_value_bound(s: Seq<char>)
    requires
        all_digits(s),
    ensures
        digits_value(s) < pow10(s.len()),
    decreases s.len(),
{
    if s.len() > 0 {
        assert(all_digits(s.drop_last())) by {
            assert forall|i: int| 0 <= i < s.drop_last().len() implies is_digit(
                #[trigger] s.drop_last()[i],
            ) by {
                assert(s.drop_last()[i] == s[i]);
            }
        }
        assert(is_digit(s[s.len() - 1]));
        lemma_digits_value_bound(s.drop_last());
    }
}

/// The result of reading a run of decimal digits.
pub enum Digits {
    /// A character of the run is not an ASCII digit.
    NotDigits,
    /// All digits, but the number exceeds `u32::MAX`.
    TooLarge,
    Value(u64),
}

/// Reads `cs[lo..hi]` as a decimal number.
pub fn parse_digits(cs: &Vec<char>, lo: usize, hi: usize) -> (r: Digits)
    requires
        lo <= hi <= cs@.len(),
    ensures
        ({
            let s = cs@.subrange(lo as int, hi as int);
            match r {
                Digits::NotDigits => !all_digits(s),
                Digits::TooLarge => all_digits(s) && digits_value(s) > u32::MAX,
                Digits::Value(v) => all_digits(s) && v == digits_value(s) && v <= u32::MAX,
            }
        }),
{
    let mut acc: u64 = 0;
    let mut too_large = false;
    let mut i: usize = lo;
    while i < hi
        invariant
            lo <= i <= hi <= cs@.len(),
            all_digits(cs@.subrange(lo as int, i as int)),
            !too_large ==> acc == digits_value(cs@.subrange(lo as int, i as int)) && acc
                <= u32::MAX,
            too_large ==> digits_value(cs@.subrange(lo as int, i as int)) > u32::MAX,
        decreases hi - i,
    {
        let c = cs[i];
        let ghost prev = cs@.subrange(lo as int, i as int);
        let ghost next = cs@.subrange(lo as int, i + 1);
        assert(next.drop_last() == prev);
        if !('0' <= c && c <= '9') {
            assert(!is_digit(next[next.len() - 1]));
            assert(!all_digits(cs@.subrange(lo as int, hi as int))) by {
                assert(cs@.subrange(lo as int, hi as int)[i - lo] == c);
            }
            return Digits::NotDigits;
        }
        assert(all_digits(next)) by {
            assert forall|j: int| 0 <= j < next.len() implies is_digit(#[trigger] next[j]) by {
                if j < prev.len() {
                    assert(next[j] == prev[j]);
                }
            }
        }
        if !too_large {
            acc = acc * 10 + ((c as u32) - 48) as u64;
            if acc > 4294967295 {
                too_large = true;
            }
        } else {
            assert(digits_value(next) >= digits_value(prev));
        }
        i = i + 1;
    }
    if too_large {
        Digits::TooLarge
    } else {
        Digits::Value(acc)
    }
}

/// The value that `str::parse::<u32>` gives for `s`: an optional `'+'`
/// followed by at least one digit, the number at most `u32::MAX`.
pub open spec fn u32_text_value(s: Seq<char>) -> Option<nat> {
    let body = if s.len() > 0 && s[0] == '+' {
        s.subrange(1, s.len() as int)
    } else {
        s
    };
    if body.len() > 0 && all_digits(body) && digits_value(body) <= u32::MAX {
        Some(digits_value(body))
    } else {
        None
    }
}

/// Reads `cs` as an unsigned 32-bit decimal number.
pub fn parse_u32(cs: &Vec<char>) -> (r: Option<u32>)
    ensures
        match u32_text_value(cs@) {
            Some(v) => r == Some(v as u32),
            None => r is None,
        },
{
    let lo: usize = if cs.len() > 0 && cs[0] == '+' {
        1
    } else {
        0
    };
    assert(cs@.subrange(0, cs@.len() as int) == cs@);
    if lo == cs.len() {
        return None;
    }
    match parse_digits(cs, lo, cs.len()) {
        Digits::Value(v) => Some(v as u32),
        _ => None,
    }
}

} // verus!
