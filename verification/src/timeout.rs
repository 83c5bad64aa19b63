//! Parsing of the wait-timeout configuration value.
//!
//! The timeout arrives as the text of one environment variable and must
//! be a non-negative count of milliseconds. A value that does not parse
//! is a fatal configuration error for the caller, never "no timeout".
use vstd::prelude::*;

verus! {

/// `c` is an ASCII decimal digit.
pub open spec fn is_digit_char(c: char) -> bool {
    '0' <= c && c <= '9'
}

/// The numeric value of a single decimal digit.
pub open spec fn digit_value(c: char) -> int {
    c as int - '0' as int
}

/// The digits of a numeral: the text with one optional leading plus
/// sign removed.
pub open spec fn numeral_digits(s: Seq<char>) -> Seq<char> {
    if s.len() > 0 && s[0] == '+' {
        s.skip(1)
    } else {
        s
    }
}

/// `s` is an unsigned decimal numeral: an optional leading plus sign
/// followed by at least one digit. This is exactly the shape accepted
/// when reading an unsigned integer from text.
pub open spec fn is_decimal_numeral(s: Seq<char>) -> bool {
    &&& numeral_digits(s).len() > 0
    &&& forall|i: int|
        0 <= i < numeral_digits(s).len() ==> is_digit_char(#[trigger] numeral_digits(s)[i])
}

/// The value of a digit string, most significant digit first.
pub open spec fn digits_value(s: Seq<char>) -> int
    decreases s.len(),
{
    if s.len() == 0 {
        0
    } else {
        digits_value(s.drop_last()) * 10 + digit_value(s.last())
    }
}

/// The number of milliseconds a timeout text denotes.
pub open spec fn timeout_value(s: Seq<char>) -> int {
    digits_value(numeral_digits(s))
}

/// The timeout text is accepted: a decimal numeral whose value fits the
/// machine word the wait works in.
pub open spec fn timeout_accepts(s: Seq<char>) -> bool {
    is_decimal_numeral(s) && timeout_value(s) <= u64::MAX
}

proof fn lemma_digits_value_nonneg(s: Seq<char>)
    requires
        forall|i: int| 0 <= i < s.len() ==> is_digit_char(#[trigger] s[i]),
    ensures
        digits_value(s) >= 0,
    decreases s.len(),
{
    if s.len() > 0 {
        lemma_digits_value_nonneg(s.drop_last());
    }
}

proof fn lemma_digits_value_take_succ(s: Seq<char>, i: int)
    requires
        0 <= i < s.len(),
    ensures
        digits_value(s.take(i + 1)) == digits_value(s.take(i)) * 10 + digit_value(s[i]),
{
    assert(s.take(i + 1).drop_last() =~= s.take(i));
    assert(s.take(i + 1).last() == s[i]);
}

/// A digit string is worth at least as much as any of its prefixes.
proof fn lemma_digits_value_take_le(s: Seq<char>, i: int)
    requires
        forall|j: int| 0 <= j < s.len() ==> is_digit_char(#[trigger] s[j]),
        0 <= i <= s.len(),
    ensures
        digits_value(s.take(i)) <= digits_value(s),
    decreases s.len() - i,
{
    if i == s.len() {
        assert(s.take(i) =~= s);
    } else {
        lemma_digits_value_take_succ(s, i);
        assert(forall|j: int| 0 <= j < s.take(i).len() ==> is_digit_char(#[trigger] s.take(i)[j]));
        lemma_digits_value_nonneg(s.take(i));
        lemma_digits_value_take_le(s, i + 1);
    }
}

/// Parse a timeout text as a count of milliseconds.
///
/// Returns the value exactly when the text is a decimal numeral (an
/// optional plus sign, then digits) whose value fits in `u64`; returns
/// nothing on any other text, including on a value too large to hold.
pub fn parse_timeout_ms(s: &str) -> (r: Option<u64>)
    ensures
        match r {
            Some(n) => timeout_accepts(s@) && n == timeout_value(s@),
            None => !timeout_accepts(s@),
        },
{
    let len = s.unicode_len();
    let mut i: usize = 0;
    if len > 0 && s.get_char(0) == '+' {
        i = 1;
    }
    let ghost start = i as int;
    let ghost digits = numeral_digits(s@);
    proof {
        assert(digits =~= s@.skip(start));
    }
    if i == len {
        // Empty text, or a plus sign alone: no digits at all.
        return None;
    }
    let mut acc: u64 = 0;
    while i < len
        invariant
            start <= i <= len,
            len == s@.len(),
            digits == s@.skip(start),
            digits == numeral_digits(s@),
            0 <= start <= 1,
            start == 1 ==> s@.len() > 0 && s@[0] == '+',
            start == 0 ==> !(s@.len() > 0 && s@[0] == '+'),
            forall|j: int| 0 <= j < i - start ==> is_digit_char(#[trigger] digits[j]),
            acc == digits_value(digits.take(i - start)),
        decreases len - i,
    {
        let c = s.get_char(i);
        let code = c as u32;
        if code < 48 || code > 57 {
            // A non-digit among the digits: the text is not a numeral.
            proof {
                assert(digits[i - start] == s@[i as int]);
                assert(!is_digit_char(digits[i - start]));
            }
            return None;
        }
        let d = (code - 48) as u64;
        proof {
            assert(digits[i - start] == s@[i as int]);
            assert(is_digit_char(digits[i - start]));
            assert(d == digit_value(digits[i - start]));
        }
        let scaled = match acc.checked_mul(10) {
            Some(m) => m,
            None => {
                proof {
                    lemma_digits_value_take_succ(digits, i - start);
                    lemma_too_large(digits, i - start + 1, s@);
                }
                return None;
            },
        };
        let next = match scaled.checked_add(d) {
            Some(n) => n,
            None => {
                proof {
                    lemma_digits_value_take_succ(digits, i - start);
                    lemma_too_large(digits, i - start + 1, s@);
                }
                return None;
            },
        };
        proof {
            lemma_digits_value_take_succ(digits, i - start);
        }
        acc = next;
        i = i + 1;
    }
    proof {
        assert(digits.take(i - start) =~= digits);
    }
    Some(acc)
}

/// If some digit prefix already exceeds the word, the whole numeral does.
proof fn lemma_too_large(digits: Seq<char>, k: int, whole: Seq<char>)
    requires
        0 < k <= digits.len(),
        forall|j: int| 0 <= j < k ==> is_digit_char(#[trigger] digits[j]),
        digits_value(digits.take(k)) > u64::MAX,
        digits == numeral_digits(whole),
    ensures
        !timeout_accepts(whole),
{
    if is_decimal_numeral(whole) {
        lemma_digits_value_take_le(digits, k);
    }
}

} // verus!
