//! Reading an unsigned decimal number out of a filter's text.

use vstd::prelude::*;

verus! {

/// `c` is one of the ten decimal digits.
pub open spec fn is_digit(c: char) -> bool {
    '0' <= c <= '9'
}

/// The number that a decimal digit stands for.
pub open spec fn digit_value(c: char) -> nat {
    (c as u32 - '0' as u32) as nat
}

/// The number that a run of decimal digits stands for, leading zeros allowed.
pub open spec fn digits_value(digits: Seq<char>) -> nat
    decreases digits.len(),
{
    if digits.len() == 0 {
        0
    } else {
        10 * digits_value(digits.drop_last()) + digit_value(digits.last())
    }
}

/// Every character of `digits` is a decimal digit.
pub open spec fn all_digits(digits: Seq<char>) -> bool {
    forall|i: int| 0 <= i < digits.len() ==> is_digit(#[trigger] digits[i])
}

/// The text without the one `+` that may lead it.
pub open spec fn digit_part(text: Seq<char>) -> Seq<char> {
    if text.len() > 0 && text[0] == '+' {
        text.drop_first()
    } else {
        text
    }
}

/// The text is a number: an optional `+`, then one or more decimal digits and
/// nothing else.
pub open spec fn is_number(text: Seq<char>) -> bool {
    digit_part(text).len() > 0 && all_digits(digit_part(text))
}

/// The number that `text` stands for, where it is a number no greater than
/// `limit`.
pub open spec fn parse_unsigned(text: Seq<char>, limit: nat) -> Option<nat> {
    if is_number(text) && digits_value(digit_part(text)) <= limit {
        Some(digits_value(digit_part(text)))
    } else {
        None
    }
}

/// Longer runs of digits do not stand for smaller numbers.
pub proof fn lemma_digits_value_grows(digits: Seq<char>, k: int)
    requires
        0 <= k <= digits.len(),
    ensures
        digits_value(digits.take(k)) <= digits_value(digits),
    decreases digits.len() - k,
{
    if k == digits.len() {
        assert(digits.take(k) =~= digits);
    } else {
        lemma_digits_value_grows(digits, k + 1);
        assert(digits.take(k + 1).drop_last() =~= digits.take(k));
    }
}

/// Reads `text` as an unsigned decimal number no greater than `limit`.
///
/// The text may start with one `+`; after it come one or more decimal digits
/// and nothing else. Any other text, and a number above `limit`, gives `None`.
pub fn parse_number(text: &str, limit: u64) -> (parsed: Option<u64>)
    ensures
        parsed is Some <==> parse_unsigned(text@, limit as nat) is Some,
        parsed matches Some(n) ==> parse_unsigned(text@, limit as nat) == Some(n as nat),
{
    broadcast use vstd::string::is_ascii_spec_bytes;

    if !text.is_ascii() {
        proof {
            let bad = choose|i: int|
                0 <= i < text@.len() && !('\0' <= #[trigger] text@[i] <= '\u{7f}');
            let digits = digit_part(text@);
            if text@[0] == '+' {
                assert(digits[bad - 1] == text@[bad]);
            } else {
                assert(digits[bad] == text@[bad]);
            }
        }
        return None;
    }
    let bytes = text.as_bytes();
    let n: usize = bytes.len();
    assert(n == text@.len());
    assert(forall|i: int| 0 <= i < n ==> bytes@[i] == (#[trigger] text@[i]) as u8);
    let start: usize = if n > 0 && bytes[0] == 43u8 {
        1
    } else {
        0
    };
    let ghost digits = digit_part(text@);
    assert(digits =~= text@.subrange(start as int, n as int));
    if start == n {
        return None;
    }
    let mut value: u64 = 0;
    let mut i: usize = start;
    while i < n
        invariant
            start <= i <= n,
            n == text@.len(),
            n == bytes@.len(),
            forall|j: int| 0 <= j < n ==> bytes@[j] == (#[trigger] text@[j]) as u8,
            vstd::utf8::is_ascii_chars(text@),
            digits == digit_part(text@),
            digits == text@.subrange(start as int, n as int),
            all_digits(digits.take(i - start)),
            value as nat == digits_value(digits.take(i - start)),
            value <= limit,
        decreases n - i,
    {
        let b: u8 = bytes[i];
        if b < 48u8 || b > 57u8 {
            proof {
                let c = text@[i as int];
                assert('\0' <= c <= '\u{7f}');
                assert(c as u8 == b);
                assert(digits[i - start] == c);
                assert(!is_digit(c));
            }
            return None;
        }
        let d: u64 = (b - 48u8) as u64;
        proof {
            let k = i - start;
            assert(digits[k] == text@[i as int]);
            assert(is_digit(digits[k]));
            assert(digit_value(digits[k]) == d as nat);
            assert(digits.take(k + 1).drop_last() =~= digits.take(k));
            assert(digits.take(k + 1).last() == digits[k]);
            assert(digits_value(digits.take(k + 1)) == 10 * value + d);
            lemma_digits_value_grows(digits, k + 1);
        }
        if d > limit || value > (limit - d) / 10 {
            assert(10 * value + d > limit);
            return None;
        }
        value = 10 * value + d;
        i = i + 1;
    }
    assert(digits.take(n - start) =~= digits);
    Some(value)
}

} // verus!
