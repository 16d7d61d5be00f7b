//! Decimal text representation of unsigned 64-bit counter values.
//!
//! A counter's backing file holds exactly the decimal text of the last
//! persisted value, so the library needs an exact, verified codec between
//! `u64` values and their decimal text.

use vstd::prelude::*;
use vstd::string::*;

verus! {

/// The decimal digit character for a single digit value.
pub open spec fn spec_digit_char(d: int) -> char
    recommends
        0 <= d < 10,
{
    if d == 0 {
        '0'
    } else if d == 1 {
        '1'
    } else if d == 2 {
        '2'
    } else if d == 3 {
        '3'
    } else if d == 4 {
        '4'
    } else if d == 5 {
        '5'
    } else if d == 6 {
        '6'
    } else if d == 7 {
        '7'
    } else if d == 8 {
        '8'
    } else {
        '9'
    }
}

/// The numeric value of a decimal digit character, or `None` for any other
/// character.
pub open spec fn spec_digit_value(c: char) -> Option<u64> {
    if c == '0' {
        Some(0u64)
    } else if c == '1' {
        Some(1u64)
    } else if c == '2' {
        Some(2u64)
    } else if c == '3' {
        Some(3u64)
    } else if c == '4' {
        Some(4u64)
    } else if c == '5' {
        Some(5u64)
    } else if c == '6' {
        Some(6u64)
    } else if c == '7' {
        Some(7u64)
    } else if c == '8' {
        Some(8u64)
    } else if c == '9' {
        Some(9u64)
    } else {
        None
    }
}

/// The numeric value of a digit character, with `0` for any other character.
pub open spec fn digit_value_or_zero(c: char) -> nat {
    match spec_digit_value(c) {
        Some(v) => v as nat,
        None => 0,
    }
}

/// Every character of `s` is a decimal digit.
pub open spec fn all_digits(s: Seq<char>) -> bool {
    forall|i: int| 0 <= i < s.len() ==> #[trigger] spec_digit_value(s[i]) is Some
}

/// The numeric value of a sequence of decimal digit characters.
pub open spec fn digits_value(s: Seq<char>) -> nat
    recommends
        all_digits(s),
    decreases s.len(),
{
    if s.len() == 0 {
        0
    } else {
        digits_value(s.drop_last()) * 10 + digit_value_or_zero(s.last())
    }
}

/// The canonical decimal text of a number: no sign, no leading zeros
/// (except for the single digit `0` itself).
pub open spec fn spec_u64_text(n: nat) -> Seq<char>
    decreases n,
{
    if n < 10 {
        seq![spec_digit_char(n as int)]
    } else {
        spec_u64_text(n / 10) + seq![spec_digit_char((n % 10) as int)]
    }
}

/// What a string of characters denotes as a `u64`: the digits' value when the
/// string is non-empty, consists of decimal digits only and the value fits in
/// 64 bits; nothing otherwise.
pub open spec fn spec_parse_u64(s: Seq<char>) -> Option<u64> {
    if s.len() > 0 && all_digits(s) && digits_value(s) <= u64::MAX {
        Some(digits_value(s) as u64)
    } else {
        None
    }
}

/// A one-character string slice holding the decimal digit for `d`.
fn digit_str(d: u64) -> (r: &'static str)
    requires
        d < 10,
    ensures
        r@ =~= seq![spec_digit_char(d as int)],
{
    proof {
        reveal_strlit("0");
        reveal_strlit("1");
        reveal_strlit("2");
        reveal_strlit("3");
        reveal_strlit("4");
        reveal_strlit("5");
        reveal_strlit("6");
        reveal_strlit("7");
        reveal_strlit("8");
        reveal_strlit("9");
    }
    if d == 0 {
        "0"
    } else if d == 1 {
        "1"
    } else if d == 2 {
        "2"
    } else if d == 3 {
        "3"
    } else if d == 4 {
        "4"
    } else if d == 5 {
        "5"
    } else if d == 6 {
        "6"
    } else if d == 7 {
        "7"
    } else if d == 8 {
        "8"
    } else {
        "9"
    }
}

/// Render a `u64` as its canonical decimal text.
pub fn u64_to_text(n: u64) -> (r: String)
    ensures
        r@ == spec_u64_text(n as nat),
    decreases n,
{
    if n < 10 {
        String::from_str(digit_str(n))
    } else {
        let high = u64_to_text(n / 10);
        let r = high.concat(digit_str(n % 10));
        proof {
            assert(r@ =~= spec_u64_text(n as nat));
        }
        r
    }
}

/// Extending a digit string by one digit multiplies its value by ten and adds
/// the digit.
proof fn lemma_digits_value_snoc(s: Seq<char>, i: int)
    requires
        0 <= i < s.len(),
    ensures
        digits_value(s.subrange(0, i + 1)) == digits_value(s.subrange(0, i)) * 10
            + digit_value_or_zero(s[i]),
{
    let t = s.subrange(0, i + 1);
    assert(t.drop_last() =~= s.subrange(0, i));
    assert(t.last() == s[i]);
}

/// Appending further digits never decreases a digit string's value.
proof fn lemma_digits_value_monotone(s: Seq<char>, i: int)
    requires
        0 <= i <= s.len(),
    ensures
        digits_value(s.subrange(0, i)) <= digits_value(s),
    decreases s.len() - i,
{
    if i == s.len() {
        assert(s.subrange(0, i) =~= s);
    } else {
        lemma_digits_value_snoc(s, i);
        let v = digits_value(s.subrange(0, i));
        assert(v * 10 >= v) by (nonlinear_arith);
        lemma_digits_value_monotone(s, i + 1);
    }
}

/// Parse the decimal text of a `u64`.
///
/// Returns the denoted value exactly when the input is non-empty, consists of
/// decimal digits only, and the value fits in 64 bits.
pub fn parse_u64(s: &str) -> (r: Option<u64>)
    ensures
        r == spec_parse_u64(s@),
{
    let len = s.unicode_len();
    if len == 0 {
        return None;
    }
    let mut acc: u64 = 0;
    let mut i: usize = 0;
    while i < len
        invariant
            0 <= i <= len,
            len == s@.len(),
            all_digits(s@.subrange(0, i as int)),
            acc == digits_value(s@.subrange(0, i as int)),
        decreases len - i,
    {
        let c = s.get_char(i);
        let d = match c {
            '0' => 0u64,
            '1' => 1u64,
            '2' => 2u64,
            '3' => 3u64,
            '4' => 4u64,
            '5' => 5u64,
            '6' => 6u64,
            '7' => 7u64,
            '8' => 8u64,
            '9' => 9u64,
            _ => {
                return None;
            },
        };
        proof {
            lemma_digits_value_snoc(s@, i as int);
        }
        let shifted = match acc.checked_mul(10) {
            Some(v) => v,
            None => {
                proof {
                    lemma_digits_value_monotone(s@, i as int + 1);
                }
                return None;
            },
        };
        acc = match shifted.checked_add(d) {
            Some(v) => v,
            None => {
                proof {
                    lemma_digits_value_monotone(s@, i as int + 1);
                }
                return None;
            },
        };
        i = i + 1;
    }
    proof {
        assert(s@.subrange(0, len as int) =~= s@);
    }
    Some(acc)
}

/// The canonical decimal text of a value parses back to that value.
pub proof fn lemma_u64_text_round_trip(n: u64)
    ensures
        spec_parse_u64(spec_u64_text(n as nat)) == Some(n),
    decreases n,
{
    lemma_u64_text_digits(n as nat);
    lemma_digits_value_of_text(n as nat);
}

/// The canonical decimal text consists of digits only and is non-empty.
proof fn lemma_u64_text_digits(n: nat)
    ensures
        spec_u64_text(n).len() > 0,
        all_digits(spec_u64_text(n)),
    decreases n,
{
    if n >= 10 {
        lemma_u64_text_digits(n / 10);
        let high = spec_u64_text(n / 10);
        let whole = spec_u64_text(n);
        assert forall|i: int| 0 <= i < whole.len() implies #[trigger] spec_digit_value(whole[i])
            is Some by {
            if i < high.len() {
                assert(spec_digit_value(high[i]) is Some);
            }
        }
    }
}

/// The digits of the canonical decimal text denote the rendered value.
proof fn lemma_digits_value_of_text(n: nat)
    ensures
        digits_value(spec_u64_text(n)) == n,
    decreases n,
{
    let t = spec_u64_text(n);
    if n < 10 {
        assert(t =~= seq![spec_digit_char(n as int)]);
        assert(t.drop_last() =~= Seq::<char>::empty());
        assert(digits_value(t.drop_last()) == 0);
        assert(t.last() == spec_digit_char(n as int));
        assert(digit_value_or_zero(spec_digit_char(n as int)) == n);
        assert(digits_value(t) == 0 * 10 + digit_value_or_zero(t.last()));
    } else {
        lemma_digits_value_of_text(n / 10);
        assert(t =~= spec_u64_text(n / 10) + seq![spec_digit_char((n % 10) as int)]);
        assert(t.len() > 0);
        assert(t.drop_last() =~= spec_u64_text(n / 10));
        assert(t.last() == spec_digit_char((n % 10) as int));
        assert(digit_value_or_zero(spec_digit_char((n % 10) as int)) == n % 10);
        assert(digits_value(t) == digits_value(t.drop_last()) * 10 + digit_value_or_zero(t.last()));
        assert((n / 10) * 10 + n % 10 == n) by (nonlinear_arith);
    }
}

} // verus!
