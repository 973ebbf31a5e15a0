//! Decimal rendering of lengths.
use crate::text::{appended, short_as_str, short_bytes, short_push_str, AnnounceText};
use vstd::prelude::*;
use vstd::string::StringSliceAdditionalSpecFns;

verus! {

/// The ASCII decimal digits of `n`, most significant first, without leading
/// zeros.
pub open spec fn decimal_digits(n: nat) -> Seq<u8>
    decreases n,
{
    if n < 10 {
        seq![(48 + n) as u8]
    } else {
        decimal_digits(n / 10).push((48 + n % 10) as u8)
    }
}

/// The power of ten with exponent `k`.
pub open spec fn power_of_ten(k: nat) -> nat
    decreases k,
{
    if k == 0 {
        1
    } else {
        10 * power_of_ten((k - 1) as nat)
    }
}

/// A number below the power of ten with exponent `k` has at most `k`
/// digits, and every number has at least one.
pub proof fn lemma_decimal_len(n: nat, k: nat)
    requires
        k >= 1,
        n < power_of_ten(k),
    ensures
        1 <= decimal_digits(n).len() <= k,
    decreases k,
{
    reveal_with_fuel(power_of_ten, 2);
    if n >= 10 {
        lemma_decimal_len(n / 10, (k - 1) as nat);
    }
}

/// A `usize` has at most 20 digits.
pub proof fn lemma_decimal_len_of_usize(n: usize)
    ensures
        1 <= decimal_digits(n as nat).len() <= 20,
{
    assert(power_of_ten(20) == 100_000_000_000_000_000_000) by {
        reveal_with_fuel(power_of_ten, 21);
    }
    lemma_decimal_len(n as nat, 20);
}

/// The number of decimal digits of `n`.
pub fn decimal_len(n: usize) -> (len: usize)
    ensures
        len == decimal_digits(n as nat).len(),
    decreases n,
{
    if n < 10 {
        1
    } else {
        proof {
            lemma_decimal_len_of_usize(n / 10);
        }
        decimal_len(n / 10) + 1
    }
}

/// The ASCII character of the digit `digit`.
fn digit_text(digit: usize) -> (s: &'static str)
    requires
        digit < 10,
    ensures
        s.spec_bytes() == seq![(48 + digit) as u8],
{
    let s = if digit == 0 {
        "0"
    } else if digit == 1 {
        "1"
    } else if digit == 2 {
        "2"
    } else if digit == 3 {
        "3"
    } else if digit == 4 {
        "4"
    } else if digit == 5 {
        "5"
    } else if digit == 6 {
        "6"
    } else if digit == 7 {
        "7"
    } else if digit == 8 {
        "8"
    } else {
        "9"
    };
    proof {
        reveal_strlit("0");
        reveal_strlit("1");
        reveal_strlit("2");
        reveal_strlit("3");
        reveal_strlit("4");
        reveal_strlit("5");
        reveal_strlit("6");
        reveal_strlit("7");
        reveal_strlit("8");
        reveal_strlit("9");
        assert(vstd::string::is_ascii(s));
        vstd::string::is_ascii_spec_bytes(s);
        assert(s.spec_bytes() =~= seq![(48 + digit) as u8]);
    }
    s
}

/// Appends the decimal digits of `n` to a buffer that has room for them.
fn push_digits(out: &mut AnnounceText, n: usize)
    requires
        short_bytes(old(out)).len() + decimal_digits(n as nat).len() <= 64,
    ensures
        short_bytes(final(out)) == short_bytes(old(out)) + decimal_digits(n as nat),
    decreases n,
{
    if n >= 10 {
        push_digits(out, n / 10);
    }
    let _ = short_push_str(out, digit_text(n % 10));
    assert(short_bytes(final(out)) =~= short_bytes(old(out)) + decimal_digits(n as nat));
}

/// Appends the decimal digits of `n` to `out` where they fit whole, and
/// reports whether they did. Digits that do not fit are dropped and the
/// buffer stays as it was.
pub fn push_decimal(out: &mut AnnounceText, n: usize) -> (stored: bool)
    ensures
        stored <==> short_bytes(old(out)).len() + decimal_digits(n as nat).len() <= 64,
        short_bytes(final(out)) == appended(short_bytes(old(out)), decimal_digits(n as nat), 64),
{
    let held = short_as_str(out).len();
    if decimal_len(n) > 64 - held {
        return false;
    }
    push_digits(out, n);
    true
}

} // verus!
