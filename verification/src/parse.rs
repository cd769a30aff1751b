//! Reading an identifier back: the number behind a family's prefix.
use vstd::prelude::*;
use crate::text::{
    decimal_text, digit_char, id_text, is_issued, lemma_decimal_len, lemma_id_injective,
};

verus! {

/// Ten to the power of `k`.
pub open spec fn pow10(k: nat) -> nat
    decreases k,
{
    if k == 0 {
        1
    } else {
        10 * pow10((k - 1) as nat)
    }
}

/// Whether a character is a decimal digit.
pub open spec fn is_digit(c: char) -> bool {
    exists|d: nat| d < 10 && c == #[trigger] digit_char(d)
}

/// A decimal text holds digits only.
pub proof fn lemma_decimal_holds_digits(n: nat, i: int)
    requires
        0 <= i < decimal_text(n).len(),
    ensures
        is_digit(decimal_text(n)[i]),
    decreases n,
{
    if n >= 10 && i < decimal_text(n / 10).len() {
        lemma_decimal_holds_digits(n / 10, i);
    }
}

/// Only zero's decimal text starts with the digit zero.
pub proof fn lemma_decimal_leading_zero(n: nat)
    requires
        decimal_text(n)[0] == '0',
    ensures
        n == 0,
    decreases n,
{
    if n >= 10 {
        lemma_decimal_leading_zero(n / 10);
    }
}

/// A number below ten to the `k` has at most `k` digits.
pub proof fn lemma_decimal_len_bound(n: nat, k: nat)
    requires
        k >= 1,
        n < pow10(k),
    ensures
        decimal_text(n).len() <= k,
    decreases k,
{
    if n >= 10 {
        if k == 1 {
            assert(pow10(1) == 10) by {
                reveal_with_fuel(pow10, 2);
            }
        } else {
            lemma_decimal_len_bound(n / 10, (k - 1) as nat);
        }
    }
}

/// A number that fits in 64 bits has at most twenty digits.
pub proof fn lemma_u64_has_twenty_digits(n: nat)
    requires
        n <= u64::MAX,
    ensures
        decimal_text(n).len() <= 20,
{
    assert(pow10(20) == 100_000_000_000_000_000_000) by {
        reveal_with_fuel(pow10, 21);
    }
    lemma_decimal_len_bound(n, 20);
}

/// The digit that a character shows, if it shows one.
pub fn digit_value(c: char) -> (digit: Option<u8>)
    ensures
        match digit {
            Some(d) => d < 10 && c == digit_char(d as nat),
            None => !is_digit(c),
        },
{
    if c == '0' {
        Some(0)
    } else if c == '1' {
        Some(1)
    } else if c == '2' {
        Some(2)
    } else if c == '3' {
        Some(3)
    } else if c == '4' {
        Some(4)
    } else if c == '5' {
        Some(5)
    } else if c == '6' {
        Some(6)
    } else if c == '7' {
        Some(7)
    } else if c == '8' {
        Some(8)
    } else if c == '9' {
        Some(9)
    } else {
        None
    }
}

/// Whether a text starts with a prefix.
pub fn starts_with(text: &str, prefix: &str) -> (yes: bool)
    ensures
        yes == (prefix@.len() <= text@.len() && text@.subrange(0, prefix@.len() as int)
            == prefix@),
{
    let n = prefix.unicode_len();
    if text.unicode_len() < n {
        return false;
    }
    let mut i: usize = 0;
    while i < n
        invariant
            i <= n,
            n == prefix@.len(),
            n <= text@.len(),
            forall|j: int| 0 <= j < i ==> text@[j] == prefix@[j],
        decreases n - i,
    {
        if text.get_char(i) != prefix.get_char(i) {
            return false;
        }
        i += 1;
    }
    assert(text@.subrange(0, n as int) =~= prefix@);
    true
}

/// Reads the number of an identifier of the family with the given prefix.
/// `None` when the text is no identifier of the family with a number that
/// fits in 64 bits.
pub fn parse_id(text: &str, prefix: &str) -> (number: Option<u64>)
    ensures
        match number {
            Some(n) => text@ == id_text(prefix@, n as nat),
            None => forall|m: nat| m <= u64::MAX ==> text@ != #[trigger] id_text(prefix@, m),
        },
{
    let len = text.unicode_len();
    let plen = prefix.unicode_len();
    if !starts_with(text, prefix) {
        assert forall|m: nat| m <= u64::MAX implies text@ != #[trigger] id_text(prefix@, m) by {
            if text@ == id_text(prefix@, m) {
                assert(text@.subrange(0, plen as int) =~= prefix@);
            }
        }
        return None;
    }
    let count = len - plen;
    let ghost digits = text@.subrange(plen as int, len as int);
    assert(text@ =~= prefix@ + digits);
    if count == 0 || count > 20 {
        assert forall|m: nat| m <= u64::MAX implies text@ != #[trigger] id_text(prefix@, m) by {
            lemma_u64_has_twenty_digits(m);
            if text@ == id_text(prefix@, m) {
                assert(text@.len() == prefix@.len() + decimal_text(m).len());
            }
        }
        return None;
    }
    let first = match digit_value(text.get_char(plen)) {
        Some(d) => d,
        None => {
            assert forall|m: nat| m <= u64::MAX implies text@ != #[trigger] id_text(prefix@, m) by {
                if text@ == id_text(prefix@, m) {
                    lemma_decimal_holds_digits(m, 0);
                }
            }
            return None;
        },
    };
    if first == 0 && count > 1 {
        assert forall|m: nat| m <= u64::MAX implies text@ != #[trigger] id_text(prefix@, m) by {
            if text@ == id_text(prefix@, m) {
                lemma_decimal_len(m);
                lemma_decimal_leading_zero(m);
            }
        }
        return None;
    }
    let mut n: u128 = first as u128;
    let mut j: usize = 1;
    proof {
        assert(digits.subrange(0, 1) =~= decimal_text(n as nat));
        assert(pow10(20) == 100_000_000_000_000_000_000) by {
            reveal_with_fuel(pow10, 21);
        }
    }
    while j < count
        invariant
            1 <= j <= count <= 20,
            count == len - plen,
            len == text@.len(),
            plen == prefix@.len(),
            digits == text@.subrange(plen as int, len as int),
            text@ == prefix@ + digits,
            digits.subrange(0, j as int) == decimal_text(n as nat),
            n < pow10(j as nat),
            pow10(j as nat) <= pow10(20),
            pow10(20) == 100_000_000_000_000_000_000,
            j > 1 ==> n >= 1,
            j == 1 && count > 1 ==> n >= 1,
        decreases count - j,
    {
        let c = text.get_char(plen + j);
        let d = match digit_value(c) {
            Some(d) => d,
            None => {
                assert forall|m: nat| m <= u64::MAX implies text@ != #[trigger] id_text(
                    prefix@,
                    m,
                ) by {
                    if text@ == id_text(prefix@, m) {
                        lemma_decimal_holds_digits(m, j as int);
                    }
                }
                return None;
            },
        };
        proof {
            lemma_pow10_monotone((j + 1) as nat, 20);
        }
        n = n * 10 + d as u128;
        j += 1;
    }
    assert(digits.subrange(0, count as int) =~= digits);
    if n > u64::MAX as u128 {
        assert forall|m: nat| m <= u64::MAX implies text@ != #[trigger] id_text(prefix@, m) by {
            if text@ == id_text(prefix@, m) {
                lemma_id_injective(prefix@, m, n as nat);
            }
        }
        return None;
    }
    Some(n as u64)
}

/// Powers of ten grow with the exponent.
pub proof fn lemma_pow10_monotone(a: nat, b: nat)
    requires
        a <= b,
    ensures
        pow10(a) <= pow10(b),
        pow10(a) >= 1,
    decreases b,
{
    if a < b {
        lemma_pow10_monotone(a, (b - 1) as nat);
    } else if a > 0 {
        lemma_pow10_monotone((a - 1) as nat, (a - 1) as nat);
    }
}

/// Decides whether a text is one of the first `issued` identifiers of the
/// family with the given prefix.
pub fn check_issued(text: &str, prefix: &str, issued: u64) -> (yes: bool)
    ensures
        yes == is_issued(prefix@, issued as nat, text@),
{
    match parse_id(text, prefix) {
        Some(n) => {
            proof {
                if 1 <= n <= issued {
                } else if is_issued(prefix@, issued as nat, text@) {
                    let m = choose|m: nat|
                        1 <= m <= issued && text@ == #[trigger] id_text(prefix@, m);
                    lemma_id_injective(prefix@, m, n as nat);
                }
            }
            1 <= n && n <= issued
        },
        None => {
            proof {
                if is_issued(prefix@, issued as nat, text@) {
                    let m = choose|m: nat|
                        1 <= m <= issued && text@ == #[trigger] id_text(prefix@, m);
                }
            }
            false
        },
    }
}

} // verus!
