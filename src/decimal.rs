//! The canonical decimal form of an integer, as characters and as bytes.

use vstd::prelude::*;
use vstd::utf8::*;

verus! {

/// The character of a single decimal digit `d` (`0 <= d < 10`).
pub open spec fn digit_char(d: nat) -> char {
    seq!['0', '1', '2', '3', '4', '5', '6', '7', '8', '9'][d as int]
}

/// The decimal digits of `n`, most significant first, without leading zeros.
pub open spec fn decimal_digits(n: nat) -> Seq<char>
    decreases n,
{
    if n < 10 {
        seq![digit_char(n)]
    } else {
        decimal_digits(n / 10).push(digit_char(n % 10))
    }
}

/// The canonical decimal text of `v`: a `-` for a negative value, then the
/// digits of its magnitude. There is never a `+` and never a leading zero,
/// except for the value zero itself.
pub open spec fn decimal_text(v: int) -> Seq<char> {
    if v < 0 {
        seq!['-'] + decimal_digits((-v) as nat)
    } else {
        decimal_digits(v as nat)
    }
}

/// The ASCII bytes of `decimal_text(v)`.
pub open spec fn decimal_bytes(v: int) -> Seq<u8> {
    decimal_text(v).map_values(|c: char| c as u8)
}

/// Ten to the power `k`.
pub open spec fn pow10(k: nat) -> nat
    decreases k,
{
    if k == 0 {
        1
    } else {
        10 * pow10((k - 1) as nat)
    }
}

/// The smallest value that the handle can hold (the least `i64`).
pub open spec fn min_supported() -> int {
    i64::MIN as int
}

/// The largest value that the handle can hold (the greatest `u64`).
pub open spec fn max_supported() -> int {
    u64::MAX as int
}

/// A value below `10^k` has at most `k` digits.
pub proof fn lemma_digits_len_bound(n: nat, k: nat)
    requires
        1 <= k,
        n < pow10(k),
    ensures
        decimal_digits(n).len() <= k,
    decreases n,
{
    if n >= 10 {
        if k == 1 {
            reveal_with_fuel(pow10, 2);
        } else {
            let p = pow10((k - 1) as nat);
            assert(n < 10 * p);
            assert(n / 10 < p) by (nonlinear_arith)
                requires
                    n < 10 * p,
            ;
            lemma_digits_len_bound(n / 10, (k - 1) as nat);
        }
    }
}

/// Every character of `decimal_digits(n)` is one of `'0'..='9'`.
pub proof fn lemma_digits_are_digits(n: nat)
    ensures
        decimal_digits(n).len() >= 1,
        forall|i: int|
            0 <= i < decimal_digits(n).len() ==> '0' <= #[trigger] decimal_digits(n)[i] <= '9',
    decreases n,
{
    if n >= 10 {
        lemma_digits_are_digits(n / 10);
    }
}

/// The decimal text of a supported value has at most twenty characters.
pub proof fn lemma_text_fits(v: int)
    requires
        min_supported() <= v <= max_supported(),
    ensures
        1 <= decimal_text(v).len() <= 20,
{
    reveal_with_fuel(pow10, 21);
    lemma_digits_are_digits(if v < 0 { (-v) as nat } else { v as nat });
    if v < 0 {
        lemma_digits_len_bound((-v) as nat, 19);
    } else {
        lemma_digits_len_bound(v as nat, 20);
    }
}

/// Decimal text is ASCII, holds no NUL, and its UTF-8 encoding is
/// `decimal_bytes(v)`.
pub proof fn lemma_text_is_ascii(v: int)
    ensures
        is_ascii_chars(decimal_text(v)),
        decimal_bytes(v).len() == decimal_text(v).len(),
        encode_utf8(decimal_text(v)) == decimal_bytes(v),
        forall|i: int|
            0 <= i < decimal_bytes(v).len() ==> #[trigger] decimal_bytes(v)[i] != 0u8,
{
    let t = decimal_text(v);
    lemma_digits_are_digits(if v < 0 { (-v) as nat } else { v as nat });
    assert forall|i: int| 0 <= i < t.len() implies ('0' <= #[trigger] t[i] <= '9' || t[i] == '-') by {
        if v < 0 {
            if i > 0 {
                assert(t[i] == decimal_digits((-v) as nat)[i - 1]);
            }
        }
    }
    assert(is_ascii_chars(t));
    is_ascii_chars_encode_utf8(t);
    assert(encode_utf8(t) =~= decimal_bytes(v));
    assert forall|i: int| 0 <= i < decimal_bytes(v).len() implies #[trigger] decimal_bytes(v)[i] != 0u8 by {
        assert(decimal_bytes(v)[i] == t[i] as u8);
    }
}

/// The value of one decimal digit character.
pub open spec fn char_digit(c: char) -> int {
    c as int - '0' as int
}

/// The value of a run of decimal digit characters, most significant first.
pub open spec fn digits_value(s: Seq<char>) -> int
    decreases s.len(),
{
    if s.len() == 0 {
        0
    } else {
        10 * digits_value(s.drop_last()) + char_digit(s.last())
    }
}

/// Reads decimal text back: an optional leading `-`, then digits.
pub open spec fn parse_decimal(s: Seq<char>) -> int {
    if s.len() > 0 && s[0] == '-' {
        -digits_value(s.drop_first())
    } else {
        digits_value(s)
    }
}

/// Reading the digits of `n` gives `n`.
pub proof fn lemma_digits_value(n: nat)
    ensures
        digits_value(decimal_digits(n)) == n,
    decreases n,
{
    let d = n % 10;
    assert(char_digit(digit_char(d)) == d) by {
        assert(d < 10);
        if d == 0 {} else if d == 1 {} else if d == 2 {} else if d == 3 {} else if d == 4 {}
        else if d == 5 {} else if d == 6 {} else if d == 7 {} else if d == 8 {} else {}
    }
    if n >= 10 {
        lemma_digits_value(n / 10);
        let s = decimal_digits(n);
        assert(s.drop_last() =~= decimal_digits(n / 10));
        assert(s.last() == digit_char(d));
        assert(digits_value(s) == 10 * digits_value(decimal_digits(n / 10)) + d);
        assert(10 * (n / 10) + d == n);
    } else {
        let s = seq![digit_char(n)];
        assert(s.drop_last() =~= Seq::<char>::empty());
        assert(digits_value(s) == 10 * digits_value(s.drop_last()) + char_digit(s.last()));
        assert(d == n);
    }
}

/// Reading the decimal text of `v` back gives `v`.
pub proof fn lemma_parse_round_trip(v: int)
    ensures
        parse_decimal(decimal_text(v)) == v,
{
    if v < 0 {
        let m = (-v) as nat;
        lemma_digits_value(m);
        assert((seq!['-'] + decimal_digits(m)).drop_first() =~= decimal_digits(m));
    } else {
        lemma_digits_value(v as nat);
        lemma_digits_are_digits(v as nat);
        assert(decimal_digits(v as nat)[0] != '-');
    }
}

/// Distinct values have distinct decimal text.
pub proof fn lemma_text_injective(a: int, b: int)
    requires
        decimal_text(a) == decimal_text(b),
    ensures
        a == b,
{
    lemma_parse_round_trip(a);
    lemma_parse_round_trip(b);
}

} // verus!
