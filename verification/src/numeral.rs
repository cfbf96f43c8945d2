//! Numbers as text: digits in a base of at most sixteen.

use vstd::prelude::*;

verus! {

/// The text of a digit in lower case: `0` to `9`, `a` to `e`, and `f` from
/// fifteen on.
pub open spec fn digit_text(d: int) -> Seq<char> {
    if d == 0 {
        "0"@
    } else if d == 1 {
        "1"@
    } else if d == 2 {
        "2"@
    } else if d == 3 {
        "3"@
    } else if d == 4 {
        "4"@
    } else if d == 5 {
        "5"@
    } else if d == 6 {
        "6"@
    } else if d == 7 {
        "7"@
    } else if d == 8 {
        "8"@
    } else if d == 9 {
        "9"@
    } else if d == 10 {
        "a"@
    } else if d == 11 {
        "b"@
    } else if d == 12 {
        "c"@
    } else if d == 13 {
        "d"@
    } else if d == 14 {
        "e"@
    } else {
        "f"@
    }
}

/// The digits of a number in a base of at most sixteen, without leading zeros.
pub open spec fn numeral(n: nat, base: nat) -> Seq<char>
    decreases n,
    via numeral_decreases
{
    if base < 2 || n < base {
        digit_text(n as int)
    } else {
        numeral(n / base, base) + digit_text((n % base) as int)
    }
}

#[via_fn]
proof fn numeral_decreases(n: nat, base: nat) {
    if !(base < 2 || n < base) {
        lemma_quotient_smaller(n, base);
    }
}

/// Dividing by two or more makes a positive number smaller.
pub proof fn lemma_quotient_smaller(n: nat, base: nat)
    requires
        base >= 2,
        n >= base,
    ensures
        n / base < n,
        n / base >= 1,
{
    vstd::arithmetic::div_mod::lemma_fundamental_div_mod(n as int, base as int);
    vstd::arithmetic::div_mod::lemma_mod_bound(n as int, base as int);
    let q = (n as int) / (base as int);
    let r = (n as int) % (base as int);
    assert(q >= 1) by (nonlinear_arith)
        requires
            base * q + r == n,
            0 <= r < base,
            n >= base,
    ;
    assert(q < n) by (nonlinear_arith)
        requires
            base * q + r == n,
            0 <= r,
            base >= 2,
            q >= 1,
    ;
}

/// The text of one digit.
pub fn digit_str(d: u32) -> (text: &'static str)
    ensures
        text@ == digit_text(d as int),
{
    if d == 0 {
        "0"
    } else if d == 1 {
        "1"
    } else if d == 2 {
        "2"
    } else if d == 3 {
        "3"
    } else if d == 4 {
        "4"
    } else if d == 5 {
        "5"
    } else if d == 6 {
        "6"
    } else if d == 7 {
        "7"
    } else if d == 8 {
        "8"
    } else if d == 9 {
        "9"
    } else if d == 10 {
        "a"
    } else if d == 11 {
        "b"
    } else if d == 12 {
        "c"
    } else if d == 13 {
        "d"
    } else if d == 14 {
        "e"
    } else {
        "f"
    }
}

/// Appends the digits of `n` in a base between two and sixteen.
pub fn push_numeral(text: &mut String, n: u64, base: u32)
    requires
        2 <= base <= 16,
    ensures
        final(text)@ == old(text)@ + numeral(n as nat, base as nat),
    decreases n,
{
    if n >= base as u64 {
        proof {
            lemma_quotient_smaller(n as nat, base as nat);
        }
        push_numeral(text, n / (base as u64), base);
        text.append(digit_str((n % (base as u64)) as u32));
        proof {
            assert(final(text)@ =~= old(text)@ + (numeral((n as nat) / (base as nat), base as nat)
                + digit_text(((n as nat) % (base as nat)) as int)));
        }
    } else {
        text.append(digit_str(n as u32));
    }
}

/// The texts of the sixteen digits are single characters, all different.
pub proof fn lemma_digit_texts(a: int, b: int)
    requires
        0 <= a < 16,
        0 <= b < 16,
    ensures
        digit_text(a).len() == 1,
        digit_text(a) == digit_text(b) ==> a == b,
{
    reveal_strlit("0");
    reveal_strlit("1");
    reveal_strlit("2");
    reveal_strlit("3");
    reveal_strlit("4");
    reveal_strlit("5");
    reveal_strlit("6");
    reveal_strlit("7");
    reveal_strlit("8");
    reveal_strlit("9");
    reveal_strlit("a");
    reveal_strlit("b");
    reveal_strlit("c");
    reveal_strlit("d");
    reveal_strlit("e");
    reveal_strlit("f");
    if digit_text(a) == digit_text(b) {
        assert(digit_text(a)[0] == digit_text(b)[0]);
    }
}

/// A numeral ends in the digit of the remainder; what stands before it is
/// the numeral of the quotient, or nothing below the base.
pub proof fn lemma_numeral_shape(n: nat, base: nat)
    requires
        2 <= base <= 16,
    ensures
        numeral(n, base).len() >= 1,
        n < base <==> numeral(n, base).len() == 1,
        numeral(n, base).subrange(numeral(n, base).len() - 1, numeral(n, base).len() as int)
            == digit_text((n % base) as int),
        n >= base ==> numeral(n, base).drop_last() == numeral(n / base, base),
    decreases n,
{
    vstd::arithmetic::div_mod::lemma_mod_bound(n as int, base as int);
    lemma_digit_texts((n % base) as int, 0);
    if n < base {
        vstd::arithmetic::div_mod::lemma_small_mod(n, base);
        assert(numeral(n, base).subrange(0, 1) =~= numeral(n, base));
    } else {
        lemma_quotient_smaller(n, base);
        lemma_numeral_shape(n / base, base);
        let head = numeral(n / base, base);
        let digit = digit_text((n % base) as int);
        assert((head + digit).subrange(head.len() as int, head.len() as int + 1) =~= digit);
        assert((head + digit).drop_last() =~= head);
    }
}

/// Different numbers have different numerals.
pub proof fn lemma_numeral_injective(a: nat, b: nat, base: nat)
    requires
        2 <= base <= 16,
        numeral(a, base) == numeral(b, base),
    ensures
        a == b,
    decreases a,
{
    lemma_numeral_shape(a, base);
    lemma_numeral_shape(b, base);
    vstd::arithmetic::div_mod::lemma_mod_bound(a as int, base as int);
    vstd::arithmetic::div_mod::lemma_mod_bound(b as int, base as int);
    lemma_digit_texts((a % base) as int, (b % base) as int);
    vstd::arithmetic::div_mod::lemma_fundamental_div_mod(a as int, base as int);
    vstd::arithmetic::div_mod::lemma_fundamental_div_mod(b as int, base as int);
    if a < base {
        vstd::arithmetic::div_mod::lemma_small_mod(a, base);
        vstd::arithmetic::div_mod::lemma_small_mod(b, base);
    } else {
        lemma_quotient_smaller(a, base);
        lemma_numeral_injective(a / base, b / base, base);
    }
}

} // verus!
