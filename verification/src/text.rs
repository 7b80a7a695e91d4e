//! Text helpers: comparing strings and writing numbers in decimal.

use vstd::arithmetic::div_mod::lemma_div_denominator;
use vstd::arithmetic::power::{lemma_pow0, lemma_pow_positive, pow};
use vstd::prelude::*;

verus! {

/// Whether two strings hold the same characters.
pub fn same_text(a: &str, b: &str) -> (same: bool)
    ensures
        same == (a@ == b@),
{
    a.to_owned() == b.to_owned()
}

/// The character of a decimal digit.
pub open spec fn digit_char(digit: nat) -> char
    recommends
        digit < 10,
{
    (48 + digit) as char
}

/// A number in decimal, most significant digit first and without leading zeros.
pub open spec fn decimal_text(n: nat) -> Seq<char>
    decreases n,
{
    if n < 10 {
        seq![digit_char(n)]
    } else {
        decimal_text(n / 10).push(digit_char(n % 10))
    }
}

/// The number that a string of decimal digits denotes.
pub open spec fn decimal_value(text: Seq<char>) -> int
    decreases text.len(),
{
    if text.len() == 0 {
        0
    } else {
        decimal_value(text.drop_last()) * 10 + (text.last() as int - 48)
    }
}

/// Whether a character is a decimal digit.
pub open spec fn is_digit(c: char) -> bool {
    '0' <= c <= '9'
}

/// A single digit as a string.
fn digit_str(digit: u128) -> (text: &'static str)
    requires
        digit < 10,
    ensures
        text@ == seq![digit_char(digit as nat)],
{
    proof {
        reveal_strlit("0");
        reveal_strlit("1");
        reveal_strlit("2");
        reveal_strlit("3");
        reveal_strlit("4");
        reveal_strlit("5");
        reveal_strlit("6");
        reveal_strlit("7");
        reveal_strlit("8");
        reveal_strlit("9");
    }
    let text: &'static str = match digit {
        0 => "0",
        1 => "1",
        2 => "2",
        3 => "3",
        4 => "4",
        5 => "5",
        6 => "6",
        7 => "7",
        8 => "8",
        _ => "9",
    };
    assert(text@ =~= seq![digit_char(digit as nat)]);
    text
}

/// Writes a number in decimal.
pub fn decimal(n: u128) -> (text: String)
    ensures
        text@ == decimal_text(n as nat),
    decreases n,
{
    if n < 10 {
        digit_str(n).to_owned()
    } else {
        let mut text: String = decimal(n / 10);
        text.append(digit_str(n % 10));
        assert(text@ =~= decimal_text(n as nat));
        text
    }
}

/// A number written in decimal is a string of digits, and it is not empty.
pub proof fn lemma_decimal_digits(n: nat)
    ensures
        decimal_text(n).len() > 0,
        forall|i: int| 0 <= i < decimal_text(n).len() ==> is_digit(#[trigger] decimal_text(n)[i]),
    decreases n,
{
    if n >= 10 {
        lemma_decimal_digits(n / 10);
    }
}

/// Reading the decimal text of a number gives the number back, so distinct numbers have distinct
/// texts.
pub proof fn law_decimal_round_trip(n: nat)
    ensures
        decimal_value(decimal_text(n)) == n,
    decreases n,
{
    reveal_with_fuel(decimal_value, 2);
    if n >= 10 {
        law_decimal_round_trip(n / 10);
        assert(decimal_text(n).drop_last() =~= decimal_text(n / 10));
    } else {
        assert(decimal_text(n).drop_last() =~= Seq::<char>::empty());
    }
}

/// A number in decimal is its digits by place: the `k`-th from the right tells how often the `k`-th
/// power of ten is left in the number, and there are just as many digits as the number needs.
pub proof fn law_decimal_digits_by_place(n: nat, k: nat)
    requires
        k < decimal_text(n).len(),
    ensures
        decimal_text(n)[decimal_text(n).len() - 1 - k] as int == 48 + (n as int / pow(10, k)) % 10,
        n < pow(10, decimal_text(n).len()),
        n > 0 ==> pow(10, (decimal_text(n).len() - 1) as nat) <= n,
        n == 0 ==> decimal_text(n).len() == 1,
    decreases n,
{
    let len = decimal_text(n).len();
    lemma_pow0(10);
    lemma_pow_step(10, (len - 1) as nat);
    if n < 10 {
        assert(len == 1);
        assert(n as int / 1 == n);
    } else {
        let rest = decimal_text(n / 10);
        lemma_decimal_digits(n / 10);
        assert(len == rest.len() + 1);
        lemma_pow_step(10, (rest.len() - 1) as nat);
        if k == 0 {
            law_decimal_digits_by_place(n / 10, 0);
            assert(n as int / 1 == n);
        } else {
            let j = (k - 1) as nat;
            law_decimal_digits_by_place(n / 10, j);
            lemma_pow_positive(10, j);
            lemma_pow_step(10, j);
            lemma_div_denominator(n as int, 10, pow(10, j));
            assert(decimal_text(n)[len - 1 - k] == rest[rest.len() - 1 - j]);
        }
    }
}

/// One power more.
pub proof fn lemma_pow_step(base: int, e: nat)
    ensures
        pow(base, e + 1) == base * pow(base, e),
{
    reveal(pow);
}

} // verus!
