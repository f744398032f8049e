//! Decimal notation: how many digits a number has, and which.

use vstd::arithmetic::power::pow;
use vstd::arithmetic::power::lemma_pow0;
use vstd::arithmetic::power::lemma_pow1;
use vstd::prelude::*;
use vstd::string::*;

verus! {

/// The decimal digit of a number below ten.
pub open spec fn digit(d: nat) -> char {
    if d == 0 {
        '0'
    } else if d == 1 {
        '1'
    } else if d == 2 {
        '2'
    } else if d == 3 {
        '3'
    } else if d == 4 {
        '4'
    } else if d == 5 {
        '5'
    } else if d == 6 {
        '6'
    } else if d == 7 {
        '7'
    } else if d == 8 {
        '8'
    } else {
        '9'
    }
}

/// `n` in decimal notation, without leading zeros.
pub open spec fn decimal(n: nat) -> Seq<char>
    decreases n,
{
    if n < 10 {
        seq![digit(n)]
    } else {
        decimal(n / 10).push(digit(n % 10))
    }
}

/// The number of digits of `n` in decimal notation; zero has one digit.
pub open spec fn digit_count(n: nat) -> nat
    decreases n,
{
    if n < 10 {
        1
    } else {
        digit_count(n / 10) + 1
    }
}

/// A number is written with as many characters as it has digits.
pub proof fn law_decimal_length(n: nat)
    ensures
        decimal(n).len() == digit_count(n),
    decreases n,
{
    if n >= 10 {
        law_decimal_length(n / 10);
    }
}

/// A larger number never has fewer digits.
pub proof fn law_digit_count_monotonic(m: nat, n: nat)
    requires
        m <= n,
    ensures
        digit_count(m) <= digit_count(n),
    decreases n,
{
    if n >= 10 && m >= 10 {
        law_digit_count_monotonic(m / 10, n / 10);
    }
}

/// Two numbers that are written alike are the same number.
pub proof fn law_decimal_injective(m: nat, n: nat)
    requires
        decimal(m) == decimal(n),
    ensures
        m == n,
    decreases m,
{
    law_decimal_length(m);
    law_decimal_length(n);
    if m < 10 {
        if n >= 10 {
            assert(digit_count(n / 10) >= 1);
        }
        assert(decimal(m)[0] == digit(m));
        assert(decimal(n)[0] == digit(n));
    } else {
        if n < 10 {
            assert(digit_count(m / 10) >= 1);
        }
        assert(decimal(m).drop_last() =~= decimal(m / 10));
        assert(decimal(n).drop_last() =~= decimal(n / 10));
        assert(decimal(m).last() == digit(m % 10));
        assert(decimal(n).last() == digit(n % 10));
        law_decimal_injective(m / 10, n / 10);
    }
}

/// A number in decimal notation holds digits only.
pub proof fn law_decimal_is_digits(n: nat, k: int)
    requires
        0 <= k < decimal(n).len(),
    ensures
        '0' <= decimal(n)[k] <= '9',
    decreases n,
{
    if n >= 10 && k < decimal(n).len() - 1 {
        law_decimal_is_digits(n / 10, k);
    }
}

/// The digit count is the exponent of the power of ten just above the number.
pub proof fn law_digit_count_is_log(n: nat)
    requires
        0 < n,
    ensures
        pow(10, (digit_count(n) - 1) as nat) <= n < pow(10, digit_count(n)),
    decreases n,
{
    reveal(pow);
    if n < 10 {
        lemma_pow0(10);
        lemma_pow1(10);
    } else {
        law_digit_count_is_log(n / 10);
        let d = digit_count(n / 10);
        assert(pow(10, d) == 10 * pow(10, (d - 1) as nat));
        assert(pow(10, d + 1) == 10 * pow(10, d));
    }
}

/// The number of digits of `n` in decimal notation.
pub fn num_digits(n: u32) -> (r: u32)
    ensures
        r == digit_count(n as nat),
        n == 0 ==> r == 1,
        n > 0 ==> 1 <= r && pow(10, (r - 1) as nat) <= n < pow(10, r as nat),
{
    let mut rest: u32 = n;
    let mut count: u32 = 1;
    while rest >= 10
        invariant
            1 <= count,
            count + rest <= n + 1,
            count + digit_count(rest as nat) == digit_count(n as nat) + 1,
        decreases rest,
    {
        rest = rest / 10;
        count = count + 1;
    }
    proof {
        if n > 0 {
            law_digit_count_is_log(n as nat);
        }
    }
    count
}

/// The text of one digit.
fn digit_text(d: u64) -> (r: &'static str)
    requires
        d < 10,
    ensures
        r@ == seq![digit(d as nat)],
{
    proof {
        reveal_strlit("0");
        reveal_strlit("1");
        reveal_strlit("2");
        reveal_strlit("3");
        reveal_strlit("4");
        reveal_strlit("5");
        reveal_strlit("6");
        reveal_strlit("7");
        reveal_strlit("8");
        reveal_strlit("9");
    }
    if d == 0 {
        "0"
    } else if d == 1 {
        "1"
    } else if d == 2 {
        "2"
    } else if d == 3 {
        "3"
    } else if d == 4 {
        "4"
    } else if d == 5 {
        "5"
    } else if d == 6 {
        "6"
    } else if d == 7 {
        "7"
    } else if d == 8 {
        "8"
    } else {
        "9"
    }
}

/// `n` in decimal notation.
pub fn decimal_text(n: u64) -> (r: String)
    ensures
        r@ == decimal(n as nat),
    decreases n,
{
    if n < 10 {
        digit_text(n).to_owned()
    } else {
        let mut text = decimal_text(n / 10);
        text.append(digit_text(n % 10));
        proof {
            assert(text@ =~= decimal(n as nat));
        }
        text
    }
}

} // verus!
