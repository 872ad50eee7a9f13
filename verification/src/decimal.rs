//! Decimal rendering of integers, as `{}` formats them.

use vstd::prelude::*;

verus! {

/// The character of a decimal digit `d` (0 to 9).
pub open spec fn digit_char(d: int) -> char {
    (48 + d) as char
}

/// The decimal digits of a natural number, most significant first,
/// with no leading zeros (zero itself is `"0"`).
pub open spec fn decimal_digits(n: nat) -> Seq<char>
    decreases n,
{
    if n < 10 {
        seq![digit_char(n as int)]
    } else {
        decimal_digits(n / 10).push(digit_char((n % 10) as int))
    }
}

/// How an integer is written in decimal: a minus sign for negative
/// numbers, then the digits of its magnitude.
pub open spec fn decimal(n: int) -> Seq<char> {
    if n < 0 {
        seq!['-'] + decimal_digits((-n) as nat)
    } else {
        decimal_digits(n as nat)
    }
}

/// A character that may stand in a decimal number: a digit or `-`.
pub open spec fn is_number_char(c: char) -> bool {
    c == '-' || (48 <= c as int <= 57)
}

/// The value of a string of decimal digits, most significant first.
pub open spec fn digits_value(s: Seq<char>) -> int
    decreases s.len(),
{
    if s.len() == 0 {
        0
    } else {
        digits_value(s.drop_last()) * 10 + (s.last() as int - 48)
    }
}

/// The digits of `n` are decimal digits, at least one of them, and they
/// read back as `n`.
pub proof fn lemma_decimal_digits(n: nat)
    ensures
        decimal_digits(n).len() >= 1,
        forall|i: int|
            0 <= i < decimal_digits(n).len() ==> 48 <= #[trigger] decimal_digits(n)[i] as int <= 57,
        digits_value(decimal_digits(n)) == n,
    decreases n,
{
    if n < 10 {
        let s = decimal_digits(n);
        assert(s.drop_last() =~= Seq::<char>::empty());
        assert(digit_char(n as int) as int == 48 + n);
        assert(digits_value(s.drop_last()) == 0);
    } else {
        lemma_decimal_digits(n / 10);
        let s = decimal_digits(n);
        assert(s.drop_last() =~= decimal_digits(n / 10));
        assert(digit_char((n % 10) as int) as int == 48 + n % 10);
        assert(digits_value(s) == digits_value(decimal_digits(n / 10)) * 10 + n % 10);
    }
}

/// The decimal digits of a number have no leading zero: only zero itself
/// is written with a first digit `0`.
proof fn lemma_decimal_digits_no_leading_zero(n: nat)
    ensures
        decimal_digits(n)[0] == '0' ==> n == 0,
    decreases n,
{
    if n < 10 {
        assert(digit_char(n as int) as int == 48 + n);
    } else {
        lemma_decimal_digits_no_leading_zero(n / 10);
        lemma_decimal_digits(n / 10);
        assert(decimal_digits(n)[0] == decimal_digits(n / 10)[0]);
    }
}

/// The decimal form of every integer reads back as that integer: a
/// number that is not negative is written as digits only, at least one,
/// with no leading zero unless it is zero, whose value is the number; a
/// negative number is written as `-` followed by the form of its
/// magnitude.
pub proof fn lemma_decimal_reads_back(n: int)
    ensures
        n >= 0 ==> {
            &&& decimal(n).len() >= 1
            &&& forall|i: int| 0 <= i < decimal(n).len() ==> 48 <= #[trigger] decimal(n)[i] as int <= 57
            &&& digits_value(decimal(n)) == n
            &&& (decimal(n)[0] == '0' ==> n == 0)
        },
        n < 0 ==> decimal(n)[0] == '-' && decimal(n).skip(1) == decimal(-n),
{
    if n >= 0 {
        lemma_decimal_digits(n as nat);
        lemma_decimal_digits_no_leading_zero(n as nat);
    } else {
        assert(decimal(n).skip(1) =~= decimal_digits((-n) as nat));
    }
}

/// Every character of a number's decimal form may stand in a number.
pub proof fn lemma_decimal_chars(n: int)
    ensures
        decimal(n).len() >= 1,
        forall|i: int| 0 <= i < decimal(n).len() ==> is_number_char(#[trigger] decimal(n)[i]),
{
    if n < 0 {
        lemma_decimal_digits((-n) as nat);
        assert forall|i: int| 0 <= i < decimal(n).len() implies is_number_char(#[trigger] decimal(n)[i]) by {
            if i > 0 {
                assert(decimal(n)[i] == decimal_digits((-n) as nat)[i - 1]);
            }
        }
    } else {
        lemma_decimal_digits(n as nat);
    }
}

/// Different integers are written differently: the decimal form of a
/// number determines the number.
pub proof fn lemma_decimal_injective(a: int, b: int)
    requires
        decimal(a) == decimal(b),
    ensures
        a == b,
{
    if a < 0 {
        lemma_decimal_digits((-a) as nat);
    } else {
        lemma_decimal_digits(a as nat);
    }
    if b < 0 {
        lemma_decimal_digits((-b) as nat);
    } else {
        lemma_decimal_digits(b as nat);
    }
    if a < 0 && b < 0 {
        assert(decimal(a).skip(1) =~= decimal_digits((-a) as nat));
        assert(decimal(b).skip(1) =~= decimal_digits((-b) as nat));
    } else if a < 0 {
        assert(decimal(a)[0] == '-');
        assert(48 <= decimal_digits(b as nat)[0] as int);
    } else if b < 0 {
        assert(decimal(b)[0] == '-');
        assert(48 <= decimal_digits(a as nat)[0] as int);
    }
}

/// The one-character string of the decimal digit `d`.
fn digit_str(d: u64) -> (s: &'static str)
    requires
        d < 10,
    ensures
        s@ == seq![digit_char(d as int)],
{
    proof {
        reveal_strlit("0");
        reveal_strlit("1");
        reveal_strlit("2");
        reveal_strlit("3");
        reveal_strlit("4");
        reveal_strlit("5");
        reveal_strlit("6");
        reveal_strlit("7");
        reveal_strlit("8");
        reveal_strlit("9");
    }
    match d {
        0 => "0",
        1 => "1",
        2 => "2",
        3 => "3",
        4 => "4",
        5 => "5",
        6 => "6",
        7 => "7",
        8 => "8",
        _ => "9",
    }
}

/// Appends the decimal digits of `n` to `out`.
pub fn push_decimal_u64(out: &mut String, n: u64)
    ensures
        final(out)@ == old(out)@ + decimal_digits(n as nat),
    decreases n,
{
    if n >= 10 {
        push_decimal_u64(out, n / 10);
    }
    out.append(digit_str(n % 10));
    proof {
        if n < 10 {
            assert(n % 10 == n);
        }
    }
}

/// Appends the decimal form of `n` to `out`, with a minus sign when
/// `n` is negative.
pub fn push_decimal_i64(out: &mut String, n: i64)
    ensures
        final(out)@ == old(out)@ + decimal(n as int),
{
    if n < 0 {
        proof {
            reveal_strlit("-");
        }
        out.append("-");
        let magnitude: u64 = if n == i64::MIN {
            9223372036854775808u64
        } else {
            (-n) as u64
        };
        push_decimal_u64(out, magnitude);
    } else {
        push_decimal_u64(out, n as u64);
    }
}

} // verus!
