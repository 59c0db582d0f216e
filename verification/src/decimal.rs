//! Integers in decimal: writing them, and reading back what was written.

use crate::text::string_eq;
use vstd::prelude::*;
use vstd::string::*;

verus! {

/// The character of a decimal digit.
pub open spec fn digit(d: int) -> char {
    if d == 0 {
        '0'
    } else if d == 1 {
        '1'
    } else if d == 2 {
        '2'
    } else if d == 3 {
        '3'
    } else if d == 4 {
        '4'
    } else if d == 5 {
        '5'
    } else if d == 6 {
        '6'
    } else if d == 7 {
        '7'
    } else if d == 8 {
        '8'
    } else {
        '9'
    }
}

/// Decimal digits of a natural number, without leading zeros.
pub open spec fn decimal_nat(n: nat) -> Seq<char>
    decreases n,
{
    if n < 10 {
        seq![digit(n as int)]
    } else {
        decimal_nat(n / 10).push(digit((n % 10) as int))
    }
}

/// Decimal form of an integer, with a leading `-` below zero.
pub open spec fn decimal(i: int) -> Seq<char> {
    if i < 0 {
        seq!['-'] + decimal_nat((-i) as nat)
    } else {
        decimal_nat(i as nat)
    }
}

/// The value of a decimal digit.
pub open spec fn digit_value(c: char) -> Option<int> {
    if c == '0' {
        Some(0)
    } else if c == '1' {
        Some(1)
    } else if c == '2' {
        Some(2)
    } else if c == '3' {
        Some(3)
    } else if c == '4' {
        Some(4)
    } else if c == '5' {
        Some(5)
    } else if c == '6' {
        Some(6)
    } else if c == '7' {
        Some(7)
    } else if c == '8' {
        Some(8)
    } else if c == '9' {
        Some(9)
    } else {
        None
    }
}

/// The number that a run of decimal digits writes; none for the empty run
/// and for a run that holds anything but digits.
pub open spec fn digits_value(s: Seq<char>) -> Option<int>
    decreases s.len(),
{
    if s.len() == 0 {
        None
    } else if s.len() == 1 {
        digit_value(s[0])
    } else {
        match (digits_value(s.drop_last()), digit_value(s.last())) {
            (Some(value), Some(d)) => Some(value * 10 + d),
            _ => None,
        }
    }
}

/// The number that digits with an optional `-` before them write.
pub open spec fn signed_value(s: Seq<char>) -> Option<int> {
    if s.len() > 0 && s[0] == '-' {
        match digits_value(s.drop_first()) {
            Some(value) => Some(-value),
            None => None,
        }
    } else {
        digits_value(s)
    }
}

/// The 32-bit integer whose decimal form is `s`, if it is the decimal form
/// of one: no blanks, no `+`, no leading zeros, no `-0`.
pub open spec fn parse_decimal(s: Seq<char>) -> Option<i32> {
    if exists|i: i32| decimal(i as int) == s {
        Some(choose|i: i32| decimal(i as int) == s)
    } else {
        None
    }
}

/// Ten to the power `k`.
pub open spec fn pow10(k: nat) -> nat
    decreases k,
{
    if k == 0 {
        1
    } else {
        10 * pow10((k - 1) as nat)
    }
}

fn digit_str(d: u64) -> (s: &'static str)
    requires
        d < 10,
    ensures
        s@ == seq![digit(d as int)],
{
    proof {
        reveal_strlit("0");
        reveal_strlit("1");
        reveal_strlit("2");
        reveal_strlit("3");
        reveal_strlit("4");
        reveal_strlit("5");
        reveal_strlit("6");
        reveal_strlit("7");
        reveal_strlit("8");
        reveal_strlit("9");
    }
    let s = if d == 0 {
        "0"
    } else if d == 1 {
        "1"
    } else if d == 2 {
        "2"
    } else if d == 3 {
        "3"
    } else if d == 4 {
        "4"
    } else if d == 5 {
        "5"
    } else if d == 6 {
        "6"
    } else if d == 7 {
        "7"
    } else if d == 8 {
        "8"
    } else {
        "9"
    };
    assert(s@ =~= seq![digit(d as int)]);
    s
}

/// Writes `n` in decimal.
pub fn nat_to_string(n: u64) -> (s: String)
    ensures
        s@ == decimal_nat(n as nat),
{
    let mut rest: u64 = n / 10;
    let mut acc: String = String::from_str(digit_str(n % 10));
    while rest > 0
        invariant
            decimal_nat(n as nat) == (if rest == 0 {
                acc@
            } else {
                decimal_nat(rest as nat) + acc@
            }),
        decreases rest,
    {
        let head = String::from_str(digit_str(rest % 10));
        proof {
            let d = digit((rest % 10) as int);
            if rest >= 10 {
                assert(decimal_nat(rest as nat) == decimal_nat((rest / 10) as nat).push(d));
                assert(decimal_nat((rest / 10) as nat).push(d) + acc@ =~= decimal_nat(
                    (rest / 10) as nat,
                ) + (seq![d] + acc@));
            } else {
                assert(decimal_nat(rest as nat) == seq![d]);
            }
        }
        acc = head.concat(acc.as_str());
        rest = rest / 10;
    }
    acc
}

/// Writes `i` in decimal.
pub fn int_to_string(i: i32) -> (s: String)
    ensures
        s@ == decimal(i as int),
{
    if i < 0 {
        let magnitude: u64 = (-(i as i64)) as u64;
        let digits = nat_to_string(magnitude);
        proof {
            reveal_strlit("-");
            assert("-"@ =~= seq!['-']);
        }
        String::from_str("-").concat(digits.as_str())
    } else {
        nat_to_string(i as u64)
    }
}

fn digit_of(c: char) -> (d: Option<u64>)
    ensures
        match digit_value(c) {
            Some(value) => d == Some(value as u64) && value < 10,
            None => d is None,
        },
{
    if c == '0' {
        Some(0)
    } else if c == '1' {
        Some(1)
    } else if c == '2' {
        Some(2)
    } else if c == '3' {
        Some(3)
    } else if c == '4' {
        Some(4)
    } else if c == '5' {
        Some(5)
    } else if c == '6' {
        Some(6)
    } else if c == '7' {
        Some(7)
    } else if c == '8' {
        Some(8)
    } else if c == '9' {
        Some(9)
    } else {
        None
    }
}

/// Reads a 32-bit integer from its decimal form.
pub fn parse_int(s: &str) -> (parsed: Option<i32>)
    ensures
        parsed == parse_decimal(s@),
{
    let n = s.unicode_len();
    proof {
        assert forall|i: i32| decimal(i as int) == s@ implies n <= 11 && signed_value(s@) == Some(
            i as int,
        ) by {
            lemma_signed_value_of_decimal(i);
        }
    }
    if n == 0 || n > 11 {
        return None;
    }
    let negative = s.get_char(0) == '-';
    let start: usize = if negative {
        1
    } else {
        0
    };
    if start == n {
        proof {
            assert(s@.drop_first() =~= Seq::<char>::empty());
        }
        return None;
    }
    let ghost digits = s@.subrange(start as int, n as int);
    proof {
        if negative {
            assert(s@.drop_first() =~= digits);
        } else {
            assert(digits =~= s@);
        }
    }
    let mut value: u64 = 0;
    let mut i: usize = start;
    proof {
        reveal_with_fuel(pow10, 12);
        assert(pow10(11) == 100_000_000_000);
        assert(pow10(0) == 1);
    }
    while i < n
        invariant
            start <= i <= n,
            n == s@.len(),
            n <= 11,
            digits == s@.subrange(start as int, n as int),
            signed_value(s@) == (match digits_value(digits) {
                Some(v) => Some(
                    if negative {
                        -v
                    } else {
                        v
                    },
                ),
                None => None,
            }),
            forall|j: i32| decimal(j as int) == s@ ==> signed_value(s@) == Some(j as int),
            i > start ==> digits_value(digits.subrange(0, i - start)) == Some(value as int),
            i == start ==> value == 0,
            value < pow10((i - start) as nat),
            pow10((i - start) as nat) <= pow10(11),
            pow10(11) == 100_000_000_000,
        decreases n - i,
    {
        let c = s.get_char(i);
        proof {
            let upto = digits.subrange(0, i - start + 1);
            assert(upto.last() == c);
            assert(upto.drop_last() =~= digits.subrange(0, i - start));
            assert(pow10((i - start + 1) as nat) == 10 * pow10((i - start) as nat));
            lemma_pow10_grows((i - start + 1) as nat, 11);
        }
        match digit_of(c) {
            Some(d) => {
                value = value * 10 + d;
            },
            None => {
                proof {
                    lemma_digits_value_prefix(digits, i - start + 1);
                }
                return None;
            },
        }
        i = i + 1;
    }
    proof {
        assert(digits.subrange(0, n - start) =~= digits);
    }
    let candidate: i64 = if negative {
        -(value as i64)
    } else {
        value as i64
    };
    if candidate < -2147483648 || candidate > 2147483647 {
        return None;
    }
    let candidate = candidate as i32;
    let printed = int_to_string(candidate);
    if string_eq(printed.as_str(), s) {
        proof {
            let chosen = choose|i: i32| decimal(i as int) == s@;
            lemma_decimal_injective(chosen, candidate);
        }
        Some(candidate)
    } else {
        None
    }
}

/// The decimal form of a number is made of digits and reads back as the
/// number; a number below `10^k` has at most `k` digits, and at least one.
pub proof fn lemma_decimal_nat(n: nat, k: nat)
    requires
        n < pow10(k),
        k >= 1,
    ensures
        digits_value(decimal_nat(n)) == Some(n as int),
        1 <= decimal_nat(n).len() <= k,
        forall|j: int| 0 <= j < decimal_nat(n).len() ==> digit_value(decimal_nat(n)[j]) is Some,
    decreases n,
{
    if n >= 10 {
        assert(k >= 2) by {
            if k == 1 {
                assert(pow10(1) == 10 * pow10(0));
            }
        }
        lemma_decimal_nat(n / 10, (k - 1) as nat);
        let front = decimal_nat(n / 10);
        let all = decimal_nat(n);
        assert(all.drop_last() =~= front);
        assert(all.last() == digit((n % 10) as int));
        assert forall|j: int| 0 <= j < all.len() implies digit_value(all[j]) is Some by {
            if j < front.len() {
                assert(all[j] == front[j]);
            }
        }
    }
}

/// The decimal form of a 32-bit integer reads back as the integer, and is
/// at most eleven characters long.
pub proof fn lemma_signed_value_of_decimal(i: i32)
    ensures
        signed_value(decimal(i as int)) == Some(i as int),
        1 <= decimal(i as int).len() <= 11,
{
    assert(pow10(10) == 10_000_000_000) by {
        reveal_with_fuel(pow10, 11);
    }
    if i < 0 {
        let digits = decimal_nat((-i) as nat);
        lemma_decimal_nat((-i) as nat, 10);
        let s = decimal(i as int);
        assert(s.drop_first() =~= digits);
    } else {
        lemma_decimal_nat(i as nat, 10);
        let s = decimal(i as int);
        assert(digit_value(s[0]) is Some);
    }
}

/// The decimal form of a 32-bit integer holds digits and `-` only.
pub proof fn lemma_decimal_chars(i: i32)
    ensures
        forall|j: int|
            0 <= j < decimal(i as int).len() ==> decimal(i as int)[j] == '-' || digit_value(
                decimal(i as int)[j],
            ) is Some,
{
    assert(pow10(10) == 10_000_000_000) by {
        reveal_with_fuel(pow10, 11);
    }
    if i < 0 {
        lemma_decimal_nat((-i) as nat, 10);
        let digits = decimal_nat((-i) as nat);
        assert forall|j: int| 0 <= j < decimal(i as int).len() implies decimal(i as int)[j] == '-'
            || digit_value(decimal(i as int)[j]) is Some by {
            if j > 0 {
                assert(decimal(i as int)[j] == digits[j - 1]);
            }
        }
    } else {
        lemma_decimal_nat(i as nat, 10);
    }
}

/// Two 32-bit integers with the same decimal form are the same integer.
pub proof fn lemma_decimal_injective(i: i32, j: i32)
    requires
        decimal(i as int) == decimal(j as int),
    ensures
        i == j,
{
    lemma_signed_value_of_decimal(i);
    lemma_signed_value_of_decimal(j);
}

/// Reading the decimal form of a 32-bit integer gives the integer back.
pub proof fn lemma_parse_decimal(i: i32)
    ensures
        parse_decimal(decimal(i as int)) == Some(i),
{
    let found = choose|j: i32| decimal(j as int) == decimal(i as int);
    lemma_decimal_injective(found, i);
}

/// A run of digits has a value only if every shorter run from its start
/// has one.
proof fn lemma_digits_value_prefix(s: Seq<char>, len: int)
    requires
        1 <= len <= s.len(),
        digits_value(s.subrange(0, len)) is None,
    ensures
        digits_value(s) is None,
    decreases s.len() - len,
{
    if len < s.len() {
        let longer = s.subrange(0, len + 1);
        assert(longer.drop_last() =~= s.subrange(0, len));
        lemma_digits_value_prefix(s, len + 1);
    } else {
        assert(s.subrange(0, len) =~= s);
    }
}

/// Powers of ten grow with the exponent.
proof fn lemma_pow10_grows(a: nat, b: nat)
    requires
        a <= b,
    ensures
        pow10(a) <= pow10(b),
        pow10(a) >= 1,
    decreases b,
{
    if a < b {
        lemma_pow10_grows(a, (b - 1) as nat);
    } else if a > 0 {
        lemma_pow10_grows((a - 1) as nat, (a - 1) as nat);
    }
}

} // verus!
