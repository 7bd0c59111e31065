//! Whole numbers in decimal and hexadecimal notation.

use crate::text::chars_of;
use vstd::prelude::*;

verus! {

/// The decimal digit of `d`, which is below ten.
pub open spec fn digit_char(d: nat) -> char {
    (d + 48) as u8 as char
}

/// The decimal notation of `n`.
pub open spec fn decimal(n: nat) -> Seq<char>
    decreases n,
{
    if n < 10 {
        seq![digit_char(n)]
    } else {
        decimal(n / 10).push(digit_char(n % 10))
    }
}

/// The decimal notation of `n`.
pub fn decimal_text(n: u64) -> (r: String)
    ensures
        r@ == decimal(n as nat),
    decreases n,
{
    if n < 10 {
        let mut r = String::new();
        r.push(((n as u8) + 48) as char);
        assert(r@ =~= seq![digit_char(n as nat)]);
        r
    } else {
        let mut r = decimal_text(n / 10);
        r.push((((n % 10) as u8) + 48) as char);
        r
    }
}

/// `s` with zeros before it up to the length `width`.
pub open spec fn zero_padded(s: Seq<char>, width: nat) -> Seq<char> {
    if s.len() < width {
        Seq::new((width - s.len()) as nat, |i: int| '0') + s
    } else {
        s
    }
}

/// The decimal notation of `n` with zeros before it up to `width` digits.
pub fn padded_decimal(n: u64, width: usize) -> (r: String)
    ensures
        r@ == zero_padded(decimal(n as nat), width as nat),
{
    let digits = decimal_text(n);
    let length: usize = digits.as_str().unicode_len();
    let mut r = String::new();
    let mut i: usize = length;
    while i < width
        invariant
            length <= i,
            i <= width || i == length,
            r@ == Seq::new((i - length) as nat, |j: int| '0'),
        decreases width - i,
    {
        r.push('0');
        i += 1;
        assert(r@ =~= Seq::new((i - length) as nat, |j: int| '0'));
    }
    r.append(digits.as_str());
    assert(r@ =~= zero_padded(decimal(n as nat), width as nat));
    r
}

/// Whether `c` is a decimal digit.
pub open spec fn is_digit(c: char) -> bool {
    '0' <= c <= '9'
}

/// Whether all of `s` are decimal digits.
pub open spec fn all_digits(s: Seq<char>) -> bool {
    forall|i: int| 0 <= i < s.len() ==> is_digit(#[trigger] s[i])
}

/// Whether all of `s` are decimal digits.
pub fn only_digits(s: &str) -> (r: bool)
    ensures
        r == all_digits(s@),
{
    let chars = chars_of(s);
    let mut i: usize = 0;
    while i < chars.len()
        invariant
            chars@ == s@,
            i <= chars@.len(),
            forall|j: int| 0 <= j < i ==> is_digit(#[trigger] chars@[j]),
        decreases chars@.len() - i,
    {
        let c = chars[i];
        if !('0' <= c && c <= '9') {
            assert(!is_digit(s@[i as int]));
            return false;
        }
        i += 1;
    }
    true
}

/// The number that a row of decimal digits stands for.
pub open spec fn digits_value(s: Seq<char>) -> nat
    decreases s.len(),
{
    if s.len() == 0 {
        0
    } else {
        (digits_value(s.drop_last()) * 10 + (s.last() as u32 - 48)) as nat
    }
}

/// What `s` stands for as a whole number of at most `max`: digits, with one plus sign before
/// them or none.
pub open spec fn parsed_decimal(s: Seq<char>, max: nat) -> Option<nat> {
    let digits = if s.len() > 0 && s[0] == '+' {
        s.drop_first()
    } else {
        s
    };
    if digits.len() > 0 && all_digits(digits) && digits_value(digits) <= max {
        Some(digits_value(digits))
    } else {
        None
    }
}

proof fn digits_value_grows(s: Seq<char>, i: int)
    requires
        0 <= i <= s.len(),
        all_digits(s),
    ensures
        digits_value(s.take(i)) <= digits_value(s),
    decreases s.len() - i,
{
    if i < s.len() {
        digits_value_grows(s, i + 1);
        assert(s.take(i + 1).drop_last() =~= s.take(i));
        assert(is_digit(s[i]));
    } else {
        assert(s.take(i) =~= s);
    }
}

/// The number that `s` stands for, if it is one and a `u64` can hold it.
pub fn parse_u64(s: &str) -> (r: Option<u64>)
    ensures
        r is Some == parsed_decimal(s@, u64::MAX as nat) is Some,
        r matches Some(n) ==> parsed_decimal(s@, u64::MAX as nat) == Some(n as nat),
{
    let chars = chars_of(s);
    let from: usize = if chars.len() > 0 && chars[0] == '+' {
        1
    } else {
        0
    };
    let ghost digits = if from == 1 {
        s@.drop_first()
    } else {
        s@
    };
    assert(digits =~= s@.skip(from as int));
    if chars.len() == from {
        return None;
    }
    let mut i: usize = from;
    let mut n: u64 = 0;
    while i < chars.len()
        invariant
            chars@ == s@,
            from <= i <= chars@.len(),
            digits == s@.skip(from as int),
            all_digits(digits.take(i - from)),
            n == digits_value(digits.take(i - from)),
            parsed_decimal(s@, u64::MAX as nat) is Some ==> digits.len() > 0 && all_digits(digits)
                && parsed_decimal(s@, u64::MAX as nat) == Some(digits_value(digits)) && digits_value(
                digits,
            ) <= u64::MAX,
        decreases chars@.len() - i,
    {
        let c = chars[i];
        let ghost k = i - from;
        assert(digits[k] == c);
        if !('0' <= c && c <= '9') {
            assert(!is_digit(digits[k]));
            return None;
        }
        let ghost upto = digits.take(k + 1);
        assert(upto.drop_last() =~= digits.take(k));
        assert(upto.last() == c);
        proof {
            if all_digits(digits) {
                digits_value_grows(digits, k + 1);
            }
        }
        let d: u64 = (c as u32 - 48) as u64;
        if n > (u64::MAX - d) / 10 {
            assert(n * 10 + d > u64::MAX) by (nonlinear_arith)
                requires
                    n > (u64::MAX - d) / 10,
                    d <= 9,
            ;
            return None;
        }
        assert(n * 10 + d <= u64::MAX) by (nonlinear_arith)
            requires
                n <= (u64::MAX - d) / 10,
                d <= 9,
        ;
        n = n * 10 + d;
        assert forall|j: int| 0 <= j < upto.len() implies is_digit(#[trigger] upto[j]) by {
            if j < k {
                assert(digits.take(k)[j] == upto[j]);
            }
        }
        i += 1;
    }
    assert(digits.take(i - from) =~= digits);
    Some(n)
}

/// The number that `s` stands for, if it is one and a `usize` can hold it.
pub fn parse_usize(s: &str) -> (r: Option<usize>)
    ensures
        r is Some == parsed_decimal(s@, usize::MAX as nat) is Some,
        r matches Some(n) ==> parsed_decimal(s@, usize::MAX as nat) == Some(n as nat),
{
    match parse_u64(s) {
        Some(n) => {
            if n <= usize::MAX as u64 {
                Some(n as usize)
            } else {
                None
            }
        },
        None => None,
    }
}

proof fn decimal_digits(n: nat)
    ensures
        decimal(n).len() > 0,
        all_digits(decimal(n)),
        digits_value(decimal(n)) == n,
    decreases n,
{
    if n < 10 {
        let s = decimal(n);
        assert(s.drop_last() =~= Seq::empty());
        assert(s.last() == digit_char(n));
        assert(digits_value(s.drop_last()) == 0);
    } else {
        decimal_digits(n / 10);
        let s = decimal(n);
        assert(s.drop_last() =~= decimal(n / 10));
        assert(s.last() == digit_char(n % 10));
        assert forall|i: int| 0 <= i < s.len() implies is_digit(#[trigger] s[i]) by {
            if i < s.len() - 1 {
                assert(s[i] == decimal(n / 10)[i]);
            }
        }
    }
}

/// The decimal notation of a number is read as that number.
pub proof fn decimal_round_trip(n: nat, max: nat)
    requires
        n <= max,
    ensures
        parsed_decimal(decimal(n), max) == Some(n),
{
    decimal_digits(n);
    let s = decimal(n);
    assert(is_digit(s[0]));
}

/// A number is read from digits alone, with or without a plus in front, and only where it is not too
/// large; zeros in front do not count.
pub proof fn number_is_read_from_digits(s: Seq<char>, max: nat)
    ensures
        parsed_decimal(s, max) is Some ==> s.len() > 0 && forall|i: int|
            1 <= i < s.len() ==> '0' <= #[trigger] s[i] <= '9',
        parsed_decimal(s, max) is Some ==> ('0' <= s[0] <= '9') || s[0] == '+',
        parsed_decimal(s, max) matches Some(n) ==> n <= max,
        s.len() > 0 && s[0] != '+' ==> parsed_decimal(seq!['+'] + s, max) == parsed_decimal(s, max),
        s.len() > 0 && s[0] != '+' ==> parsed_decimal(seq!['0'] + s, max) == parsed_decimal(s, max),
{
    let digits = if s.len() > 0 && s[0] == '+' {
        s.drop_first()
    } else {
        s
    };
    if parsed_decimal(s, max) is Some {
        assert forall|i: int| 1 <= i < s.len() implies '0' <= #[trigger] s[i] <= '9' by {
            if s[0] == '+' {
                assert(is_digit(digits[i - 1]));
            } else {
                assert(is_digit(digits[i]));
            }
        }
        assert(is_digit(digits[0]));
    }
    if s.len() > 0 && s[0] != '+' {
        let plus = seq!['+'] + s;
        assert(plus[0] == '+');
        assert(plus.drop_first() =~= s);
        let zero = seq!['0'] + s;
        assert(zero[0] == '0');
        zero_does_not_count(s);
        if all_digits(s) {
            assert forall|i: int| 0 <= i < zero.len() implies is_digit(#[trigger] zero[i]) by {
                if i > 0 {
                    assert(zero[i] == s[i - 1]);
                }
            }
        }
        if all_digits(zero) {
            assert forall|i: int| 0 <= i < s.len() implies is_digit(#[trigger] s[i]) by {
                assert(zero[i + 1] == s[i]);
            }
        }
    }
}

proof fn zero_does_not_count(s: Seq<char>)
    ensures
        digits_value(seq!['0'] + s) == digits_value(s),
    decreases s.len(),
{
    let zero = seq!['0'] + s;
    if s.len() == 0 {
        assert(zero.drop_last() =~= Seq::<char>::empty());
        assert(digits_value(zero.drop_last()) == 0);
    } else {
        assert(zero.drop_last() =~= seq!['0'] + s.drop_last());
        zero_does_not_count(s.drop_last());
    }
}

/// A text is filled up with zeros in front to a width, and a longer one stays.
pub proof fn zeros_fill_up(s: Seq<char>, width: nat)
    ensures
        s.len() >= width ==> zero_padded(s, width) == s,
        s.len() < width ==> zero_padded(s, width).len() == width && zero_padded(s, width).skip(
            width - s.len(),
        ) == s && forall|i: int|
            0 <= i < width - s.len() ==> #[trigger] zero_padded(s, width)[i] == '0',
{
    if s.len() < width {
        assert(zero_padded(s, width).skip(width - s.len()) =~= s);
    }
}

} // verus!
