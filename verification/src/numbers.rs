//! Numbers in text: decimal digits, written and read, and sizes in bytes.
use vstd::prelude::*;

use crate::text::chars_of;

verus! {

/// `c` is one of the ten ASCII digits.
pub open spec fn ascii_digit(c: char) -> bool {
    '0' <= c <= '9'
}

/// Whether `c` is one of the ten ASCII digits.
pub fn is_ascii_digit(c: char) -> (r: bool)
    ensures
        r == ascii_digit(c),
{
    '0' <= c && c <= '9'
}

/// The ASCII digit for a number below ten.
pub open spec fn digit_char(d: nat) -> char
    recommends
        d < 10,
{
    seq!['0', '1', '2', '3', '4', '5', '6', '7', '8', '9'][d as int]
}

/// The ASCII digit for a number below ten.
fn digit(d: u64) -> (r: char)
    requires
        d < 10,
    ensures
        r == digit_char(d as nat),
{
    match d {
        0 => '0',
        1 => '1',
        2 => '2',
        3 => '3',
        4 => '4',
        5 => '5',
        6 => '6',
        7 => '7',
        8 => '8',
        _ => '9',
    }
}

/// `n` written in decimal, without leading zeros.
pub open spec fn decimal(n: nat) -> Seq<char>
    decreases n,
{
    if n < 10 {
        seq![digit_char(n)]
    } else {
        decimal(n / 10).push(digit_char(n % 10))
    }
}

/// `n` written in decimal.
pub fn to_decimal(n: u64) -> (r: String)
    ensures
        r@ == decimal(n as nat),
    decreases n,
{
    if n < 10 {
        let mut out = String::new();
        out.push(digit(n));
        assert(out@ == seq![digit_char(n as nat)]);
        out
    } else {
        let mut out = to_decimal(n / 10);
        out.push(digit(n % 10));
        out
    }
}

/// `n` written in decimal.
pub fn size_to_decimal(n: usize) -> (r: String)
    ensures
        r@ == decimal(n as nat),
{
    to_decimal(n as u64)
}

/// The number that a digit stands for.
pub open spec fn digit_value(c: char) -> nat
    recommends
        ascii_digit(c),
{
    (c as u32 - '0' as u32) as nat
}

/// The number that a row of digits stands for.
pub open spec fn value_of(s: Seq<char>) -> nat
    decreases s.len(),
{
    if s.len() == 0 {
        0
    } else {
        10 * value_of(s.drop_last()) + digit_value(s.last())
    }
}

/// `s` is a row of one or more digits.
pub open spec fn all_digits(s: Seq<char>) -> bool {
    s.len() > 0 && forall|i: int| 0 <= i < s.len() ==> ascii_digit(#[trigger] s[i])
}

/// `s` without a plus sign in front.
pub open spec fn unsigned_part(s: Seq<char>) -> Seq<char> {
    if s.len() > 0 && s[0] == '+' {
        s.skip(1)
    } else {
        s
    }
}

/// The number that `s` writes in decimal, with or without a plus sign in
/// front, if it fits 64 bits.
pub open spec fn number_in(s: Seq<char>) -> Option<u64> {
    let digits = unsigned_part(s);
    if all_digits(digits) && value_of(digits) <= u64::MAX {
        Some(value_of(digits) as u64)
    } else {
        None
    }
}

/// More digits behind never make the number smaller.
proof fn lemma_value_grows(s: Seq<char>, n: int)
    requires
        0 <= n <= s.len(),
        all_digits(s),
    ensures
        value_of(s.take(n)) <= value_of(s),
    decreases s.len() - n,
{
    if n < s.len() {
        lemma_value_grows(s, n + 1);
        assert(s.take(n + 1).drop_last() == s.take(n));
    } else {
        assert(s.take(n) == s);
    }
}

/// The number that `s` writes in decimal, if it is one and fits 64 bits.
pub fn parse_u64(s: &str) -> (r: Option<u64>)
    ensures
        r == number_in(s@),
{
    let v = chars_of(s);
    let from: usize = if v.len() > 0 && v[0] == '+' {
        1
    } else {
        0
    };
    let ghost digits = unsigned_part(s@);
    assert(digits == v@.skip(from as int));
    if from == v.len() {
        return None;
    }
    let mut n: u64 = 0;
    let mut i: usize = from;
    assert(digits.take(0) == Seq::<char>::empty());
    while i < v.len()
        invariant
            from <= i <= v@.len(),
            from < v@.len(),
            digits == v@.skip(from as int),
            digits == unsigned_part(s@),
            forall|k: int| 0 <= k < i - from ==> ascii_digit(#[trigger] digits[k]),
            n == value_of(digits.take(i - from)),
        decreases v@.len() - i,
    {
        let c = v[i];
        assert(digits[i - from] == c);
        if !is_ascii_digit(c) {
            return None;
        }
        assert(digits.take(i - from + 1).drop_last() == digits.take(i - from));
        let d: u64 = c as u64 - '0' as u64;
        let next: u128 = n as u128 * 10 + d as u128;
        assert(next == value_of(digits.take(i - from + 1)));
        if next > u64::MAX as u128 {
            proof {
                if all_digits(digits) {
                    lemma_value_grows(digits, i - from + 1);
                }
            }
            return None;
        }
        n = next as u64;
        i += 1;
    }
    assert(digits.take(i - from) == digits);
    Some(n)
}

// ---------------------------------------------------------------------------
// Sizes
// ---------------------------------------------------------------------------

/// `a / d` to the nearest whole number; a tie goes to the even one.
pub open spec fn rounded_quotient(a: nat, d: nat) -> nat
    recommends
        d > 0,
{
    let q = a / d;
    let twice = 2 * (a % d);
    if twice > d || (twice == d && q % 2 == 1) {
        q + 1
    } else {
        q
    }
}

/// `a / d` to the nearest whole number; a tie goes to the even one.
fn round_quotient(a: u128, d: u128) -> (r: u128)
    requires
        0 < d < 0x1_0000_0000_0000_0000,
        a < 0x1_0000_0000_0000_0000_0000_0000,
    ensures
        r == rounded_quotient(a as nat, d as nat),
{
    let q = a / d;
    let twice = (a % d) * 2;
    assert(a / d <= a) by (nonlinear_arith)
        requires
            d > 0,
    ;
    if twice > d || (twice == d && q % 2 == 1) {
        q + 1
    } else {
        q
    }
}

/// The distance between the numbers with 53 significant bits around `n`.
pub open spec fn spacing(n: nat) -> nat
    decreases n,
{
    if n < 0x20_0000_0000_0000 {
        1
    } else {
        2 * spacing(n / 2)
    }
}

/// The number with 53 significant bits that is nearest to `n`: `n` itself
/// below two to the power 53.
pub open spec fn nearest_53_bit(n: nat) -> nat {
    rounded_quotient(n, spacing(n)) * spacing(n)
}

/// The spacing is at least one and, from two to the power 53 on, small
/// against the number.
proof fn lemma_spacing(n: nat)
    ensures
        spacing(n) >= 1,
        spacing(n) == 1 || spacing(n) * 0x10_0000_0000_0000 <= n,
    decreases n,
{
    if n >= 0x20_0000_0000_0000 {
        lemma_spacing(n / 2);
        if spacing(n / 2) != 1 {
            assert(2 * (n / 2) <= n);
        }
    }
}

/// The spacing around `n`.
fn find_spacing(n: u64) -> (r: u64)
    ensures
        r == spacing(n as nat),
        1 <= r <= 4096,
    decreases n,
{
    proof {
        lemma_spacing(n as nat);
        lemma_spacing((n / 2) as nat);
    }
    if n < 0x20_0000_0000_0000 {
        1
    } else {
        2 * find_spacing(n / 2)
    }
}

/// Which unit a size is given in: how often it can be divided by 1024, three
/// times at most.
pub open spec fn unit_index(n: nat) -> nat {
    if n < 1024 {
        0
    } else if n < 1024 * 1024 {
        1
    } else if n < 1024 * 1024 * 1024 {
        2
    } else {
        3
    }
}

/// The number of bytes in a unit.
pub open spec fn unit_bytes(unit: nat) -> nat {
    if unit == 0 {
        1
    } else if unit == 1 {
        1024
    } else if unit == 2 {
        1024 * 1024
    } else {
        1024 * 1024 * 1024
    }
}

/// The name of a unit.
pub open spec fn unit_name(unit: nat) -> Seq<char> {
    if unit == 0 {
        "B"@
    } else if unit == 1 {
        "KB"@
    } else if unit == 2 {
        "MB"@
    } else {
        "GB"@
    }
}

/// A number of hundredths, with a decimal point and two digits behind it.
pub open spec fn hundredths_text(h: nat) -> Seq<char> {
    decimal(h / 100) + "."@ + seq![digit_char((h % 100) / 10), digit_char(h % 10)]
}

/// How a size is shown: to two decimals, in the largest unit that is not
/// larger than the size. Sizes are rounded to 53 significant bits first.
pub open spec fn size_text(bytes: nat) -> Seq<char> {
    if bytes == 0 {
        "0 B"@
    } else {
        let n = nearest_53_bit(bytes);
        let unit = unit_index(n);
        hundredths_text(rounded_quotient(n * 100, unit_bytes(unit))) + " "@ + unit_name(unit)
    }
}

/// A size in bytes, for people to read.
pub fn format_bytes(bytes: u64) -> (r: String)
    ensures
        r@ == size_text(bytes as nat),
{
    if bytes == 0 {
        return "0 B".to_string();
    }
    let step = find_spacing(bytes);
    let steps = round_quotient(bytes as u128, step as u128);
    proof {
        let q = bytes as nat / step as nat;
        assert(q * step <= bytes) by (nonlinear_arith)
            requires
                q == bytes as nat / step as nat,
                step > 0,
        ;
        assert((q + 1) * step == q * step + step) by (nonlinear_arith);
        assert(steps == q || steps == q + 1);
    }
    let n: u128 = steps * step as u128;
    let (unit, name): (u128, &str) = if n < 1024 {
        (1, "B")
    } else if n < 1024 * 1024 {
        (1024, "KB")
    } else if n < 1024 * 1024 * 1024 {
        (1024 * 1024, "MB")
    } else {
        (1024 * 1024 * 1024, "GB")
    };
    let h: u128 = round_quotient(n * 100, unit);
    assert(h / 100 <= u64::MAX) by {
        if unit == 1 {
            assert(h == n * 100);
        } else {
            assert(n * 100 / unit as int <= n * 100 / 1024) by (nonlinear_arith)
                requires
                    unit >= 1024,
                    n >= 0,
            ;
        }
    }
    let mut out = to_decimal((h / 100) as u64);
    out.append(".");
    out.push(digit(((h % 100) / 10) as u64));
    out.push(digit((h % 10) as u64));
    assert(out@ == hundredths_text(h as nat));
    out.append(" ");
    out.append(name);
    out
}

/// The digits are the ten ASCII digits, each for its number.
pub proof fn law_digits_by_code_point(c: char)
    ensures
        ascii_digit(c) <==> 48 <= c as int <= 57,
{
}

/// A number is written by its last digit behind the digits of what is left of it
/// without that digit; a number below ten is one digit.
pub proof fn law_decimal_ends_with_the_last_digit(n: nat)
    ensures
        decimal(n).len() > 0,
        decimal(n).last() as int == 48 + n % 10,
        n < 10 ==> decimal(n).len() == 1,
        n >= 10 ==> decimal(n).drop_last() == decimal(n / 10),
{
    assert(digit_char(n % 10) as int == 48 + n % 10);
    if n >= 10 {
        assert(decimal(n).drop_last() == decimal(n / 10));
    }
}

/// One more digit behind others makes ten times their number and its own.
pub proof fn law_value_goes_digit_by_digit(s: Seq<char>, c: char)
    requires
        48 <= c as int <= 57,
    ensures
        value_of(Seq::empty()) == 0,
        value_of(s.push(c)) == 10 * value_of(s) + (c as int - 48),
{
    assert(s.push(c).drop_last() == s);
}

proof fn lemma_decimal_value(n: nat)
    ensures
        all_digits(decimal(n)),
        value_of(decimal(n)) == n,
    decreases n,
{
    let s = decimal(n);
    law_decimal_ends_with_the_last_digit(n);
    if n >= 10 {
        lemma_decimal_value(n / 10);
        let front = decimal(n / 10);
        assert forall|i: int| 0 <= i < s.len() implies ascii_digit(#[trigger] s[i]) by {
            if i < front.len() {
                assert(s[i] == front[i]);
            }
        }
    } else {
        assert(s.drop_last() == Seq::<char>::empty());
        assert(value_of(s.drop_last()) == 0);
    }
}

/// A number that was written is read again, with or without a plus sign.
pub proof fn law_written_numbers_are_read(n: u64)
    ensures
        number_in(decimal(n as nat)) == Some(n),
        number_in(seq!['+'] + decimal(n as nat)) == Some(n),
{
    let s = decimal(n as nat);
    lemma_decimal_value(n as nat);
    assert(ascii_digit(s[0]));
    assert((seq!['+'] + s).skip(1) == s);
}

/// What is read as a number is one or more digits, with or without one plus sign
/// in front, whose value fits 64 bits; and that value is what is read.
pub proof fn law_just_digits_are_numbers(s: Seq<char>, digits: Seq<char>)
    requires
        s == seq!['+'] + digits || (s == digits && (s.len() > 0 ==> s[0] != '+')),
    ensures
        number_in(s) is Some <==> digits.len() > 0 && (forall|i: int|
            0 <= i < digits.len() ==> 48 <= (#[trigger] digits[i]) as int <= 57) && value_of(
            digits,
        ) <= 0xffff_ffff_ffff_ffff,
        number_in(s) matches Some(n) ==> n == value_of(digits),
{
    if s == seq!['+'] + digits {
        assert(s[0] == '+');
        assert(s.skip(1) == digits);
    }
    assert(unsigned_part(s) == digits);
    if all_digits(digits) {
        assert forall|i: int| 0 <= i < digits.len() implies 48 <= (#[trigger] digits[i]) as int
            <= 57 by {
            assert(ascii_digit(digits[i]));
        }
    }
    if forall|i: int| 0 <= i < digits.len() ==> 48 <= (#[trigger] digits[i]) as int <= 57 {
        assert forall|i: int| 0 <= i < digits.len() implies ascii_digit(#[trigger] digits[i]) by {
            assert(48 <= digits[i] as int <= 57);
        }
    }
}

/// A quotient is rounded to a whole number that is at most half a divisor away
/// and, where it is just that far away, even.
pub proof fn law_quotient_is_rounded_to_the_nearest(a: nat, d: nat)
    requires
        d > 0,
    ensures
        ({
            let off = rounded_quotient(a, d) * d - a;
            &&& -d <= 2 * off <= d
            &&& 2 * off == d || 2 * off == -d ==> rounded_quotient(a, d) % 2 == 0
        }),
{
    vstd::arithmetic::div_mod::lemma_fundamental_div_mod(a as int, d as int);
    let q = a / d;
    assert(q * d == d * q && (q + 1) * d == d * q + d) by (nonlinear_arith);
    assert(0 <= a % d < d);
}

/// Below two to the power 53 a number is shown as it is. From there on it is
/// rounded to a multiple of a power of two that goes into it fewer than two to the
/// power 53 times, and at least half as many times.
pub proof fn law_large_sizes_are_rounded(n: nat)
    ensures
        n < 0x20_0000_0000_0000 ==> nearest_53_bit(n) == n,
        n >= 0x20_0000_0000_0000 ==> spacing(n) * 0x10_0000_0000_0000 <= n < spacing(n)
            * 0x20_0000_0000_0000,
        n >= 0x20_0000_0000_0000 ==> spacing(n) == 2 * spacing(n / 2),
        n < 0x20_0000_0000_0000 ==> spacing(n) == 1,
        -spacing(n) <= 2 * (nearest_53_bit(n) - n) <= spacing(n),
        nearest_53_bit(n) == rounded_quotient(n, spacing(n)) * spacing(n),
{
    lemma_spacing(n);
    lemma_spacing_upper(n);
    law_quotient_is_rounded_to_the_nearest(n, spacing(n));
    if n >= 0x20_0000_0000_0000 && spacing(n) == 1 {
        lemma_spacing(n / 2);
    }
}

proof fn lemma_spacing_upper(n: nat)
    ensures
        n < spacing(n) * 0x20_0000_0000_0000,
    decreases n,
{
    if n >= 0x20_0000_0000_0000 {
        lemma_spacing_upper(n / 2);
    }
}

/// A size is shown in hundredths of its unit, rounded: in bytes below 1024, in
/// kilobytes below 1024 of those, in megabytes below 1024 of those, and in
/// gigabytes from there on.
pub proof fn law_size_is_shown_in_its_unit(bytes: nat)
    ensures
        bytes == 0 ==> size_text(bytes) == "0 B"@,
        bytes > 0 ==> {
            let n = nearest_53_bit(bytes);
            let (unit, name) = if n < 1024 {
                (1nat, "B"@)
            } else if n < 1_048_576 {
                (1024nat, "KB"@)
            } else if n < 1_073_741_824 {
                (1_048_576nat, "MB"@)
            } else {
                (1_073_741_824nat, "GB"@)
            };
            let h = rounded_quotient(n * 100, unit);
            size_text(bytes) == decimal(h / 100) + "."@ + decimal((h / 10) % 10) + decimal(h % 10)
                + " "@ + name
        },
{
    if bytes > 0 {
        let n = nearest_53_bit(bytes);
        let h = rounded_quotient(n * 100, unit_bytes(unit_index(n)));
        assert((h % 100) / 10 == (h / 10) % 10);
        assert(seq![digit_char((h % 100) / 10), digit_char(h % 10)] == decimal((h / 10) % 10)
            + decimal(h % 10));
        let front = decimal(h / 100) + "."@;
        assert(front + seq![digit_char((h % 100) / 10), digit_char(h % 10)] == front + decimal(
            (h / 10) % 10,
        ) + decimal(h % 10));
    }
}

} // verus!
