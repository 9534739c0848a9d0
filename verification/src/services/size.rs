//! Sizes as `df -h` prints them, in whole mebibytes.

use vstd::prelude::*;
use vstd::arithmetic::div_mod::{
    lemma_basic_div, lemma_div_denominator, lemma_div_is_ordered, lemma_hoist_over_denominator,
};
use crate::number::{
    CharClass, all_digits, decimal_value, digit_value, is_digit, is_plain_decimal, lemma_run_end,
    plain_decimal, run_end, scan_run, without_minus,
};
use crate::text::{has_char, slice};

verus! {

/// Ten to the power `n`.
pub open spec fn pow10(n: nat) -> nat
    decreases n,
{
    if n == 0 {
        1
    } else {
        10 * pow10((n - 1) as nat)
    }
}

/// The numeral that `upper` begins with: its digits and points up to the
/// first other character.
pub open spec fn leading_numeral(upper: Seq<char>) -> Seq<char> {
    upper.take(run_end(upper, CharClass::DigitOrPoint, true, 0))
}

/// The digits of the numeral `p` before its point.
pub open spec fn int_digits(p: Seq<char>) -> Seq<char> {
    p.take(run_end(p, CharClass::Digit, true, 0))
}

/// The digits of the numeral `p` after its point.
pub open spec fn frac_digits(p: Seq<char>) -> Seq<char> {
    let point = run_end(p, CharClass::Digit, true, 0);
    if point < p.len() {
        p.skip(point + 1)
    } else {
        Seq::empty()
    }
}

/// By what a number with the unit named in `upper` is multiplied, and by
/// what it is divided, to give mebibytes. The first of G, T, K, M found,
/// in this order, decides; without any of them the number counts bytes.
pub open spec fn unit_of(upper: Seq<char>) -> (nat, nat) {
    if upper.contains('G') {
        (1024, 1)
    } else if upper.contains('T') {
        (1024 * 1024, 1)
    } else if upper.contains('K') {
        (1, 1024)
    } else if upper.contains('M') {
        (1, 1)
    } else {
        (1, 1024 * 1024)
    }
}

/// The numeral `p`, times `mul`, over `div`, rounded down.
pub open spec fn scaled(p: Seq<char>, mul: nat, div: nat) -> nat {
    let places = frac_digits(p).len();
    ((decimal_value(int_digits(p)) * pow10(places) + decimal_value(frac_digits(p))) * mul) / (pow10(
        places,
    ) * div)
}

/// The size in whole mebibytes that the upper-case text `upper` states:
/// its leading numeral, scaled by its unit and rounded down; at most the
/// largest `u64`; zero where it begins with no plain decimal.
pub open spec fn size_of(upper: Seq<char>) -> nat {
    let p = leading_numeral(upper);
    if !is_plain_decimal(p) {
        0
    } else {
        let unit = unit_of(upper);
        let exact = scaled(p, unit.0, unit.1);
        if exact > u64::MAX {
            u64::MAX as nat
        } else {
            exact
        }
    }
}

/// `digits` times `mul`, rounded down as a fraction in the unit interval:
/// the digits stand after the point.
pub open spec fn frac_floor(digits: Seq<char>, mul: nat) -> nat
    decreases digits.len(),
{
    if digits.len() == 0 {
        0
    } else {
        (digit_value(digits[0]) * mul + frac_floor(digits.drop_first(), mul)) / 10
    }
}

/// Powers of ten are positive.
pub proof fn lemma_pow10_positive(n: nat)
    ensures
        pow10(n) > 0,
    decreases n,
{
    if n > 0 {
        lemma_pow10_positive((n - 1) as nat);
    }
}

/// The value of a numeral is that of its first digit, shifted, plus that
/// of the rest.
pub proof fn lemma_decimal_value_head(s: Seq<char>)
    requires
        s.len() > 0,
    ensures
        decimal_value(s) == digit_value(s[0]) * pow10((s.len() - 1) as nat) + decimal_value(
            s.drop_first(),
        ),
    decreases s.len(),
{
    if s.len() == 1 {
        assert(s.drop_last() =~= Seq::<char>::empty());
        assert(s.drop_first() =~= Seq::<char>::empty());
        assert(decimal_value(s.drop_last()) == 0);
        assert(decimal_value(s.drop_first()) == 0);
        assert(s.last() == s[0]);
        assert(pow10(0) == 1);
        assert(decimal_value(s) == decimal_value(s.drop_last()) * 10 + digit_value(s.last()));
        let a = digit_value(s[0]) as int;
        assert(a * 1 == a);
    } else {
        let front = s.drop_last();
        let tail = s.drop_first();
        lemma_decimal_value_head(front);
        assert(front.drop_first() =~= tail.drop_last());
        assert(front[0] == s[0]);
        assert(tail.last() == s.last());
        let a = digit_value(s[0]) as int;
        let p = pow10((s.len() - 2) as nat) as int;
        let x = decimal_value(front.drop_first()) as int;
        let d = digit_value(s.last()) as int;
        assert(pow10((s.len() - 1) as nat) == 10 * pow10((s.len() - 2) as nat));
        assert(decimal_value(front) == a * p + x);
        assert(decimal_value(s) == decimal_value(front) * 10 + d);
        assert(decimal_value(tail) == decimal_value(tail.drop_last()) * 10 + digit_value(
            tail.last(),
        ));
        assert(decimal_value(tail) == x * 10 + d);
        assert((a * p + x) * 10 + d == a * (10 * p) + (x * 10 + d)) by (nonlinear_arith);
    }
}

/// A numeral of `n` digits is less than ten to the `n`.
pub proof fn lemma_decimal_value_bound(s: Seq<char>)
    requires
        all_digits(s),
    ensures
        decimal_value(s) < pow10(s.len()),
    decreases s.len(),
{
    if s.len() > 0 {
        lemma_decimal_value_bound(s.drop_last());
        assert(is_digit(s.last()));
        assert(digit_value(s.last()) <= 9);
    }
}

/// Rounding down digit by digit, from the last to the first, gives what
/// rounding down the whole product gives.
pub proof fn lemma_frac_floor(digits: Seq<char>, mul: nat)
    ensures
        frac_floor(digits, mul) == (decimal_value(digits) * mul) / pow10(digits.len()),
    decreases digits.len(),
{
    if digits.len() == 0 {
        assert(pow10(0) == 1);
        assert(decimal_value(digits) == 0);
        assert((0 * mul) / 1 == 0) by (nonlinear_arith);
    } else {
        let rest = digits.drop_first();
        lemma_frac_floor(rest, mul);
        lemma_decimal_value_head(digits);
        lemma_pow10_positive(rest.len());
        let a = digit_value(digits[0]) as int;
        let p = pow10(rest.len()) as int;
        let g = decimal_value(rest) as int;
        let m = mul as int;
        let y = g * m;
        assert(y >= 0) by (nonlinear_arith)
            requires
                y == g * m,
                g >= 0,
                m >= 0,
        ;
        assert(pow10(digits.len()) == 10 * p);
        assert((a * p + g) * m == y + (a * m) * p) by (nonlinear_arith)
            requires
                y == g * m,
        ;
        assert(a * m >= 0) by (nonlinear_arith)
            requires
                a >= 0,
                m >= 0,
        ;
        let x = y + (a * m) * p;
        assert(x >= 0) by (nonlinear_arith)
            requires
                x == y + (a * m) * p,
                y >= 0,
                a * m >= 0,
                p > 0,
        ;
        lemma_hoist_over_denominator(y, a * m, p as nat);
        assert(y / p + a * m == x / p);
        lemma_div_denominator(x, p, 10);
        assert((x / p) / 10 == x / (p * 10));
        assert(p * 10 == 10 * p);
    }
}

/// The scaled value of a plain decimal, taken apart: a multiplication
/// keeps the whole part exactly and rounds the fraction down; a division
/// never sees the fraction.
pub proof fn lemma_scaled(p: Seq<char>, mul: nat, div: nat)
    requires
        all_digits(frac_digits(p)),
        mul >= 1,
        div >= 1,
        mul == 1 || div == 1,
    ensures
        div == 1 ==> scaled(p, mul, div) == decimal_value(int_digits(p)) * mul + frac_floor(
            frac_digits(p),
            mul,
        ),
        mul == 1 ==> scaled(p, mul, div) == decimal_value(int_digits(p)) / div,
{
    let places = frac_digits(p).len();
    let t = pow10(places) as int;
    let i = decimal_value(int_digits(p)) as int;
    let f = decimal_value(frac_digits(p)) as int;
    let m = mul as int;
    lemma_pow10_positive(places);
    lemma_decimal_value_bound(frac_digits(p));
    if div == 1 {
        lemma_frac_floor(frac_digits(p), mul);
        assert((i * t + f) * m == f * m + (i * m) * t) by (nonlinear_arith);
        lemma_hoist_over_denominator(f * m, i * m, t as nat);
        assert(t * 1 == t);
        assert(i * m >= 0) by (nonlinear_arith)
            requires
                i >= 0,
                m >= 0,
        ;
        assert((f * m) / t >= 0) by (nonlinear_arith)
            requires
                f >= 0,
                m >= 0,
                t > 0,
        ;
        if mul == 1 {
            assert(f * m == f) by (nonlinear_arith)
                requires
                    m == 1,
            ;
            assert(i * m == i) by (nonlinear_arith)
                requires
                    m == 1,
            ;
            lemma_basic_div(f, t);
            assert(i / 1 == i);
        }
    } else {
        let d = div as int;
        assert((i * t + f) * m == f + i * t) by (nonlinear_arith)
            requires
                m == 1,
        ;
        assert(i * t + f >= 0) by (nonlinear_arith)
            requires
                i >= 0,
                t > 0,
                f >= 0,
        ;
        lemma_div_denominator(i * t + f, t, d);
        lemma_hoist_over_denominator(f, i, t as nat);
        lemma_basic_div(f, t);
        assert((f + i * t) / t == i);
        assert(i / d >= 0) by (nonlinear_arith)
            requires
                i >= 0,
                d > 0,
        ;
    }
}

/// Beyond this many mebibytes, times or over any unit, a size is larger
/// than the largest `u64`: two to the power 84.
pub const WHOLE_CAP: u128 = 0x1_0000_0000_0000_0000_0000_0;

/// The smaller of `value` and the cap.
pub open spec fn capped(value: nat) -> nat {
    if value >= WHOLE_CAP {
        WHOLE_CAP as nat
    } else {
        value
    }
}

/// The value of the digits of `s` from `from` up to `to`, or the cap where
/// the value reaches it.
fn capped_value(s: &Vec<char>, from: usize, to: usize) -> (value: u128)
    requires
        from <= to <= s.len(),
        all_digits(s@.subrange(from as int, to as int)),
    ensures
        value == capped(decimal_value(s@.subrange(from as int, to as int))),
{
    let ghost digits = s@.subrange(from as int, to as int);
    let mut acc: u128 = 0;
    let mut i: usize = from;
    proof {
        assert(digits.take(0) =~= Seq::<char>::empty());
    }
    while i < to
        invariant
            from <= i <= to <= s.len(),
            digits == s@.subrange(from as int, to as int),
            all_digits(digits),
            acc == capped(decimal_value(digits.take(i - from))),
        decreases to - i,
    {
        let c: char = s[i];
        proof {
            assert(digits[i - from] == c);
            assert(is_digit(digits[i - from]));
            assert(digits.take(i - from + 1).drop_last() =~= digits.take(i - from));
            assert(digits.take(i - from + 1).last() == c);
        }
        let d: u128 = (c as u32 - '0' as u32) as u128;
        let next: u128 = acc * 10 + d;
        acc = if next >= WHOLE_CAP {
            WHOLE_CAP
        } else {
            next
        };
        i += 1;
    }
    proof {
        assert(digits.take(to - from) =~= digits);
    }
    acc
}

/// The digits `s`, read after the point and multiplied by `mul`, rounded
/// down.
fn fraction_floor(s: &Vec<char>, mul: u64) -> (value: u64)
    requires
        all_digits(s@),
        1 <= mul <= 0x10_0000,
    ensures
        value == frac_floor(s@, mul as nat),
        value < mul,
{
    let mut acc: u64 = 0;
    let mut i: usize = s.len();
    proof {
        assert(s@.skip(i as int) =~= Seq::<char>::empty());
    }
    while i > 0
        invariant
            i <= s.len(),
            all_digits(s@),
            1 <= mul <= 0x10_0000,
            acc == frac_floor(s@.skip(i as int), mul as nat),
            acc < mul,
        decreases i,
    {
        let c: char = s[i - 1];
        proof {
            assert(is_digit(s@[i - 1]));
            assert(s@.skip(i - 1).drop_first() =~= s@.skip(i as int));
            assert(s@.skip(i - 1)[0] == c);
        }
        let d: u64 = (c as u32 - '0' as u32) as u64;
        proof {
            assert(d == digit_value(c));
            assert(d <= 9);
            assert(d * mul <= 9 * mul) by (nonlinear_arith)
                requires
                    d <= 9,
                    mul >= 1,
            ;
        }
        acc = (d * mul + acc) / 10;
        i -= 1;
    }
    proof {
        assert(s@.skip(0) =~= s@);
    }
    acc
}

/// The parts of a plain decimal that begins a text are runs of digits.
pub proof fn lemma_numeral_parts(upper: Seq<char>)
    requires
        is_plain_decimal(leading_numeral(upper)),
    ensures
        all_digits(int_digits(leading_numeral(upper))),
        all_digits(frac_digits(leading_numeral(upper))),
{
    let p = leading_numeral(upper);
    lemma_run_end(upper, CharClass::DigitOrPoint, true, 0);
    lemma_run_end(p, CharClass::Digit, true, 0);
    let point = run_end(p, CharClass::Digit, true, 0);
    assert(p.len() > 0);
    assert(p[0] == upper[0]);
    assert(without_minus(p) == p);
    assert forall|j: int| 0 <= j < int_digits(p).len() implies is_digit(
        #[trigger] int_digits(p)[j],
    ) by {
        assert(int_digits(p)[j] == p[j]);
    }
    if point < p.len() {
        assert(p[point] == upper[point]);
        assert(p[point] == '.');
        assert forall|j: int| 0 <= j < frac_digits(p).len() implies is_digit(
            #[trigger] frac_digits(p)[j],
        ) by {
            let at = point + 1 + j;
            assert(frac_digits(p)[j] == p[at]);
            assert(p[at] == upper[at]);
            if p[at] == '.' {
                assert(at == point);
            }
        }
    }
}

/// The size in whole mebibytes that the upper-case text `upper` states.
pub fn size_of_upper(upper: &Vec<char>) -> (size: u64)
    ensures
        size == size_of(upper@),
{
    let end: usize = scan_run(upper, CharClass::DigitOrPoint, true, 0);
    let p: Vec<char> = slice(upper, 0, end);
    proof {
        assert(p@ =~= leading_numeral(upper@));
    }
    if !plain_decimal(&p) {
        return 0;
    }
    let point: usize = scan_run(&p, CharClass::Digit, true, 0);
    let frac: Vec<char> = if point < p.len() {
        slice(&p, point + 1, p.len())
    } else {
        Vec::new()
    };
    proof {
        lemma_numeral_parts(upper@);
        assert(p@.subrange(0, point as int) =~= int_digits(p@));
        assert(frac@ =~= frac_digits(p@));
    }
    let whole: u128 = capped_value(&p, 0, point);
    let (mul, div): (u64, u64) = if has_char(upper, 'G') {
        (1024, 1)
    } else if has_char(upper, 'T') {
        (1024 * 1024, 1)
    } else if has_char(upper, 'K') {
        (1, 1024)
    } else if has_char(upper, 'M') {
        (1, 1)
    } else {
        (1, 1024 * 1024)
    };
    proof {
        lemma_scaled(p@, mul as nat, div as nat);
    }
    let ghost exact_whole = decimal_value(int_digits(p@));
    let scaled_value: u128 = if div == 1 {
        let part: u64 = fraction_floor(&frac, mul);
        proof {
            assert(whole * mul <= WHOLE_CAP * 0x10_0000) by (nonlinear_arith)
                requires
                    whole <= WHOLE_CAP,
                    mul <= 0x10_0000,
            ;
            if exact_whole >= WHOLE_CAP {
                assert(exact_whole * mul >= WHOLE_CAP) by (nonlinear_arith)
                    requires
                        exact_whole >= WHOLE_CAP,
                        mul >= 1,
                ;
                assert(whole * mul >= WHOLE_CAP) by (nonlinear_arith)
                    requires
                        whole >= WHOLE_CAP,
                        mul >= 1,
                ;
            }
        }
        whole * (mul as u128) + part as u128
    } else {
        proof {
            if exact_whole >= WHOLE_CAP {
                lemma_div_is_ordered(WHOLE_CAP as int, exact_whole as int, div as int);
                assert(WHOLE_CAP as int / (div as int) > u64::MAX) by {
                    assert(div == 1024 || div == 1024 * 1024);
                }
            }
        }
        whole / (div as u128)
    };
    if scaled_value > u64::MAX as u128 {
        u64::MAX
    } else {
        scaled_value as u64
    }
}

} // verus!
