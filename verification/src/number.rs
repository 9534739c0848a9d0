//! Decimal numerals.

use vstd::prelude::*;
use crate::text::{same_chars, slice, to_chars};

verus! {

/// Whether `c` is one of the digits `0` to `9`.
pub open spec fn is_digit(c: char) -> bool {
    '0' <= c && c <= '9'
}

/// The value of the digit `c`.
pub open spec fn digit_value(c: char) -> nat {
    (c as nat - '0' as nat) as nat
}

/// Whether `s` holds digits only.
pub open spec fn all_digits(s: Seq<char>) -> bool {
    forall|i: int| 0 <= i < s.len() ==> is_digit(#[trigger] s[i])
}

/// The number that the digits `s` denote; leading zeros do not count.
pub open spec fn decimal_value(s: Seq<char>) -> nat
    decreases s.len(),
{
    if s.len() == 0 {
        0
    } else {
        decimal_value(s.drop_last()) * 10 + digit_value(s.last())
    }
}

/// `s` without a leading plus sign.
pub open spec fn unsigned_digits(s: Seq<char>) -> Seq<char> {
    if s.len() > 0 && s[0] == '+' {
        s.drop_first()
    } else {
        s
    }
}

/// The number up to `max` that `s` denotes as an unsigned decimal numeral:
/// an optional plus sign, then one digit or more and nothing else.
pub open spec fn parse_unsigned(s: Seq<char>, max: nat) -> Option<nat> {
    let digits = unsigned_digits(s);
    if digits.len() > 0 && all_digits(digits) && decimal_value(digits) <= max {
        Some(decimal_value(digits))
    } else {
        None
    }
}

/// `s` without a leading minus sign.
pub open spec fn without_minus(s: Seq<char>) -> Seq<char> {
    if s.len() > 0 && s[0] == '-' {
        s.drop_first()
    } else {
        s
    }
}

/// Whether `s` is a plain decimal numeral: an optional minus sign, then
/// digits with at most one point among them, at least one digit in all.
pub open spec fn is_plain_decimal(s: Seq<char>) -> bool {
    let body = without_minus(s);
    &&& forall|i: int| 0 <= i < body.len() ==> is_digit(#[trigger] body[i]) || body[i] == '.'
    &&& exists|i: int| 0 <= i < body.len() && is_digit(#[trigger] body[i])
    &&& forall|i: int, j: int|
        0 <= i < body.len() && 0 <= j < body.len() && #[trigger] body[i] == '.' && #[trigger] body[j]
            == '.' ==> i == j
}

/// A set of characters that a scan looks for.
#[derive(Debug, Clone, Copy, PartialEq, Eq, Structural)]
pub enum CharClass {
    /// The digits, the point and the minus sign.
    Numeric,
    /// The digits and the point.
    DigitOrPoint,
    /// The digits.
    Digit,
}

/// Whether `c` belongs to `class`.
pub open spec fn in_class(class: CharClass, c: char) -> bool {
    match class {
        CharClass::Numeric => is_digit(c) || c == '.' || c == '-',
        CharClass::DigitOrPoint => is_digit(c) || c == '.',
        CharClass::Digit => is_digit(c),
    }
}

/// The first position at or after `from` at which membership in `class`
/// is not `inside`, or the length of `s`: the end of a run inside the
/// class, or of one outside it.
pub open spec fn run_end(s: Seq<char>, class: CharClass, inside: bool, from: int) -> int
    decreases s.len() - from,
{
    if 0 <= from < s.len() && in_class(class, s[from]) == inside {
        run_end(s, class, inside, from + 1)
    } else {
        from
    }
}

/// A run ends within the text, holds only characters on its side of the
/// class, and is followed, if by anything, by a character of the other.
pub proof fn lemma_run_end(s: Seq<char>, class: CharClass, inside: bool, from: int)
    requires
        0 <= from <= s.len(),
    ensures
        from <= run_end(s, class, inside, from) <= s.len(),
        forall|j: int|
            from <= j < run_end(s, class, inside, from) ==> in_class(class, #[trigger] s[j])
                == inside,
        run_end(s, class, inside, from) < s.len() ==> in_class(
            class,
            s[run_end(s, class, inside, from)],
        ) != inside,
    decreases s.len() - from,
{
    if from < s.len() && in_class(class, s[from]) == inside {
        lemma_run_end(s, class, inside, from + 1);
    }
}

/// A longer run of digits denotes no smaller number.
pub proof fn lemma_decimal_value_grows(s: Seq<char>, k: int)
    requires
        0 <= k <= s.len(),
    ensures
        decimal_value(s.take(k)) <= decimal_value(s),
    decreases s.len(),
{
    if k == s.len() {
        assert(s.take(k) =~= s);
    } else {
        lemma_decimal_value_grows(s.drop_last(), k);
        assert(s.drop_last().take(k) =~= s.take(k));
    }
}

/// Whether `c` is one of the digits `0` to `9`.
pub fn is_ascii_digit(c: char) -> (yes: bool)
    ensures
        yes == is_digit(c),
{
    '0' <= c && c <= '9'
}

/// The number that `s` denotes as an unsigned decimal numeral, where it
/// denotes one that fits.
pub fn parse_u64(s: &Vec<char>) -> (value: Option<u64>)
    ensures
        match value {
            Some(v) => parse_unsigned(s@, u64::MAX as nat) == Some(v as nat),
            None => parse_unsigned(s@, u64::MAX as nat) is None,
        },
{
    let start: usize = if s.len() > 0 && s[0] == '+' {
        1
    } else {
        0
    };
    let ghost digits = unsigned_digits(s@);
    proof {
        assert(digits =~= s@.skip(start as int));
    }
    if start == s.len() {
        return None;
    }
    let mut acc: u64 = 0;
    let mut i: usize = start;
    proof {
        assert(digits.take(0) =~= Seq::<char>::empty());
    }
    while i < s.len()
        invariant
            start <= i <= s.len(),
            digits == s@.skip(start as int),
            digits == unsigned_digits(s@),
            digits.len() > 0,
            all_digits(digits.take(i - start)),
            acc == decimal_value(digits.take(i - start)),
        decreases s.len() - i,
    {
        let c: char = s[i];
        proof {
            assert(digits[i - start] == c);
            assert(digits.take(i - start + 1).drop_last() =~= digits.take(i - start));
            assert(digits.take(i - start + 1).last() == c);
        }
        if !is_ascii_digit(c) {
            return None;
        }
        let d: u64 = (c as u32 - '0' as u32) as u64;
        if acc > (u64::MAX - d) / 10 {
            proof {
                lemma_decimal_value_grows(digits, i - start + 1);
            }
            return None;
        }
        acc = acc * 10 + d;
        i += 1;
    }
    proof {
        assert(digits.take(i - start) =~= digits);
    }
    Some(acc)
}

/// The number that `s` denotes as an unsigned decimal numeral, where it
/// denotes one that fits.
pub fn parse_u32(s: &Vec<char>) -> (value: Option<u32>)
    ensures
        match value {
            Some(v) => parse_unsigned(s@, u32::MAX as nat) == Some(v as nat),
            None => parse_unsigned(s@, u32::MAX as nat) is None,
        },
{
    match parse_u64(s) {
        Some(v) => {
            if v <= 0xffff_ffff {
                Some(v as u32)
            } else {
                None
            }
        },
        None => None,
    }
}

/// Whether `s` is a plain decimal numeral.
pub fn plain_decimal(s: &Vec<char>) -> (yes: bool)
    ensures
        yes == is_plain_decimal(s@),
{
    let start: usize = if s.len() > 0 && s[0] == '-' {
        1
    } else {
        0
    };
    let ghost body = without_minus(s@);
    proof {
        assert(body =~= s@.skip(start as int));
    }
    let mut digits: usize = 0;
    let mut point: Option<usize> = None;
    let mut i: usize = start;
    while i < s.len()
        invariant
            start <= i <= s.len(),
            body == s@.skip(start as int),
            body == without_minus(s@),
            digits <= i - start,
            forall|j: int| 0 <= j < i - start ==> is_digit(#[trigger] body[j]) || body[j] == '.',
            digits > 0 <==> exists|j: int| 0 <= j < i - start && is_digit(#[trigger] body[j]),
            match point {
                Some(p) => start <= p < i && body[p - start] == '.' && forall|j: int|
                    0 <= j < i - start && #[trigger] body[j] == '.' ==> j == p - start,
                None => forall|j: int| 0 <= j < i - start ==> #[trigger] body[j] != '.',
            },
        decreases s.len() - i,
    {
        let c: char = s[i];
        proof {
            assert(body[i - start] == c);
        }
        if is_ascii_digit(c) {
            digits += 1;
        } else if c == '.' {
            if point.is_some() {
                proof {
                    let p = point->0;
                    assert(body[p - start] == '.' && body[i - start] == '.');
                }
                return false;
            }
            point = Some(i);
        } else {
            return false;
        }
        i += 1;
    }
    digits > 0
}

/// Whether `c` belongs to `class`.
pub fn belongs_to(class: CharClass, c: char) -> (yes: bool)
    ensures
        yes == in_class(class, c),
{
    match class {
        CharClass::Numeric => is_ascii_digit(c) || c == '.' || c == '-',
        CharClass::DigitOrPoint => is_ascii_digit(c) || c == '.',
        CharClass::Digit => is_ascii_digit(c),
    }
}

/// The end of the run that begins at `from`.
pub fn scan_run(s: &Vec<char>, class: CharClass, inside: bool, from: usize) -> (end: usize)
    requires
        from <= s.len(),
    ensures
        end == run_end(s@, class, inside, from as int),
        from <= end <= s.len(),
{
    let mut end: usize = from;
    while end < s.len() && belongs_to(class, s[end]) == inside
        invariant
            from <= end <= s.len(),
            run_end(s@, class, inside, from as int) == run_end(s@, class, inside, end as int),
        decreases s.len() - end,
    {
        end += 1;
    }
    end
}

/// The digit that stands for `d`, a number below ten.
pub open spec fn digit_char(d: nat) -> char {
    ((d + 48) as u8) as char
}

/// The decimal numeral of `k`, without leading zeros.
pub open spec fn digits_of(k: nat) -> Seq<char>
    decreases k,
{
    if k < 10 {
        seq![digit_char(k)]
    } else {
        digits_of(k / 10).push(digit_char(k % 10))
    }
}

/// The decimal numeral of a number denotes that number.
pub proof fn lemma_digits_of_value(k: nat)
    ensures
        decimal_value(digits_of(k)) == k,
        digits_of(k).len() >= 1,
    decreases k,
{
    if k < 10 {
        let s = digits_of(k);
        assert(s.drop_last() =~= Seq::<char>::empty());
        assert(decimal_value(s.drop_last()) == 0);
        assert(s.last() == digit_char(k));
        assert(digit_value(digit_char(k)) == k);
    } else {
        lemma_digits_of_value(k / 10);
        let s = digits_of(k);
        assert(s.drop_last() =~= digits_of(k / 10));
        assert(s.last() == digit_char(k % 10));
        assert(digit_value(digit_char(k % 10)) == k % 10);
    }
}

/// The decimal numeral of `k`.
pub fn render_u64(k: u64) -> (digits: Vec<char>)
    ensures
        digits@ == digits_of(k as nat),
    decreases k,
{
    if k < 10 {
        let mut digits: Vec<char> = Vec::new();
        digits.push(((k + 48) as u8) as char);
        proof {
            assert(digits@ =~= seq![digit_char(k as nat)]);
        }
        digits
    } else {
        let mut digits: Vec<char> = render_u64(k / 10);
        digits.push(((k % 10 + 48) as u8) as char);
        digits
    }
}

/// `c` in lower case, where it is one of the letters `A` to `Z`.
pub open spec fn lower(c: char) -> char {
    if 'A' <= c && c <= 'Z' {
        ((c as u8 + 32) as u8) as char
    } else {
        c
    }
}

/// `s` with its letters `A` to `Z` in lower case.
pub open spec fn lowered(s: Seq<char>) -> Seq<char> {
    s.map_values(|c: char| lower(c))
}

/// `s` without a leading sign.
pub open spec fn unsigned_part(s: Seq<char>) -> Seq<char> {
    if s.len() > 0 && (s[0] == '+' || s[0] == '-') {
        s.drop_first()
    } else {
        s
    }
}

/// Whether `x` is what may follow the `e` of a number: an optional sign
/// and one digit or more.
pub open spec fn is_exponent(x: Seq<char>) -> bool {
    unsigned_part(x).len() > 0 && all_digits(unsigned_part(x))
}

/// Whether the lower-case text `b` is a number without sign: digits with
/// at most one point among them and at least one digit, then, if
/// anything, `e` and an exponent.
pub open spec fn is_number(b: Seq<char>) -> bool {
    let end = run_end(b, CharClass::DigitOrPoint, true, 0);
    is_plain_decimal(b.take(end)) && (end == b.len() || (b[end] == 'e' && is_exponent(
        b.skip(end + 1),
    )))
}

/// Whether `s` is a floating-point numeral as the standard library reads
/// one: an optional sign, then a number, or one of `inf`, `infinity` and
/// `nan` in any case.
pub open spec fn is_float_text(s: Seq<char>) -> bool {
    let body = lowered(unsigned_part(s));
    body == seq!['i', 'n', 'f'] || body == seq!['i', 'n', 'f', 'i', 'n', 'i', 't', 'y'] || body
        == seq!['n', 'a', 'n'] || is_number(body)
}

/// `c` in lower case, where it is one of the letters `A` to `Z`.
pub fn to_lower(c: char) -> (l: char)
    ensures
        l == lower(c),
{
    if 'A' <= c && c <= 'Z' {
        ((c as u8) + 32) as char
    } else {
        c
    }
}

/// Whether `s`, from position `from` on, holds digits only, and at least
/// one.
fn digits_from(s: &Vec<char>, from: usize) -> (yes: bool)
    requires
        from <= s.len(),
    ensures
        yes == (s@.skip(from as int).len() > 0 && all_digits(s@.skip(from as int))),
{
    if from == s.len() {
        return false;
    }
    let mut i: usize = from;
    while i < s.len()
        invariant
            from <= i <= s.len(),
            forall|j: int| 0 <= j < i - from ==> is_digit(#[trigger] s@.skip(from as int)[j]),
        decreases s.len() - i,
    {
        if !is_ascii_digit(s[i]) {
            proof {
                assert(s@.skip(from as int)[i - from] == s@[i as int]);
            }
            return false;
        }
        i += 1;
    }
    true
}

/// Whether `s` is a floating-point numeral.
pub fn float_text(s: &Vec<char>) -> (yes: bool)
    ensures
        yes == is_float_text(s@),
{
    let start: usize = if s.len() > 0 && (s[0] == '+' || s[0] == '-') {
        1
    } else {
        0
    };
    let mut body: Vec<char> = Vec::new();
    let mut i: usize = start;
    while i < s.len()
        invariant
            start <= i <= s.len(),
            body.len() == i - start,
            forall|j: int| 0 <= j < i - start ==> #[trigger] body@[j] == lower(s@[start + j]),
        decreases s.len() - i,
    {
        body.push(to_lower(s[i]));
        i += 1;
    }
    proof {
        assert(unsigned_part(s@) =~= s@.skip(start as int));
        assert(body@ =~= lowered(unsigned_part(s@)));
        reveal_strlit("inf");
        reveal_strlit("infinity");
        reveal_strlit("nan");
        assert("inf"@ =~= seq!['i', 'n', 'f']);
        assert("infinity"@ =~= seq!['i', 'n', 'f', 'i', 'n', 'i', 't', 'y']);
        assert("nan"@ =~= seq!['n', 'a', 'n']);
    }
    if same_chars(&body, &to_chars("inf")) || same_chars(&body, &to_chars("infinity"))
        || same_chars(&body, &to_chars("nan")) {
        return true;
    }
    let end: usize = scan_run(&body, CharClass::DigitOrPoint, true, 0);
    let mantissa: Vec<char> = slice(&body, 0, end);
    proof {
        assert(mantissa@ =~= body@.take(end as int));
    }
    if !plain_decimal(&mantissa) {
        return false;
    }
    if end == body.len() {
        return true;
    }
    if body[end] != 'e' {
        return false;
    }
    let rest: usize = end + 1;
    let digits_at: usize = if rest < body.len() && (body[rest] == '+' || body[rest] == '-') {
        rest + 1
    } else {
        rest
    };
    proof {
        let x = body@.skip(rest as int);
        if rest < body.len() {
            assert(x[0] == body@[rest as int]);
        }
        assert(unsigned_part(x) =~= body@.skip(digits_at as int));
    }
    digits_from(&body, digits_at)
}

} // verus!
