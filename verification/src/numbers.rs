//! Numbers as they are written in headers and directives.

use vstd::prelude::*;
use crate::text::{find_char, first_index_of, lemma_first_index_of_bounds, slice_of, to_chars};

verus! {

/// Tells whether `c` is one of the digits `0` to `9`.
pub open spec fn is_digit(c: char) -> bool {
    '0' <= c <= '9'
}

/// The number that a digit stands for.
pub open spec fn digit_value(c: char) -> nat {
    (c as u32 - '0' as u32) as nat
}

/// Tells whether `s` is made of digits only.
pub open spec fn all_digits(s: Seq<char>) -> bool {
    forall|i: int| 0 <= i < s.len() ==> is_digit(#[trigger] s[i])
}

/// The number that a run of digits stands for.
pub open spec fn decimal_value(s: Seq<char>) -> nat
    decreases s.len(),
{
    if s.len() == 0 {
        0
    } else {
        decimal_value(s.drop_last()) * 10 + digit_value(s.last())
    }
}

/// Ten to the power `n`.
pub open spec fn pow10(n: nat) -> nat
    decreases n,
{
    if n == 0 {
        1
    } else {
        10 * pow10((n - 1) as nat)
    }
}

/// The whole number that the digits stand for when the decimal point comes
/// after the first `places` of them, what follows the point left out: with
/// fewer digits than places, zeros fill up; without places, nothing is
/// left.
pub open spec fn shifted_value(digits: Seq<char>, places: int) -> nat {
    if places <= 0 {
        0
    } else if places >= digits.len() {
        decimal_value(digits) * pow10((places - digits.len()) as nat)
    } else {
        decimal_value(digits.take(places))
    }
}

/// A number as a `u64`: the largest one if it does not fit.
pub open spec fn capped(value: nat) -> u64 {
    if value > u64::MAX {
        u64::MAX
    } else {
        value as u64
    }
}

/// Tells whether `s` spells a word, each letter in lower or upper case.
pub open spec fn spells(s: Seq<char>, lower: Seq<char>, upper: Seq<char>) -> bool {
    &&& s.len() == lower.len()
    &&& s.len() == upper.len()
    &&& forall|i: int| 0 <= i < s.len() ==> (#[trigger] s[i]) == lower[i] || s[i] == upper[i]
}

/// Tells whether `s` says "infinite".
pub open spec fn is_infinity(s: Seq<char>) -> bool {
    spells(s, "inf"@, "INF"@) || spells(s, "infinity"@, "INFINITY"@)
}

/// Tells whether `s` says "not a number".
pub open spec fn is_nan(s: Seq<char>) -> bool {
    spells(s, "nan"@, "NAN"@)
}

/// The value of an exponent: digits with an optional sign.
pub open spec fn exponent_of(s: Seq<char>) -> Option<int> {
    let signed = s.len() > 0 && (s[0] == '-' || s[0] == '+');
    let digits = if signed {
        s.drop_first()
    } else {
        s
    };
    if digits.len() > 0 && all_digits(digits) {
        Some(
            if s[0] == '-' {
                -(decimal_value(digits) as int)
            } else {
                decimal_value(digits) as int
            },
        )
    } else {
        None
    }
}

/// The value of a number without sign in thousandths, rounded down. Such a
/// number is a run of digits, with a point in it, before it or after it,
/// and an exponent after `e` or `E` if it has one; anything else has no
/// value.
pub open spec fn number_thousandths(s: Seq<char>) -> Option<nat> {
    let lower = first_index_of(s, 'e');
    let upper = first_index_of(s, 'E');
    let mark = if lower <= upper {
        lower
    } else {
        upper
    };
    let mantissa = s.take(mark);
    let exponent = if mark < s.len() {
        exponent_of(s.skip(mark + 1))
    } else {
        Some(0int)
    };
    let point = first_index_of(mantissa, '.');
    let whole = mantissa.take(point);
    let fraction = if point < mantissa.len() {
        mantissa.skip(point + 1)
    } else {
        Seq::<char>::empty()
    };
    if all_digits(whole) && all_digits(fraction) && whole.len() + fraction.len() > 0
        && exponent is Some {
        Some(shifted_value(whole + fraction, whole.len() + exponent->0 + 3))
    } else {
        None
    }
}

/// The value of a number in thousandths as far as a `u64` holds it: rounded
/// down, capped at the largest `u64`, and 0 for what is below 0. A number is
/// written as a floating-point number is: an optional sign, then digits
/// with an optional point and an optional exponent, or `inf`, `infinity` or
/// `nan` in lower or upper case. Infinity stands as the largest `u64`, what
/// is not a number as 0. Anything else has no value.
pub open spec fn thousandths_of(s: Seq<char>) -> Option<u64> {
    let signed = s.len() > 0 && (s[0] == '-' || s[0] == '+');
    let negative = s.len() > 0 && s[0] == '-';
    let body = if signed {
        s.drop_first()
    } else {
        s
    };
    if is_infinity(body) {
        Some(if negative {
            0
        } else {
            u64::MAX
        })
    } else if is_nan(body) {
        Some(0)
    } else {
        match number_thousandths(body) {
            Some(value) => Some(if negative {
                0
            } else {
                capped(value)
            }),
            None => None,
        }
    }
}

proof fn lemma_decimal_value_push(s: Seq<char>, c: char)
    ensures
        decimal_value(s.push(c)) == decimal_value(s) * 10 + digit_value(c),
{
    assert(s.push(c).drop_last() == s);
}

proof fn lemma_pow10_positive(n: nat)
    ensures
        pow10(n) >= 1,
        n >= 1 ==> pow10(n) >= 10,
    decreases n,
{
    if n > 0 {
        lemma_pow10_positive((n - 1) as nat);
    }
}

proof fn lemma_pow10_large(n: nat)
    requires
        n >= 20,
    ensures
        pow10(n) > u64::MAX,
    decreases n,
{
    if n == 20 {
        assert(pow10(20) == 100000000000000000000) by {
            reveal_with_fuel(pow10, 21);
        }
    } else {
        lemma_pow10_large((n - 1) as nat);
    }
}

/// With twenty or more zeros to fill up, every value but 0 is too large.
proof fn lemma_shifted_far(digits: Seq<char>, places: int)
    requires
        places >= digits.len() + 20,
    ensures
        capped(shifted_value(digits, places)) == if decimal_value(digits) == 0 {
            0
        } else {
            u64::MAX
        },
{
    let zeros = (places - digits.len()) as nat;
    lemma_pow10_large(zeros);
    let v = decimal_value(digits);
    let p = pow10(zeros);
    if v > 0 {
        assert(v * p >= p) by (nonlinear_arith)
            requires
                v >= 1,
                p >= 0,
        ;
    } else {
        assert(v * p == 0) by (nonlinear_arith)
            requires
                v == 0,
        ;
    }
}

fn spells_word(s: &Vec<char>, lower: &str, upper: &str) -> (r: bool)
    ensures
        r == spells(s@, lower@, upper@),
{
    let lo = to_chars(lower);
    let up = to_chars(upper);
    if s.len() != lo.len() || s.len() != up.len() {
        return false;
    }
    let mut i: usize = 0;
    while i < s.len()
        invariant
            i <= s.len(),
            s.len() == lo.len(),
            s.len() == up.len(),
            lo@ == lower@,
            up@ == upper@,
            forall|j: int| 0 <= j < i ==> (#[trigger] s@[j]) == lo@[j] || s@[j] == up@[j],
        decreases s.len() - i,
    {
        if s[i] != lo[i] && s[i] != up[i] {
            assert(!(s@[i as int] == lo@[i as int] || s@[i as int] == up@[i as int]));
            return false;
        }
        i += 1;
    }
    true
}

fn all_digit_chars(s: &Vec<char>) -> (r: bool)
    ensures
        r == all_digits(s@),
{
    let mut i: usize = 0;
    while i < s.len()
        invariant
            i <= s.len(),
            forall|j: int| 0 <= j < i ==> is_digit(#[trigger] s@[j]),
        decreases s.len() - i,
    {
        if !('0' <= s[i] && s[i] <= '9') {
            return false;
        }
        i += 1;
    }
    true
}

/// The value of the first `upto` digits, and whether it is too large for a
/// `u64`.
fn leading_value(digits: &Vec<char>, upto: usize) -> (r: (u64, bool))
    requires
        upto <= digits.len(),
        all_digits(digits@),
    ensures
        !r.1 ==> r.0 == decimal_value(digits@.take(upto as int)),
        r.1 ==> decimal_value(digits@.take(upto as int)) > u64::MAX,
{
    let mut acc: u128 = 0;
    let mut too_large = false;
    let mut i: usize = 0;
    while i < upto
        invariant
            i <= upto <= digits.len(),
            all_digits(digits@),
            !too_large ==> acc == decimal_value(digits@.take(i as int)) && acc <= u64::MAX,
            too_large ==> decimal_value(digits@.take(i as int)) > u64::MAX,
        decreases upto - i,
    {
        let c = digits[i];
        proof {
            assert(is_digit(digits@[i as int]));
            assert(digits@.take(i + 1) == digits@.take(i as int).push(c));
            lemma_decimal_value_push(digits@.take(i as int), c);
        }
        if !too_large {
            let d: u128 = (c as u32 - '0' as u32) as u128;
            acc = acc * 10 + d;
            if acc > u64::MAX as u128 {
                too_large = true;
            }
        }
        i += 1;
    }
    if too_large {
        (0, true)
    } else {
        (acc as u64, false)
    }
}

/// Reads the digits with the decimal point after the first `places` of
/// them.
fn moved(digits: &Vec<char>, places: i128) -> (r: u64)
    requires
        all_digits(digits@),
    ensures
        r == capped(shifted_value(digits@, places as int)),
{
    let len = digits.len();
    if places <= 0 {
        0
    } else if places >= len as i128 {
        assert(digits@.take(len as int) == digits@);
        let (value, too_large) = leading_value(digits, len);
        let ghost zeros = (places - len) as nat;
        let ghost goal = decimal_value(digits@) * pow10(zeros);
        if too_large {
            proof {
                lemma_pow10_positive(zeros);
                let v = decimal_value(digits@);
                let p = pow10(zeros);
                assert(v * p >= v) by (nonlinear_arith)
                    requires
                        p >= 1,
                        v >= 0,
                ;
            }
            return u64::MAX;
        }
        let mut v: u64 = value;
        let mut z: i128 = places - len as i128;
        while z > 0 && v != 0
            invariant
                0 <= z,
                0 < places,
                len == digits.len(),
                places >= len,
                goal == decimal_value(digits@) * pow10((places - len) as nat),
                v as nat * pow10(z as nat) == goal,
            decreases z,
        {
            proof {
                lemma_pow10_positive(z as nat);
                lemma_pow10_positive((z - 1) as nat);
                let p = pow10((z - 1) as nat);
                assert(v as nat * (10 * p) == (v as nat * 10) * p) by (nonlinear_arith);
                assert((v as nat * 10) * p >= v as nat * 10) by (nonlinear_arith)
                    requires
                        p >= 1,
                ;
            }
            if v > u64::MAX / 10 {
                assert(goal > u64::MAX);
                return u64::MAX;
            }
            v = v * 10;
            z = z - 1;
        }
        proof {
            if z > 0 {
                assert(v as nat * pow10(z as nat) == 0) by (nonlinear_arith)
                    requires
                        v == 0,
                ;
            } else {
                assert(pow10(0) == 1);
                assert(v as nat * 1 == v as nat);
            }
            assert(goal == v);
        }
        v
    } else {
        let (value, too_large) = leading_value(digits, places as usize);
        if too_large {
            u64::MAX
        } else {
            value
        }
    }
}

/// From this size on an exponent moves the point past every digit.
pub const EXPONENT_CAP: u128 = 1_000_000_000_000_000_000_000_000_000_000;

/// The size of a run of digits as a number, as far as `EXPONENT_CAP`
/// counts.
fn capped_size(digits: &Vec<char>) -> (r: u128)
    requires
        all_digits(digits@),
    ensures
        r <= EXPONENT_CAP,
        r < EXPONENT_CAP ==> r == decimal_value(digits@),
        r == EXPONENT_CAP ==> decimal_value(digits@) >= EXPONENT_CAP,
{
    let mut acc: u128 = 0;
    let mut full = false;
    let mut i: usize = 0;
    assert(digits@.take(0) =~= Seq::<char>::empty());
    while i < digits.len()
        invariant
            i <= digits.len(),
            all_digits(digits@),
            !full ==> acc == decimal_value(digits@.take(i as int)) && acc < EXPONENT_CAP,
            full ==> decimal_value(digits@.take(i as int)) >= EXPONENT_CAP,
        decreases digits.len() - i,
    {
        let c = digits[i];
        proof {
            assert(is_digit(digits@[i as int]));
            assert(digits@.take(i + 1) == digits@.take(i as int).push(c));
            lemma_decimal_value_push(digits@.take(i as int), c);
        }
        if !full {
            let d: u128 = (c as u32 - '0' as u32) as u128;
            acc = acc * 10 + d;
            if acc >= EXPONENT_CAP {
                full = true;
            }
        }
        i += 1;
    }
    assert(digits@.take(digits.len() as int) == digits@);
    if full {
        EXPONENT_CAP
    } else {
        acc
    }
}

/// Reads an exponent: whether it is below 0, and its size as far as
/// `EXPONENT_CAP` counts.
fn parse_exponent(s: &Vec<char>) -> (r: Option<(bool, u128)>)
    ensures
        match (exponent_of(s@), r) {
            (None, out) => out is None,
            (Some(_), None) => false,
            (Some(e), Some((negative, size))) => {
                &&& size <= EXPONENT_CAP
                &&& if negative {
                    e <= 0 && (size < EXPONENT_CAP ==> -e == size) && (size == EXPONENT_CAP ==> -e
                        >= EXPONENT_CAP)
                } else {
                    e >= 0 && (size < EXPONENT_CAP ==> e == size) && (size == EXPONENT_CAP ==> e
                        >= EXPONENT_CAP)
                }
            },
        },
{
    let n = s.len();
    let signed = n > 0 && (s[0] == '-' || s[0] == '+');
    let negative = n > 0 && s[0] == '-';
    let digits = if signed {
        slice_of(s, 1, n)
    } else {
        slice_of(s, 0, n)
    };
    assert(digits@ =~= if signed {
        s@.drop_first()
    } else {
        s@
    });
    if digits.len() == 0 || !all_digit_chars(&digits) {
        return None;
    }
    let size = capped_size(&digits);
    Some((negative, size))
}

fn join(a: &Vec<char>, b: &Vec<char>) -> (r: Vec<char>)
    ensures
        r@ == a@ + b@,
        all_digits(a@) && all_digits(b@) ==> all_digits(r@),
{
    let mut r: Vec<char> = Vec::new();
    let mut i: usize = 0;
    while i < a.len()
        invariant
            i <= a.len(),
            r@ == a@.take(i as int),
        decreases a.len() - i,
    {
        r.push(a[i]);
        i += 1;
    }
    assert(a@.take(a.len() as int) == a@);
    let mut k: usize = 0;
    assert(a@ + b@.take(0) =~= a@);
    while k < b.len()
        invariant
            k <= b.len(),
            r@ == a@ + b@.take(k as int),
        decreases b.len() - k,
    {
        r.push(b[k]);
        assert(a@ + b@.take(k + 1) =~= (a@ + b@.take(k as int)).push(b@[k as int]));
        k += 1;
    }
    assert(b@.take(b.len() as int) == b@);
    proof {
        if all_digits(a@) && all_digits(b@) {
            assert forall|x: int| 0 <= x < r@.len() implies is_digit(#[trigger] r@[x]) by {
                if x < a@.len() {
                    assert(r@[x] == a@[x]);
                } else {
                    assert(r@[x] == b@[x - a@.len()]);
                }
            }
        }
    }
    r
}

/// Reads the value of digits before and after a point with an exponent.
fn scaled(whole: &Vec<char>, fraction: &Vec<char>, negative: bool, size: u128) -> (r: u64)
    requires
        all_digits(whole@),
        all_digits(fraction@),
        size <= EXPONENT_CAP,
    ensures
        forall|e: int|
            (if negative {
                e <= 0 && (size < EXPONENT_CAP ==> -e == size) && (size == EXPONENT_CAP ==> -e
                    >= EXPONENT_CAP)
            } else {
                e >= 0 && (size < EXPONENT_CAP ==> e == size) && (size == EXPONENT_CAP ==> e
                    >= EXPONENT_CAP)
            }) ==> r == capped(#[trigger] shifted_value(whole@ + fraction@, whole@.len() + e + 3)),
{
    let digits = join(whole, fraction);
    let before_point: i128 = whole.len() as i128;
    let places: i128 = if negative {
        before_point + 3 - size as i128
    } else {
        before_point + 3 + size as i128
    };
    let r = moved(&digits, places);
    assert forall|e: int|
        (if negative {
            e <= 0 && (size < EXPONENT_CAP ==> -e == size) && (size == EXPONENT_CAP ==> -e
                >= EXPONENT_CAP)
        } else {
            e >= 0 && (size < EXPONENT_CAP ==> e == size) && (size == EXPONENT_CAP ==> e
                >= EXPONENT_CAP)
        }) implies r == capped(#[trigger] shifted_value(digits@, whole@.len() + e + 3)) by {
        let wanted = whole@.len() + e + 3;
        assert(digits@.len() == whole@.len() + fraction@.len());
        assert(fraction.len() <= usize::MAX);
        assert(usize::MAX <= 0xFFFF_FFFF_FFFF_FFFF);
        assert(EXPONENT_CAP == 1_000_000_000_000_000_000_000_000_000_000);
        if size == EXPONENT_CAP {
            if negative {
                assert(wanted <= 0 && places <= 0);
            } else {
                lemma_shifted_far(digits@, wanted);
                lemma_shifted_far(digits@, places as int);
            }
        } else {
            assert(wanted == places);
        }
    }
    r
}

/// Reads a number without sign as thousandths.
fn parse_number(s: &Vec<char>) -> (r: Option<u64>)
    ensures
        match number_thousandths(s@) {
            Some(value) => r == Some(capped(value)),
            None => r is None,
        },
{
    let lower = find_char(s, 'e');
    let upper = find_char(s, 'E');
    let mark = if lower <= upper {
        lower
    } else {
        upper
    };
    proof {
        lemma_first_index_of_bounds(s@, 'e');
        lemma_first_index_of_bounds(s@, 'E');
    }
    let mantissa = slice_of(s, 0, mark);
    let point = find_char(&mantissa, '.');
    proof {
        lemma_first_index_of_bounds(mantissa@, '.');
    }
    let whole = slice_of(&mantissa, 0, point);
    let fraction = if point < mantissa.len() {
        slice_of(&mantissa, point + 1, mantissa.len())
    } else {
        Vec::new()
    };
    assert(fraction@ =~= if point < mantissa@.len() {
        mantissa@.skip(point + 1)
    } else {
        Seq::<char>::empty()
    });
    if !all_digit_chars(&whole) || !all_digit_chars(&fraction) || (whole.len() == 0
        && fraction.len() == 0) {
        return None;
    }
    let exponent = if mark < s.len() {
        parse_exponent(&slice_of(s, mark + 1, s.len()))
    } else {
        Some((false, 0))
    };
    match exponent {
        None => None,
        Some((negative, size)) => {
            let r = scaled(&whole, &fraction, negative, size);
            proof {
                let e = if mark < s@.len() {
                    exponent_of(s@.skip(mark + 1))->0
                } else {
                    0int
                };
                assert(r == capped(shifted_value(whole@ + fraction@, whole@.len() + e + 3)));
            }
            Some(r)
        },
    }
}

/// Reads a number as thousandths.
pub fn parse_thousandths(s: &Vec<char>) -> (r: Option<u64>)
    ensures
        r == thousandths_of(s@),
{
    let n = s.len();
    let signed = n > 0 && (s[0] == '-' || s[0] == '+');
    let negative = n > 0 && s[0] == '-';
    let body = if signed {
        slice_of(s, 1, n)
    } else {
        slice_of(s, 0, n)
    };
    assert(body@ =~= if signed {
        s@.drop_first()
    } else {
        s@
    });
    if spells_word(&body, "inf", "INF") || spells_word(&body, "infinity", "INFINITY") {
        return Some(if negative {
            0
        } else {
            u64::MAX
        });
    }
    if spells_word(&body, "nan", "NAN") {
        return Some(0);
    }
    match parse_number(&body) {
        Some(value) => Some(if negative {
            0
        } else {
            value
        }),
        None => None,
    }
}

/// The value of a whole number written in decimal with an optional sign,
/// if it is one and fits in 64 bits with sign.
pub open spec fn integer_of(s: Seq<char>) -> Option<i64> {
    let signed = s.len() > 0 && (s[0] == '-' || s[0] == '+');
    let digits = if signed {
        s.drop_first()
    } else {
        s
    };
    let value = if s.len() > 0 && s[0] == '-' {
        -(decimal_value(digits) as int)
    } else {
        decimal_value(digits) as int
    };
    if digits.len() > 0 && all_digits(digits) && i64::MIN <= value <= i64::MAX {
        Some(value as i64)
    } else {
        None
    }
}

/// Reads a whole number written in decimal with an optional sign.
pub fn parse_integer(s: &Vec<char>) -> (r: Option<i64>)
    ensures
        r == integer_of(s@),
{
    let n = s.len();
    if n == 0 {
        return None;
    }
    let negative = s[0] == '-';
    let start: usize = if s[0] == '-' || s[0] == '+' {
        1
    } else {
        0
    };
    let ghost digits = if s@[0] == '-' || s@[0] == '+' {
        s@.drop_first()
    } else {
        s@
    };
    assert(digits =~= s@.skip(start as int));
    if start == n {
        return None;
    }
    let bound: u128 = 0x8000_0000_0000_0000;
    let mut acc: u128 = 0;
    let mut too_large = false;
    let mut i: usize = start;
    while i < n
        invariant
            start <= i <= n == s.len(),
            n > 0,
            digits == s@.skip(start as int),
            digits == if s@[0] == '-' || s@[0] == '+' {
                s@.drop_first()
            } else {
                s@
            },
            bound == 0x8000_0000_0000_0000,
            all_digits(digits.take(i - start)),
            !too_large ==> acc == decimal_value(digits.take(i - start)) && acc <= bound,
            too_large ==> decimal_value(digits.take(i - start)) > bound,
        decreases n - i,
    {
        let c = s[i];
        assert(digits[i - start] == c);
        if !('0' <= c && c <= '9') {
            return None;
        }
        proof {
            let before = digits.take(i - start);
            let after = digits.take(i - start + 1);
            assert(after == before.push(c));
            lemma_decimal_value_push(before, c);
            assert forall|x: int| 0 <= x < after.len() implies is_digit(#[trigger] after[x]) by {
                if x < before.len() {
                    assert(after[x] == before[x]);
                }
            }
        }
        if !too_large {
            let d: u128 = (c as u32 - '0' as u32) as u128;
            acc = acc * 10 + d;
            if acc > bound {
                too_large = true;
            }
        }
        i += 1;
    }
    assert(digits.take(n - start) == digits);
    if too_large {
        None
    } else if negative {
        if acc == bound {
            Some(i64::MIN)
        } else {
            Some(-(acc as i64))
        }
    } else if acc == bound {
        None
    } else {
        Some(acc as i64)
    }
}

/// The hexadecimal digit for a number below 16.
pub open spec fn hex_digit(n: int) -> char {
    if n == 0 {
        '0'
    } else if n == 1 {
        '1'
    } else if n == 2 {
        '2'
    } else if n == 3 {
        '3'
    } else if n == 4 {
        '4'
    } else if n == 5 {
        '5'
    } else if n == 6 {
        '6'
    } else if n == 7 {
        '7'
    } else if n == 8 {
        '8'
    } else if n == 9 {
        '9'
    } else if n == 10 {
        'a'
    } else if n == 11 {
        'b'
    } else if n == 12 {
        'c'
    } else if n == 13 {
        'd'
    } else if n == 14 {
        'e'
    } else {
        'f'
    }
}

/// The hexadecimal digit for a number below 16.
pub fn digit(n: u8) -> (c: char)
    ensures
        c == hex_digit(n as int),
{
    if n == 0 {
        '0'
    } else if n == 1 {
        '1'
    } else if n == 2 {
        '2'
    } else if n == 3 {
        '3'
    } else if n == 4 {
        '4'
    } else if n == 5 {
        '5'
    } else if n == 6 {
        '6'
    } else if n == 7 {
        '7'
    } else if n == 8 {
        '8'
    } else if n == 9 {
        '9'
    } else if n == 10 {
        'a'
    } else if n == 11 {
        'b'
    } else if n == 12 {
        'c'
    } else if n == 13 {
        'd'
    } else if n == 14 {
        'e'
    } else {
        'f'
    }
}

/// A number written in decimal, without leading zeros.
pub open spec fn decimal_text(n: nat) -> Seq<char>
    decreases n,
{
    if n < 10 {
        seq![hex_digit(n as int)]
    } else {
        decimal_text(n / 10).push(hex_digit((n % 10) as int))
    }
}

/// Appends a number in decimal to a text.
pub fn push_decimal(s: &mut String, n: u16)
    ensures
        final(s)@ == old(s)@ + decimal_text(n as nat),
    decreases n,
{
    if n < 10 {
        s.push(digit(n as u8));
        assert(s@ =~= old(s)@ + decimal_text(n as nat));
    } else {
        push_decimal(s, n / 10);
        s.push(digit((n % 10) as u8));
        assert(s@ =~= old(s)@ + decimal_text(n as nat));
    }
}

} // verus!
