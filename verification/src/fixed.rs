//! Fixed-point decimal numbers and their text form.
//!
//! Every real-valued quantity of the engine (prices, probabilities, USDC
//! amounts) is held as an integer number of millionths: `0.5` is
//! `500_000`, `70_500.0` is `70_500_000_000`. Edges, which are ratios of
//! prices, and the edge threshold are held finer, in billionths: an edge of
//! `0.3%` is `3_000_000`. This module renders such numbers as decimal text
//! and reads decimal text back into them.
use vstd::prelude::*;
use vstd::string::*;

verus! {

/// Number of units in one whole: values are held in millionths.
pub const SCALE: i64 = 1_000_000;

/// Number of units in one whole for edges and the edge threshold: billionths.
pub const EDGE_SCALE: i64 = 1_000_000_000;

pub open spec fn pow10(k: nat) -> nat
    decreases k,
{
    if k == 0 {
        1
    } else {
        10 * pow10((k - 1) as nat)
    }
}

pub open spec fn digit_char(d: nat) -> char {
    ((d % 10) + 48) as char
}

pub open spec fn char_digit(c: char) -> nat {
    ((c as int) - 48) as nat
}

pub open spec fn is_digit(c: char) -> bool {
    '0' <= c && c <= '9'
}

/// The decimal representation of `n`, without leading zeros.
pub open spec fn decimal_text(n: nat) -> Seq<char>
    decreases n,
{
    if n < 10 {
        seq![digit_char(n)]
    } else {
        decimal_text(n / 10).push(digit_char(n % 10))
    }
}

/// The last `width` decimal digits of `n`, with leading zeros.
pub open spec fn zero_padded(n: nat, width: nat) -> Seq<char>
    decreases width,
{
    if width == 0 {
        seq![]
    } else {
        zero_padded(n / 10, (width - 1) as nat).push(digit_char(n % 10))
    }
}

/// `n / d` rounded to the nearest integer, a tie to the even one.
pub open spec fn round_div(n: nat, d: nat) -> nat {
    if d == 0 {
        0
    } else {
        let q = n / d;
        let r = n % d;
        if 2 * r > d || (2 * r == d && q % 2 == 1) {
            q + 1
        } else {
            q
        }
    }
}

/// The text of `v / 10^scale` with exactly `decimals` digits after the point,
/// rounded to the nearest, a tie to even; a negative value keeps its sign
/// even when it rounds to zero.
pub open spec fn fixed_text(v: int, scale: nat, decimals: nat) -> Seq<char> {
    let mag: nat = if v < 0 {
        (-v) as nat
    } else {
        v as nat
    };
    let r = round_div(mag, pow10((scale - decimals) as nat));
    let sign: Seq<char> = if v < 0 {
        seq!['-']
    } else {
        seq![]
    };
    if decimals == 0 {
        sign + decimal_text(r)
    } else {
        sign + decimal_text(r / pow10(decimals)) + seq!['.'] + zero_padded(
            r % pow10(decimals),
            decimals,
        )
    }
}

/// Value of a sequence of decimal digits, most significant first.
pub open spec fn digits_value(s: Seq<char>) -> nat
    decreases s.len(),
{
    if s.len() == 0 {
        0
    } else {
        10 * digits_value(s.drop_last()) + char_digit(s.last())
    }
}

pub open spec fn all_digits(s: Seq<char>) -> bool {
    forall|i: int| 0 <= i < s.len() ==> is_digit(#[trigger] s[i])
}

/// Position of the first `a` or `b` in `s`, or `s.len()` where there is none.
pub open spec fn position_of(s: Seq<char>, a: char, b: char) -> nat
    decreases s.len(),
{
    if s.len() == 0 {
        0
    } else if s[0] == a || s[0] == b {
        0
    } else {
        1 + position_of(s.drop_first(), a, b)
    }
}

pub open spec fn has_sign(t: Seq<char>) -> bool {
    t.len() > 0 && (t[0] == '-' || t[0] == '+')
}

/// The text after an optional leading sign.
pub open spec fn unsigned_part(t: Seq<char>) -> Seq<char> {
    if has_sign(t) {
        t.drop_first()
    } else {
        t
    }
}

/// Whether the number has an exponent (`e` or `E`).
pub open spec fn has_exponent(t: Seq<char>) -> bool {
    let b = unsigned_part(t);
    position_of(b, 'e', 'E') < b.len()
}

/// The number before its exponent.
pub open spec fn mantissa(t: Seq<char>) -> Seq<char> {
    let b = unsigned_part(t);
    b.take(position_of(b, 'e', 'E') as int)
}

/// The text after the `e` or `E`, empty where there is none.
pub open spec fn exponent_text(t: Seq<char>) -> Seq<char> {
    let b = unsigned_part(t);
    if has_exponent(t) {
        b.skip((position_of(b, 'e', 'E') + 1) as int)
    } else {
        seq![]
    }
}

/// The digits of the exponent.
pub open spec fn exponent_digits(t: Seq<char>) -> Seq<char> {
    unsigned_part(exponent_text(t))
}

/// The exponent's value, zero where there is none.
pub open spec fn exponent_value(t: Seq<char>) -> int {
    let e = exponent_text(t);
    let v = digits_value(exponent_digits(t)) as int;
    if has_sign(e) && e[0] == '-' {
        -v
    } else {
        v
    }
}

pub open spec fn integer_digits(t: Seq<char>) -> Seq<char> {
    let m = mantissa(t);
    m.take(position_of(m, '.', '.') as int)
}

pub open spec fn fraction_digits(t: Seq<char>) -> Seq<char> {
    let m = mantissa(t);
    let k = position_of(m, '.', '.');
    if k < m.len() {
        m.skip((k + 1) as int)
    } else {
        seq![]
    }
}

/// Whether `t` is a decimal number: an optional sign, digits with an
/// optional point, at least one digit in all, and an optional exponent (`e`
/// or `E`, an optional sign, and at least one digit).
pub open spec fn is_decimal_text(t: Seq<char>) -> bool {
    &&& all_digits(integer_digits(t))
    &&& all_digits(fraction_digits(t))
    &&& integer_digits(t).len() + fraction_digits(t).len() > 0
    &&& has_exponent(t) ==> exponent_digits(t).len() > 0 && all_digits(exponent_digits(t))
}

/// The mantissa's digits without the point.
pub open spec fn all_mantissa_digits(t: Seq<char>) -> Seq<char> {
    integer_digits(t) + fraction_digits(t)
}

/// The power of ten that turns the mantissa's digits into millionths.
pub open spec fn millionths_shift(t: Seq<char>) -> int {
    6 + exponent_value(t) - fraction_digits(t).len()
}

/// Magnitude in millionths of the decimal number `t`, rounded toward zero.
pub open spec fn decimal_magnitude(t: Seq<char>) -> nat {
    let d = all_mantissa_digits(t);
    let k = millionths_shift(t);
    if k >= 0 {
        digits_value(d) * pow10(k as nat)
    } else if d.len() + k >= 0 {
        digits_value(d.take(d.len() + k))
    } else {
        0
    }
}

/// The millionths denoted by the decimal text `t`: `None` where `t` is not a
/// decimal number or its magnitude does not fit in an `i64`.
pub open spec fn parse_fixed_spec(t: Seq<char>) -> Option<int> {
    if !is_decimal_text(t) || decimal_magnitude(t) > i64::MAX {
        None
    } else if has_sign(t) && t[0] == '-' {
        Some(-(decimal_magnitude(t) as int))
    } else {
        Some(decimal_magnitude(t) as int)
    }
}

proof fn lemma_pow10_positive(k: nat)
    ensures
        pow10(k) >= 1,
    decreases k,
{
    if k > 0 {
        lemma_pow10_positive((k - 1) as nat);
    }
}

proof fn lemma_pow10_monotone(a: nat, b: nat)
    requires
        a <= b,
    ensures
        pow10(a) <= pow10(b),
    decreases b,
{
    if a < b {
        lemma_pow10_monotone(a, (b - 1) as nat);
        lemma_pow10_positive((b - 1) as nat);
    }
}


proof fn lemma_position_of(s: Seq<char>, a: char, b: char, m: nat)
    requires
        m <= s.len(),
        forall|j: int| 0 <= j < m ==> s[j] != a && s[j] != b,
        m == s.len() || s[m as int] == a || s[m as int] == b,
    ensures
        position_of(s, a, b) == m,
    decreases s.len(),
{
    if s.len() > 0 && m > 0 {
        assert(s[0] != a && s[0] != b);
        assert forall|j: int| 0 <= j < m - 1 implies s.drop_first()[j] != a && s.drop_first()[j]
            != b by {
            assert(s.drop_first()[j] == s[j + 1]);
        }
        if m < s.len() {
            assert(s.drop_first()[m - 1] == s[m as int]);
        }
        lemma_position_of(s.drop_first(), a, b, (m - 1) as nat);
    }
}

proof fn lemma_digits_value_prefix(s: Seq<char>, j: int)
    requires
        0 <= j <= s.len(),
    ensures
        digits_value(s.take(j)) <= digits_value(s),
    decreases s.len() - j,
{
    if j < s.len() {
        lemma_digits_value_prefix(s, j + 1);
        assert(s.take(j + 1).drop_last() =~= s.take(j));
    } else {
        assert(s.take(j) =~= s);
    }
}

fn digit_of(c: char) -> (r: Option<u64>)
    ensures
        r is Some <==> is_digit(c),
        r matches Some(d) ==> d as nat == char_digit(c) && d < 10,
{
    if '0' <= c && c <= '9' {
        Some((c as u32 - 48) as u64)
    } else {
        None
    }
}

/// Position of the first `a` or `b` in `t[from..to]`, or `to`.
fn find_first(t: &str, from: usize, to: usize, a: char, b: char) -> (k: usize)
    requires
        from <= to <= t@.len(),
    ensures
        from <= k <= to,
        position_of(t@.subrange(from as int, to as int), a, b) == k - from,
{
    let ghost part = t@.subrange(from as int, to as int);
    let mut k = from;
    while k < to && t.get_char(k) != a && t.get_char(k) != b
        invariant
            from <= k <= to <= t@.len(),
            forall|j: int| from <= j < k ==> t@[j] != a && t@[j] != b,
        decreases to - k,
    {
        k = k + 1;
    }
    proof {
        assert forall|j: int| 0 <= j < k - from implies part[j] != a && part[j] != b by {
            assert(part[j] == t@[j + from]);
        }
        if k < to {
            assert(part[k - from] == t@[k as int]);
        }
        lemma_position_of(part, a, b, (k - from) as nat);
    }
    k
}

/// Whether `t[from..to]` is all digits.
fn digits_in(t: &str, from: usize, to: usize) -> (r: bool)
    requires
        from <= to <= t@.len(),
    ensures
        r == all_digits(t@.subrange(from as int, to as int)),
{
    let ghost part = t@.subrange(from as int, to as int);
    let mut i = from;
    while i < to
        invariant
            from <= i <= to <= t@.len(),
            part == t@.subrange(from as int, to as int),
            forall|j: int| from <= j < i ==> is_digit(t@[j]),
        decreases to - i,
    {
        if digit_of(t.get_char(i)).is_none() {
            assert(part[i - from] == t@[i as int]);
            return false;
        }
        i = i + 1;
    }
    assert forall|j: int| 0 <= j < part.len() implies is_digit(#[trigger] part[j]) by {
        assert(part[j] == t@[j + from]);
    }
    true
}

/// Exponents beyond this magnitude all give the same result.
const EXPONENT_CAP: u128 = 0x4_0000_0000_0000_0000;

/// Value of the digits `t[from..to]`, capped: `(v, false)` with the value, or
/// `(_, true)` where the value exceeds `EXPONENT_CAP`. `None` where there are
/// no digits or one is no digit.
fn read_exponent(t: &str, from: usize, to: usize) -> (r: Option<(u128, bool)>)
    requires
        from <= to <= t@.len(),
    ensures
        r is Some <==> (to > from && all_digits(t@.subrange(from as int, to as int))),
        r matches Some((v, big)) ==> v <= EXPONENT_CAP && (!big ==> v as int == digits_value(
            t@.subrange(from as int, to as int),
        )) && (big ==> digits_value(t@.subrange(from as int, to as int)) > EXPONENT_CAP),
{
    if to == from || !digits_in(t, from, to) {
        return None;
    }
    let ghost part = t@.subrange(from as int, to as int);
    let mut acc: u128 = 0;
    let mut big = false;
    let mut i = from;
    while i < to
        invariant
            from <= i <= to <= t@.len(),
            part == t@.subrange(from as int, to as int),
            all_digits(part),
            !big ==> acc as int == digits_value(t@.subrange(from as int, i as int)),
            acc <= EXPONENT_CAP,
            big ==> digits_value(t@.subrange(from as int, i as int)) > EXPONENT_CAP,
        decreases to - i,
    {
        let c = t.get_char(i);
        proof {
            assert(part[i - from] == c);
            assert(t@.subrange(from as int, i + 1).drop_last() =~= t@.subrange(
                from as int,
                i as int,
            ));
        }
        let d = digit_of(c).unwrap();
        if !big {
            let next = acc * 10 + d as u128;
            if next > EXPONENT_CAP {
                big = true;
            } else {
                acc = next;
            }
        }
        i = i + 1;
    }
    Some((acc, big))
}

/// Value of the first `keep` mantissa digits, where the integer digits are
/// `t[start..k]` and the fraction digits `t[frac_start..e]`. `None` where the
/// value exceeds `i64::MAX`.
fn read_prefix(t: &str, start: usize, k: usize, frac_start: usize, e: usize, keep: usize) -> (r:
    Option<u128>)
    requires
        start <= k <= frac_start <= e <= t@.len(),
        keep <= (k - start) + (e - frac_start),
        all_digits(t@.subrange(start as int, k as int)),
        all_digits(t@.subrange(frac_start as int, e as int)),
    ensures
        ({
            let d = t@.subrange(start as int, k as int) + t@.subrange(frac_start as int, e as int);
            match r {
                Some(v) => v as int == digits_value(d.take(keep as int)) && v <= i64::MAX,
                None => digits_value(d.take(keep as int)) > i64::MAX,
            }
        }),
{
    let ghost d = t@.subrange(start as int, k as int) + t@.subrange(frac_start as int, e as int);
    let lint = k - start;
    let mut acc: u128 = 0;
    let mut j: usize = 0;
    while j < keep
        invariant
            j <= keep <= d.len(),
            lint == k - start,
            d == t@.subrange(start as int, k as int) + t@.subrange(frac_start as int, e as int),
            start <= k <= frac_start <= e <= t@.len(),
            acc as int == digits_value(d.take(j as int)),
            acc <= i64::MAX,
            all_digits(t@.subrange(start as int, k as int)),
            all_digits(t@.subrange(frac_start as int, e as int)),
        decreases keep - j,
    {
        let idx = if j < lint {
            start + j
        } else {
            frac_start + (j - lint)
        };
        let c = t.get_char(idx);
        proof {
            assert(d[j as int] == c);
            assert(d.take(j + 1).drop_last() =~= d.take(j as int));
            if j < lint {
                assert(t@.subrange(start as int, k as int)[j as int] == c);
            } else {
                assert(t@.subrange(frac_start as int, e as int)[j - lint] == c);
            }
        }
        let dv = digit_of(c).unwrap() as u128;
        let next = acc * 10 + dv;
        if next > 9_223_372_036_854_775_807u128 {
            proof {
                assert(d.take(keep as int).take(j + 1) =~= d.take(j + 1));
                lemma_digits_value_prefix(d.take(keep as int), j + 1);
            }
            return None;
        }
        acc = next;
        j = j + 1;
    }
    Some(acc)
}

/// The exponent of `t`, whose `e` or `E` (if any) is at `e`: `None` where it
/// is malformed; otherwise `(x, false)` with its value, or `(±1, true)` where
/// its magnitude exceeds `EXPONENT_CAP`.
fn read_exponent_of(t: &str, start: usize, e: usize, n: usize) -> (r: Option<(i128, bool)>)
    requires
        start <= e <= n == t@.len(),
        unsigned_part(t@) =~= t@.subrange(start as int, n as int),
        position_of(unsigned_part(t@), 'e', 'E') == e - start,
    ensures
        r is Some <==> (has_exponent(t@) ==> exponent_digits(t@).len() > 0 && all_digits(
            exponent_digits(t@),
        )),
        r matches Some((x, big)) ==> {
            &&& !big ==> x == exponent_value(t@) && -EXPONENT_CAP <= x <= EXPONENT_CAP
            &&& big ==> (x == 1 && exponent_value(t@) > EXPONENT_CAP) || (x == -1
                && exponent_value(t@) < -EXPONENT_CAP)
        },
{
    if e < n {
        assert(exponent_text(t@) =~= t@.subrange(e + 1, n as int));
        let mut from = e + 1;
        let mut exp_neg = false;
        if from < n {
            let c = t.get_char(from);
            if c == '-' {
                exp_neg = true;
                from = from + 1;
            } else if c == '+' {
                from = from + 1;
            }
        }
        assert(exponent_digits(t@) =~= t@.subrange(from as int, n as int));
        match read_exponent(t, from, n) {
            None => None,
            Some((v, big)) => {
                if big {
                    Some(
                        (
                            if exp_neg {
                                -1
                            } else {
                                1
                            },
                            true,
                        ),
                    )
                } else if exp_neg {
                    Some((-(v as i128), false))
                } else {
                    Some((v as i128, false))
                }
            },
        }
    } else {
        assert(exponent_text(t@) =~= Seq::<char>::empty());
        assert(exponent_digits(t@) =~= Seq::<char>::empty());
        Some((0, false))
    }
}

/// The magnitude of a well-formed decimal number `t` whose integer digits are
/// `t[start..k]`, fraction digits `t[frac_start..e]` and exponent as
/// `read_exponent_of` reads it: `None` where it exceeds `i64::MAX`.
fn magnitude_of(
    t: &str,
    start: usize,
    k: usize,
    frac_start: usize,
    e: usize,
    x: i128,
    big: bool,
) -> (r: Option<u128>)
    requires
        start <= k <= frac_start <= e <= t@.len(),
        integer_digits(t@) == t@.subrange(start as int, k as int),
        fraction_digits(t@) == t@.subrange(frac_start as int, e as int),
        all_digits(t@.subrange(start as int, k as int)),
        all_digits(t@.subrange(frac_start as int, e as int)),
        !big ==> x == exponent_value(t@) && -EXPONENT_CAP <= x <= EXPONENT_CAP,
        big ==> (x == 1 && exponent_value(t@) > EXPONENT_CAP) || (x == -1 && exponent_value(t@)
            < -EXPONENT_CAP),
    ensures
        match r {
            Some(m) => m == decimal_magnitude(t@) && m <= i64::MAX,
            None => decimal_magnitude(t@) > i64::MAX,
        },
{
    let ghost d = all_mantissa_digits(t@);
    assert(d =~= t@.subrange(start as int, k as int) + t@.subrange(frac_start as int, e as int));
    let lint = k - start;
    let lfrac = e - frac_start;
    let dlen = lint + lfrac;
    assert(d.take(dlen as int) =~= d);
    let ghost shift = millionths_shift(t@);
    assert(d.len() == dlen && dlen <= usize::MAX && usize::MAX < 0x1_0000_0000_0000_0000);
    assert(fraction_digits(t@).len() == lfrac);
    if big && x < 0 {
        assert(shift < 6 - EXPONENT_CAP);
        assert(d.len() + shift < 0);
        return Some(0);
    }
    assert(shift >= 0 ==> decimal_magnitude(t@) == digits_value(d) * pow10(shift as nat));
    if big {
        assert(shift > 18);
        return match read_prefix(t, start, k, frac_start, e, dlen) {
            None => {
                proof {
                    lemma_pow10_positive(shift as nat);
                    assert(digits_value(d) * pow10(shift as nat) >= digits_value(d)) by (
                    nonlinear_arith)
                        requires
                            pow10(shift as nat) >= 1,
                    ;
                }
                None
            },
            Some(v) => {
                if v == 0 {
                    assert(digits_value(d) == 0);
                    assert(0 * pow10(shift as nat) == 0);
                    Some(0)
                } else {
                    proof {
                        lemma_large_power(digits_value(d), shift as nat);
                    }
                    None
                }
            },
        };
    }
    let sh: i128 = 6 + x - (lfrac as i128);
    assert(sh == shift);
    if sh >= 0 {
        let v = match read_prefix(t, start, k, frac_start, e, dlen) {
            None => {
                proof {
                    lemma_pow10_positive(sh as nat);
                    assert(digits_value(d) * pow10(sh as nat) >= digits_value(d)) by (
                    nonlinear_arith)
                        requires
                            pow10(sh as nat) >= 1,
                    ;
                }
                return None;
            },
            Some(v) => v,
        };
        if v == 0 {
            assert(digits_value(d) == 0);
            assert(0 * pow10(sh as nat) == 0);
            return Some(0);
        }
        if sh > 18 {
            proof {
                lemma_large_power(digits_value(d), sh as nat);
            }
            return None;
        }
        let p = pow10_u64(sh as u32) as u128;
        proof {
            lemma_pow10_monotone(sh as nat, 18);
            reveal_with_fuel(pow10, 19);
        }
        assert(v * p <= 9_223_372_036_854_775_807 * 1_000_000_000_000_000_000) by (nonlinear_arith)
            requires
                v <= 9_223_372_036_854_775_807,
                p <= 1_000_000_000_000_000_000,
        ;
        let w = v * p;
        if w > 9_223_372_036_854_775_807u128 {
            None
        } else {
            Some(w)
        }
    } else if (dlen as i128) + sh >= 0 {
        let keep = ((dlen as i128) + sh) as usize;
        read_prefix(t, start, k, frac_start, e, keep)
    } else {
        Some(0)
    }
}

/// Reads a decimal number (optional sign, digits with an optional point,
/// optional exponent) as millionths, rounded toward zero.
pub fn parse_fixed(t: &str) -> (r: Option<i64>)
    ensures
        match r {
            Some(v) => parse_fixed_spec(t@) == Some(v as int),
            None => parse_fixed_spec(t@) is None,
        },
{
    let n = t.unicode_len();
    let mut start: usize = 0;
    let mut neg = false;
    if n > 0 {
        let c = t.get_char(0);
        if c == '-' {
            neg = true;
            start = 1;
        } else if c == '+' {
            start = 1;
        }
    }
    assert(unsigned_part(t@) =~= t@.subrange(start as int, n as int));
    let e = find_first(t, start, n, 'e', 'E');
    assert(mantissa(t@) =~= t@.subrange(start as int, e as int));
    let k = find_first(t, start, e, '.', '.');
    assert(integer_digits(t@) =~= t@.subrange(start as int, k as int));
    let frac_start: usize = if k < e {
        k + 1
    } else {
        e
    };
    assert(fraction_digits(t@) =~= t@.subrange(frac_start as int, e as int));
    if !digits_in(t, start, k) || !digits_in(t, frac_start, e) {
        return None;
    }
    if (k - start) + (e - frac_start) == 0 {
        return None;
    }
    let (x, big) = match read_exponent_of(t, start, e, n) {
        None => {
            return None;
        },
        Some(p) => p,
    };
    match magnitude_of(t, start, k, frac_start, e, x, big) {
        None => None,
        Some(mag) => {
            if neg {
                Some(-(mag as i64))
            } else {
                Some(mag as i64)
            }
        },
    }
}

/// A positive number times `10^k` for `k > 18` exceeds `i64::MAX`.
proof fn lemma_large_power(v: nat, k: nat)
    requires
        v > 0,
        k > 18,
    ensures
        v * pow10(k) > i64::MAX,
{
    lemma_pow10_monotone(19, k);
    assert(pow10(19) == 10_000_000_000_000_000_000) by {
        reveal_with_fuel(pow10, 20);
    }
    assert(v * pow10(k) >= pow10(k)) by (nonlinear_arith)
        requires
            v >= 1,
            pow10(k) >= 0,
    ;
}

/// `10^k` for `k <= 18`.
pub fn pow10_u64(k: u32) -> (r: u64)
    requires
        k <= 18,
    ensures
        r as nat == pow10(k as nat),
{
    let mut r: u64 = 1;
    let mut i: u32 = 0;
    while i < k
        invariant
            i <= k <= 18,
            r as nat == pow10(i as nat),
        decreases k - i,
    {
        proof {
            lemma_pow10_monotone((i + 1) as nat, 18);
            reveal_with_fuel(pow10, 19);
        }
        r = r * 10;
        i = i + 1;
    }
    r
}

fn digit_str(d: u64) -> (r: &'static str)
    requires
        d < 10,
    ensures
        r@ == seq![digit_char(d as nat)],
{
    proof {
        reveal_strlit("0");
        reveal_strlit("1");
        reveal_strlit("2");
        reveal_strlit("3");
        reveal_strlit("4");
        reveal_strlit("5");
        reveal_strlit("6");
        reveal_strlit("7");
        reveal_strlit("8");
        reveal_strlit("9");
    }
    if d == 0 {
        "0"
    } else if d == 1 {
        "1"
    } else if d == 2 {
        "2"
    } else if d == 3 {
        "3"
    } else if d == 4 {
        "4"
    } else if d == 5 {
        "5"
    } else if d == 6 {
        "6"
    } else if d == 7 {
        "7"
    } else if d == 8 {
        "8"
    } else {
        "9"
    }
}

/// Appends the decimal digits of `n`.
pub fn push_decimal(s: &mut String, n: u128)
    ensures
        final(s)@ == old(s)@ + decimal_text(n as nat),
    decreases n,
{
    if n >= 10 {
        push_decimal(s, n / 10);
    }
    s.append(digit_str((n % 10) as u64));
}

/// Appends the last `width` digits of `n`, zero-padded.
pub fn push_zero_padded(s: &mut String, n: u128, width: u32)
    ensures
        final(s)@ == old(s)@ + zero_padded(n as nat, width as nat),
    decreases width,
{
    if width > 0 {
        push_zero_padded(s, n / 10, width - 1);
        s.append(digit_str((n % 10) as u64));
    }
}

/// Appends `v / 10^scale` rounded to `decimals` fraction digits.
pub fn push_fixed(s: &mut String, v: i64, scale: u32, decimals: u32)
    requires
        decimals <= scale <= 18,
    ensures
        final(s)@ == old(s)@ + fixed_text(v as int, scale as nat, decimals as nat),
{
    push_fixed_wide(s, v as i128, scale, decimals);
}

/// Appends `v / 10^scale` rounded to `decimals` fraction digits, for a
/// 128-bit `v`.
pub fn push_fixed_wide(s: &mut String, v: i128, scale: u32, decimals: u32)
    requires
        decimals <= scale <= 18,
    ensures
        final(s)@ == old(s)@ + fixed_text(v as int, scale as nat, decimals as nat),
{
    let mag: u128 = if v < 0 {
        if v == i128::MIN {
            0x8000_0000_0000_0000_0000_0000_0000_0000u128
        } else {
            (-v) as u128
        }
    } else {
        v as u128
    };
    let p = pow10_u64(scale - decimals) as u128;
    proof {
        lemma_pow10_positive((scale - decimals) as nat);
        lemma_pow10_monotone((scale - decimals) as nat, 18);
        reveal_with_fuel(pow10, 19);
    }
    let q = mag / p;
    let rem = mag % p;
    let r: u128 = if 2 * rem > p || (2 * rem == p && q % 2 == 1) {
        q + 1
    } else {
        q
    };
    assert(r == round_div(mag as nat, p as nat));
    if v < 0 {
        proof {
            reveal_strlit("-");
        }
        s.append("-");
    }
    if decimals == 0 {
        push_decimal(s, r);
    } else {
        let qd = pow10_u64(decimals) as u128;
        proof {
            lemma_pow10_positive(decimals as nat);
        }
        push_decimal(s, r / qd);
        proof {
            reveal_strlit(".");
        }
        s.append(".");
        push_zero_padded(s, r % qd, decimals);
    }
    assert(s@ =~= old(s)@ + fixed_text(v as int, scale as nat, decimals as nat));
}

/// Fraction digits needed to write the fraction `f` (millionths) exactly.
pub open spec fn decimals_needed(f: nat) -> nat {
    if f == 0 {
        0
    } else if f % 10 != 0 {
        6
    } else if f % 100 != 0 {
        5
    } else if f % 1_000 != 0 {
        4
    } else if f % 10_000 != 0 {
        3
    } else if f % 100_000 != 0 {
        2
    } else {
        1
    }
}

/// The shortest text of `v / 10^6`: its exact decimal value with no trailing
/// zeros after the point, and no point for a whole number ("-50", "-50.5").
pub open spec fn shortest_text(v: int) -> Seq<char> {
    let mag: nat = if v < 0 {
        (-v) as nat
    } else {
        v as nat
    };
    fixed_text(v, 6, decimals_needed(mag % 1_000_000))
}

/// Appends the shortest text of `v / 10^6`.
pub fn push_shortest(s: &mut String, v: i64)
    ensures
        final(s)@ == old(s)@ + shortest_text(v as int),
{
    let mag: u64 = if v < 0 {
        if v == i64::MIN {
            9_223_372_036_854_775_808u64
        } else {
            (-v) as u64
        }
    } else {
        v as u64
    };
    let f = mag % 1_000_000;
    let d: u32 = if f == 0 {
        0
    } else if f % 10 != 0 {
        6
    } else if f % 100 != 0 {
        5
    } else if f % 1_000 != 0 {
        4
    } else if f % 10_000 != 0 {
        3
    } else if f % 100_000 != 0 {
        2
    } else {
        1
    };
    push_fixed(s, v, 6, d);
}

/// Whether two texts are equal.
pub fn same_text(a: &str, b: &str) -> (r: bool)
    ensures
        r == (a@ == b@),
{
    let n = a.unicode_len();
    if n != b.unicode_len() {
        return false;
    }
    let mut i: usize = 0;
    while i < n
        invariant
            0 <= i <= n,
            n == a@.len(),
            n == b@.len(),
            forall|j: int| 0 <= j < i ==> a@[j] == b@[j],
        decreases n - i,
    {
        if a.get_char(i) != b.get_char(i) {
            return false;
        }
        i = i + 1;
    }
    assert(a@ =~= b@);
    true
}

/// The text of a fixed-point value with `decimals` fraction digits.
pub fn fixed_string(v: i64, decimals: u32) -> (r: String)
    requires
        decimals <= 6,
    ensures
        r@ == fixed_text(v as int, 6, decimals as nat),
{
    let mut s = String::new();
    push_fixed(&mut s, v, 6, decimals);
    assert(s@ =~= fixed_text(v as int, 6, decimals as nat));
    s
}

} // verus!
