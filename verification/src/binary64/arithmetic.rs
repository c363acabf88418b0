//! The operations: product, quotient, sum and difference, conversions and the larger of two.

use crate::binary64::format::{
    Binary64, HIDDEN_BIT, INFINITY_BITS, MIN_EXPONENT, NAN_BITS, lemma_magnitude_is_pattern,
    lemma_pattern_is_read_back, negated, pattern, rank, signed,
};
use crate::binary64::rounding::{
    below, bit_length, count_bits, distance, in_units, last_place, lemma_bit_length_bounds,
    lemma_bit_length_is, lemma_pow2_ordered, lemma_pow2_values, nearest_multiple,
    power_of_two, round_to_nearest, rounded, rounded_is_nearest,
};
use vstd::arithmetic::div_mod::*;
use vstd::arithmetic::mul::*;
use vstd::arithmetic::power2::*;
use vstd::prelude::*;

verus! {

/// The product of two numbers: the number nearest to the exact product. Infinity times zero
/// is no number.
#[verifier::opaque]
pub open spec fn product(a: Binary64, b: Binary64) -> Binary64 {
    let negative = a.is_negative() != b.is_negative();
    if a.is_nan() || b.is_nan() {
        Binary64 { bits: NAN_BITS }
    } else if a.is_infinite() || b.is_infinite() {
        if a.is_zero() || b.is_zero() {
            Binary64 { bits: NAN_BITS }
        } else {
            signed(negative, INFINITY_BITS)
        }
    } else if a.is_zero() || b.is_zero() {
        signed(negative, 0)
    } else {
        signed(
            negative,
            rounded(a.significand() * b.significand(), a.exponent() + b.exponent()),
        )
    }
}

/// The quotient of `a` by `d`, twice, plus one where something is left over: the quotient
/// with one further binary digit that tells whether it is exact.
pub open spec fn developed(a: nat, d: nat) -> nat {
    2 * (a / d) + if a % d > 0 {
        1nat
    } else {
        0nat
    }
}

/// The number of places by which a significand is scaled before it is divided, so that the
/// quotient has 64 binary digits or more.
pub open spec fn places(n: nat, d: nat) -> nat {
    (64 + bit_length(d) - bit_length(n)) as nat
}

/// A developed quotient at half the precision: the quotient by four, twice, plus one where
/// something is left over.
pub open spec fn coarsened(n: nat) -> nat {
    2 * (n / 4) + if n % 4 > 0 {
        1nat
    } else {
        0nat
    }
}

/// The magnitude of the number of the format nearest to `n / d * 2^k`, for positive `n` and
/// `d`.
///
/// The quotient is developed to 64 binary digits or more, and one further digit tells whether
/// anything is left over. No number of the format, and no midpoint between two of them, lies
/// strictly between two neighbours at that precision, so the number nearest to the quotient
/// so developed is the number nearest to the exact quotient.
#[verifier::opaque]
pub open spec fn rounded_quotient(n: nat, d: nat, k: int) -> u64 {
    let s = places(n, d);
    rounded(developed(n * pow2(s), d), k - s - 1)
}

/// The quotient of two numbers: the number nearest to the exact quotient. Zero by zero and
/// infinity by infinity are no numbers; another number by zero is an infinity.
#[verifier::opaque]
pub open spec fn quotient(a: Binary64, b: Binary64) -> Binary64 {
    let negative = a.is_negative() != b.is_negative();
    if a.is_nan() || b.is_nan() {
        Binary64 { bits: NAN_BITS }
    } else if a.is_infinite() {
        if b.is_infinite() {
            Binary64 { bits: NAN_BITS }
        } else {
            signed(negative, INFINITY_BITS)
        }
    } else if b.is_infinite() {
        signed(negative, 0)
    } else if b.is_zero() {
        if a.is_zero() {
            Binary64 { bits: NAN_BITS }
        } else {
            signed(negative, INFINITY_BITS)
        }
    } else if a.is_zero() {
        signed(negative, 0)
    } else {
        signed(
            negative,
            rounded_quotient(a.significand(), b.significand(), a.exponent() - b.exponent()),
        )
    }
}

/// The sum of two numbers: the number nearest to the exact sum. Two infinities of different
/// sign add up to no number; two numbers that cancel add up to positive zero.
#[verifier::opaque]
pub open spec fn sum(a: Binary64, b: Binary64) -> Binary64 {
    if a.is_nan() || b.is_nan() {
        Binary64 { bits: NAN_BITS }
    } else if a.is_infinite() {
        if b.is_infinite() && a.is_negative() != b.is_negative() {
            Binary64 { bits: NAN_BITS }
        } else {
            a
        }
    } else if b.is_infinite() {
        b
    } else if a.is_zero() && b.is_zero() {
        signed(a.is_negative() && b.is_negative(), 0)
    } else if a.is_zero() {
        b
    } else if b.is_zero() {
        a
    } else {
        let low = if a.exponent() <= b.exponent() {
            a.exponent()
        } else {
            b.exponent()
        };
        let x = a.significand() * pow2((a.exponent() - low) as nat);
        let y = b.significand() * pow2((b.exponent() - low) as nat);
        if a.is_negative() == b.is_negative() {
            signed(a.is_negative(), rounded(x + y, low))
        } else if x == y {
            Binary64 { bits: 0 }
        } else if x > y {
            signed(a.is_negative(), rounded((x - y) as nat, low))
        } else {
            signed(b.is_negative(), rounded((y - x) as nat, low))
        }
    }
}

/// The difference of two numbers: the sum of the first and the second with its sign changed.
pub open spec fn difference(a: Binary64, b: Binary64) -> Binary64 {
    sum(a, negated(b))
}

/// The number nearest to the whole number `x`.
#[verifier::opaque]
pub open spec fn from_whole(x: u64) -> Binary64 {
    if x == 0 {
        Binary64 { bits: 0 }
    } else {
        Binary64 { bits: rounded(x as nat, 0) }
    }
}

/// The whole part of a number, within 64 bits: zero for what is negative or no number, the
/// largest whole number for what is larger.
#[verifier::opaque]
pub open spec fn whole_part(a: Binary64) -> u64 {
    if a.is_nan() || a.is_negative() {
        0
    } else if a.is_infinite() {
        u64::MAX
    } else {
        let value = if a.exponent() >= 0 {
            a.significand() * pow2(a.exponent() as nat)
        } else {
            a.significand() / pow2((-a.exponent()) as nat)
        };
        if value > u64::MAX {
            u64::MAX
        } else {
            value as u64
        }
    }
}

/// The larger of two numbers; the other one where one of them is no number, and the first
/// where they are equal.
#[verifier::opaque]
pub open spec fn larger(a: Binary64, b: Binary64) -> Binary64 {
    if a.is_nan() {
        b
    } else if b.is_nan() {
        a
    } else if rank(a) < rank(b) {
        b
    } else {
        a
    }
}

/// The quotient that is developed with one digit for what is left over rounds as the exact
/// quotient does: the result lies within half a last place of `n / d * 2^k`.
///
/// With `s` the number of places by which `n` is scaled, the exact quotient is
/// `2 * n * 2^s / d` in units of `2^(k - s - 1)`. With `e` the last place and `m` the
/// significand of the result, `m * 2^(e - k + s + 1)` lies within half of `2^(e - k + s + 1)`
/// of it; the law states this with both sides multiplied by `d`.
pub proof fn quotient_is_nearest(n: nat, d: nat, k: int)
    requires
        0 < n < 0x20_0000_0000_0000,
        0 < d < 0x20_0000_0000_0000,
    ensures
        ({
            let s = places(n, d);
            let scaled = n * pow2(s);
            let e = last_place(developed(scaled, d), k - s - 1);
            let m = in_units(developed(scaled, d), k - s - 1, e);
            let unit = pow2((e - (k - s - 1)) as nat);
            &&& rounded_quotient(n, d, k) == pattern(m, e)
            &&& e > k - s - 1
            &&& 2 * distance((2 * scaled) as int, (m * unit * d) as int) <= unit * d
        }),
{
    reveal(rounded_quotient);
    reveal(rounded);
    lemma_pow2_values();
    lemma_bit_length_bounds(n);
    lemma_bit_length_bounds(d);
    let ln = bit_length(n);
    let ld = bit_length(d);
    if ln > 53 {
        lemma_pow2_ordered(53, (ln - 1) as nat);
    }
    if ld > 53 {
        lemma_pow2_ordered(53, (ld - 1) as nat);
    }
    let s = (64 + ld - ln) as nat;
    let scaled = n * pow2(s);
    let q = scaled / d;
    let rem = scaled % d;
    let left_over: nat = if rem > 0 {
        1
    } else {
        0
    };
    let developed = 2 * q + left_over;
    let kk = k - s - 1;
    // the quotient has 64 digits or more
    lemma_pow2_pos(s);
    lemma_pow2_adds((ln - 1) as nat, s);
    assert(scaled >= pow2((ln - 1) as nat) * pow2(s)) by (nonlinear_arith)
        requires
            scaled == n * pow2(s),
            n >= pow2((ln - 1) as nat),
    ;
    lemma_pow2_adds(63, ld);
    lemma_fundamental_div_mod(scaled as int, d as int);
    lemma_mul_is_commutative(d as int, q as int);
    assert(q >= pow2(63)) by (nonlinear_arith)
        requires
            scaled == q * d + rem,
            rem < d,
            scaled >= pow2(63) * pow2(ld),
            d < pow2(ld),
            d > 0,
    ;
    assert(developed >= pow2(64));
    lemma_bit_length_bounds(developed);
    let len = bit_length(developed);
    if len < 65 {
        lemma_pow2_ordered(len, 64);
    }
    let e = last_place(developed, kk);
    assert(e >= kk + 12);
    let down = (e - kk) as nat;
    let unit = pow2(down);
    let m = in_units(developed, kk, e);
    rounded_is_nearest(developed, kk);
    // the unit is a multiple of four
    lemma_pow2_adds(2, (down - 2) as nat);
    lemma2_to64();
    let quarter = pow2((down - 2) as nat);
    assert(unit == 4 * quarter);
    let gap = developed as int - (m * unit) as int;
    assert(2 * distance(developed as int, (m * unit) as int) <= unit);
    assert(m * unit == 4 * (m * quarter)) by (nonlinear_arith)
        requires
            unit == 4 * quarter,
    ;
    if left_over == 0 {
        assert(2 * scaled == developed * d) by (nonlinear_arith)
            requires
                scaled == q * d + rem,
                rem == 0,
                developed == 2 * q,
        ;
        assert(2 * scaled - m * unit * d == gap * d) by (nonlinear_arith)
            requires
                2 * scaled == developed * d,
                gap == developed - m * unit,
        ;
        assert(2 * distance((2 * scaled) as int, (m * unit * d) as int) <= unit * d)
            by (nonlinear_arith)
            requires
                2 * scaled - m * unit * d == gap * d,
                -(unit as int) <= 2 * gap <= unit,
                d > 0,
                distance((2 * scaled) as int, (m * unit * d) as int) == if 2 * scaled >= m
                    * unit * d {
                    2 * scaled - m * unit * d
                } else {
                    m * unit * d - 2 * scaled
                },
        ;
    } else {
        // the developed quotient is odd and the multiples of the unit are multiples of four
        assert(gap % 2 != 0) by {
            assert(developed == 2 * q + 1);
            assert(m * unit == 2 * (2 * (m * quarter)));
        }
        assert(unit % 4 == 0);
        assert(-(unit as int) + 2 <= 2 * gap <= unit - 2) by {
            assert(2 * gap != unit as int);
            assert(2 * gap != -(unit as int));
        }
        let t = 2 * rem as int - d as int;
        assert(-(d as int) < t < d);
        assert(2 * scaled - m * unit * d == gap * d + t) by (nonlinear_arith)
            requires
                scaled == q * d + rem,
                developed == 2 * q + 1,
                gap == developed - m * unit,
                t == 2 * rem - d,
        ;
        assert(2 * distance((2 * scaled) as int, (m * unit * d) as int) <= unit * d)
            by (nonlinear_arith)
            requires
                2 * scaled - m * unit * d == gap * d + t,
                -(unit as int) + 2 <= 2 * gap <= unit - 2,
                -(d as int) < t < d,
                d > 0,
                distance((2 * scaled) as int, (m * unit * d) as int) == if 2 * scaled >= m
                    * unit * d {
                    2 * scaled - m * unit * d
                } else {
                    m * unit * d - 2 * scaled
                },
        ;
    }
}

/// The quotient of two significands is developed to 65 or 66 binary digits.
pub proof fn lemma_developed_quotient_long(n: nat, d: nat)
    requires
        0 < n < 0x20_0000_0000_0000,
        0 < d < 0x20_0000_0000_0000,
    ensures
        64 + bit_length(d) >= bit_length(n),
        pow2(64) <= developed(n * pow2(places(n, d)), d) < pow2(66),
        65 <= bit_length(developed(n * pow2(places(n, d)), d)) <= 66,
{
    lemma_pow2_values();
    lemma_bit_length_bounds(n);
    lemma_bit_length_bounds(d);
    let ln = bit_length(n);
    let ld = bit_length(d);
    if ln > 53 {
        lemma_pow2_ordered(53, (ln - 1) as nat);
    }
    let s = places(n, d);
    let a = n * pow2(s);
    let q = a / d;
    let r = a % d;
    lemma_pow2_pos(s);
    lemma_pow2_adds((ln - 1) as nat, s);
    lemma_pow2_adds(ln, s);
    assert(pow2((ln - 1) as nat) * pow2(s) <= a < pow2(ln) * pow2(s)) by (nonlinear_arith)
        requires
            a == n * pow2(s),
            pow2((ln - 1) as nat) <= n < pow2(ln),
            pow2(s) > 0,
    ;
    lemma_pow2_adds(63, ld);
    lemma_pow2_adds(65, (ld - 1) as nat);
    lemma_fundamental_div_mod(a as int, d as int);
    assert(q >= pow2(63)) by (nonlinear_arith)
        requires
            a == d * q + r,
            r < d,
            a >= pow2(63) * pow2(ld),
            d < pow2(ld),
            d > 0,
    ;
    lemma_pow2_pos((ld - 1) as nat);
    assert(q < pow2(65)) by (nonlinear_arith)
        requires
            a == d * q + r,
            a < pow2(65) * pow2((ld - 1) as nat),
            d >= pow2((ld - 1) as nat),
            pow2((ld - 1) as nat) > 0,
    ;
    lemma_pow2_unfold(64);
    lemma_pow2_unfold(66);
    let n2 = developed(a, d);
    lemma_bit_length_bounds(n2);
    let len = bit_length(n2);
    if len < 65 {
        lemma_pow2_ordered(len, 64);
    }
    if len > 66 {
        lemma_pow2_ordered(66, (len - 1) as nat);
    }
}

/// A whole number below `2^53` is converted exactly: its whole part is the number again.
pub proof fn lemma_whole_number_is_exact(x: u64)
    requires
        x < 0x20_0000_0000_0000,
    ensures
        whole_part(from_whole(x)) == x,
{
    reveal(from_whole);
    reveal(whole_part);
    reveal(rounded);
    lemma_pow2_values();
    if x == 0 {
        lemma_pow2_pos(1074);
        lemma_basic_div(0, pow2(1074) as int);
    } else {
        lemma_bit_length_bounds(x as nat);
        let len = bit_length(x as nat);
        if len > 53 {
            lemma_pow2_ordered(53, (len - 1) as nat);
        }
        let e = last_place(x as nat, 0);
        assert(e == len - 53);
        let up = (-e) as nat;
        let m = x as nat * pow2(up);
        lemma_pow2_pos(up);
        lemma_pow2_adds((len - 1) as nat, up);
        lemma_pow2_adds(len, up);
        assert(pow2((len - 1) as nat) * pow2(up) <= m < pow2(len) * pow2(up)) by (nonlinear_arith)
            requires
                m == x * pow2(up),
                pow2((len - 1) as nat) <= x < pow2(len),
                pow2(up) > 0,
        ;
        assert(len - 1 + up == 52);
        assert(pow2(52) <= m < pow2(53));
        assert(in_units(x as nat, 0, e) == m);
        lemma_pattern_is_read_back(m, e);
        let r = from_whole(x);
        assert(r.bits == pattern(m, e));
        assert(r.significand() == m);
        assert(r.exponent() == e);
        if e < 0 {
            lemma_div_by_multiple(x as int, pow2(up) as int);
            assert(m / pow2(up) == x);
            assert(whole_part(r) == x);
        } else {
            lemma2_to64();
            assert(m * pow2(0) == m) by (nonlinear_arith)
                requires
                    pow2(0) == 1,
            ;
            assert(m == x) by (nonlinear_arith)
                requires
                    m == x * pow2(up),
                    up == 0,
                    pow2(0) == 1,
            ;
            assert(whole_part(r) == x);
        }
    }
}

/// A number that is more than 63 binary places below the last place of a normal number does
/// not move it when it is added: the sum rounds to the larger number.
pub proof fn lemma_far_sum(high: nat, gap: nat, small: nat, low: int)
    requires
        0x10_0000_0000_0000 <= high < 0x20_0000_0000_0000,
        gap >= 64,
        0 < small < 0x20_0000_0000_0000,
        low >= MIN_EXPONENT,
    ensures
        rounded(high * pow2(gap) + small, low) == pattern(high, low + gap),
{
    reveal(rounded);
    lemma_pow2_values();
    lemma_pow2_ordered(64, gap);
    let p = pow2(gap);
    let n = high * p + small;
    lemma_pow2_adds(52, gap);
    lemma_pow2_adds(53, gap);
    assert(pow2(52) * p <= high * p) by (nonlinear_arith)
        requires
            pow2(52) <= high,
            p > 0,
    ;
    assert(high * p + small < pow2(53) * p) by (nonlinear_arith)
        requires
            high + 1 <= pow2(53),
            small < p,
            p > 0,
    ;
    lemma_bit_length_is(n, 53 + gap);
    assert(last_place(n, low) == low + gap);
    lemma_fundamental_div_mod_converse(n as int, p as int, high as int, small as int);
    assert(nearest_multiple(n, p) == high);
}

/// A number that is more than 63 binary places below the last place of a normal number does
/// not move it when it is taken away: the difference rounds to the larger number.
pub proof fn lemma_far_difference(high: nat, gap: nat, small: nat, low: int)
    requires
        0x10_0000_0000_0000 <= high < 0x20_0000_0000_0000,
        gap >= 64,
        0 < small < 0x20_0000_0000_0000,
        low >= MIN_EXPONENT,
    ensures
        high * pow2(gap) > small,
        rounded((high * pow2(gap) - small) as nat, low) == pattern(high, low + gap),
{
    reveal(rounded);
    lemma_pow2_values();
    lemma_pow2_ordered(64, gap);
    let p = pow2(gap);
    assert(high * p >= p) by (nonlinear_arith)
        requires
            high >= 1,
            p > 0,
    ;
    let n = (high * p - small) as nat;
    if high > 0x10_0000_0000_0000 {
        lemma_pow2_adds(52, gap);
        lemma_pow2_adds(53, gap);
        assert(pow2(52) * p <= (high - 1) * p) by (nonlinear_arith)
            requires
                pow2(52) <= high - 1,
                p > 0,
        ;
        assert(high * p - small == (high - 1) * p + (p - small)) by (nonlinear_arith);
        assert(high * p <= pow2(53) * p) by (nonlinear_arith)
            requires
                high <= pow2(53),
                p > 0,
        ;
        lemma_bit_length_is(n, 53 + gap);
        assert(last_place(n, low) == low + gap);
        lemma_fundamental_div_mod_converse(
            n as int,
            p as int,
            (high - 1) as int,
            (p - small) as int,
        );
        assert(nearest_multiple(n, p) == high);
    } else {
        // the larger number is a power of two: the numbers below it lie twice as close
        let h = pow2((gap - 1) as nat);
        lemma_pow2_unfold(gap);
        lemma_pow2_ordered(63, (gap - 1) as nat);
        lemma_pow2_adds(51, gap);
        lemma_pow2_adds(52, gap);
        assert(pow2(52) == 2 * pow2(51)) by {
            lemma_pow2_unfold(52);
        }
        assert(high * p == pow2(53) * h) by (nonlinear_arith)
            requires
                high == pow2(52),
                pow2(53) == 2 * pow2(52),
                p == 2 * h,
        ;
        assert(pow2(51) * p == pow2(52) * h) by (nonlinear_arith)
            requires
                pow2(52) == 2 * pow2(51),
                p == 2 * h,
        ;
        assert(pow2(52) * h >= pow2(52)) by (nonlinear_arith)
            requires
                h >= 1,
        ;
        assert(pow2(53) * h - small >= pow2(52) * h) by (nonlinear_arith)
            requires
                pow2(53) == 2 * pow2(52),
                small < pow2(53),
                pow2(52) * h >= pow2(53),
        ;
        lemma_bit_length_is(n, 52 + gap);
        assert(last_place(n, low) == low + gap - 1);
        assert(pow2(53) * h - small == (pow2(53) - 1) * h + (h - small)) by (nonlinear_arith);
        lemma_fundamental_div_mod_converse(
            n as int,
            h as int,
            (pow2(53) - 1) as int,
            (h - small) as int,
        );
        assert(nearest_multiple(n, h) == pow2(53));
        assert((low + gap - 1 + 1074) * (HIDDEN_BIT as int) + pow2(53) == (low + gap + 1074) * (
        HIDDEN_BIT as int) + high) by (nonlinear_arith)
            requires
                pow2(53) == 2 * HIDDEN_BIT,
                high == HIDDEN_BIT,
        ;
    }
}

/// A positive whole number is converted to a positive finite number.
pub proof fn lemma_whole_number_is_finite(x: u64)
    requires
        x > 0,
    ensures
        0 < from_whole(x).magnitude() < INFINITY_BITS,
        !from_whole(x).is_negative(),
{
    reveal(rounded);
    reveal(from_whole);
    lemma_pow2_values();
    lemma_bit_length_bounds(x as nat);
    let len = bit_length(x as nat);
    if len > 64 {
        lemma_pow2_ordered(64, (len - 1) as nat);
    }
    let e = last_place(x as nat, 0);
    assert(e == len - 53);
    let m = in_units(x as nat, 0, e);
    if e <= 0 {
        lemma_pow2_adds(len as nat, (-e) as nat);
        lemma_pow2_adds((len - 1) as nat, (-e) as nat);
        lemma_pow2_pos((-e) as nat);
        assert(x as nat * pow2((-e) as nat) < pow2(len) * pow2((-e) as nat)) by (nonlinear_arith)
            requires
                x < pow2(len),
                pow2((-e) as nat) > 0,
        ;
    } else {
        let unit = pow2(e as nat);
        lemma_pow2_pos(e as nat);
        lemma_pow2_adds(53, e as nat);
        assert((x as nat) / unit < pow2(53)) by (nonlinear_arith)
            requires
                x < pow2(53) * unit,
                unit > 0,
        ;
    }
    assert(m <= pow2(53));
    assert((e + 1074) * (HIDDEN_BIT as int) <= 1085 * (HIDDEN_BIT as int)) by (nonlinear_arith)
        requires
            e <= 11,
    ;
    assert((e + 1074) * (HIDDEN_BIT as int) >= 1022 * (HIDDEN_BIT as int)) by (nonlinear_arith)
        requires
            e >= -52,
    ;
}

/// Develops the quotient of two significands: returns the quotient of `n * 2^s` by `d`, twice,
/// plus one where something is left over, and `s`.
pub(crate) fn develop(n: u64, d: u64) -> (r: (u128, u32))
    requires
        0 < n < 0x20_0000_0000_0000,
        0 < d < 0x20_0000_0000_0000,
    ensures
        r.1 == places(n as nat, d as nat),
        11 <= r.1 <= 117,
        r.0 == developed(n as nat * pow2(r.1 as nat), d as nat),
        0 < r.0 < 0x100_0000_0000_0000_0000_0000_0000_0000,
{
    let ln = count_bits(n as u128);
    let ld = count_bits(d as u128);
    proof {
        lemma_pow2_values();
        if ln > 53 {
            lemma_pow2_ordered(53, (ln - 1) as nat);
        }
        if ld > 53 {
            lemma_pow2_ordered(53, (ld - 1) as nat);
        }
    }
    let s: u32 = 64 + ld - ln;
    let factor = power_of_two(s);
    let ghost top = pow2((64 + ld) as nat);
    proof {
        lemma_pow2_adds(ln as nat, s as nat);
        lemma_pow2_adds((ln - 1) as nat, s as nat);
        lemma_pow2_ordered((64 + ld) as nat, 117);
        lemma_pow2_ordered(117, 120);
        lemma_pow2_ordered(ld as nat, (63 + ld) as nat);
        assert(n as nat * factor as nat >= pow2((ln - 1) as nat) * pow2(s as nat)) by (nonlinear_arith)
            requires
                pow2((ln - 1) as nat) <= n,
                factor == pow2(s as nat),
        ;
        assert((n as nat) * (factor as nat) < pow2(ln as nat) * pow2(s as nat)) by (nonlinear_arith)
            requires
                n < pow2(ln as nat),
                factor == pow2(s as nat),
                factor > 0,
        ;
        assert((n as nat) * (factor as nat) < top);
    }
    let scaled: u128 = (n as u128) * factor;
    let q: u128 = scaled / (d as u128);
    let left: u128 = scaled % (d as u128);
    proof {
        assert(scaled >= d);
        lemma_div_is_ordered(d as int, scaled as int, d as int);
        lemma_div_by_self(d as int);
        lemma_div_nonincreasing(scaled as int, d as int);
        lemma_pow2_adds(117, 3);
        lemma2_to64();
        assert(q >= 1);
        assert(q < pow2(117));
        assert(pow2(117) * 8 == pow2(120));
    }
    if left > 0 {
        (2 * q + 1, s)
    } else {
        (2 * q, s)
    }
}

impl Binary64 {
    /// Multiplies two numbers.
    pub fn times(&self, other: &Binary64) -> (r: Binary64)
        ensures
            r == product(*self, *other),
    {
        reveal(product);
        let (sa, ma) = self.sign_and_magnitude();
        let (sb, mb) = other.sign_and_magnitude();
        let negative = sa != sb;
        if ma > INFINITY_BITS || mb > INFINITY_BITS {
            return Binary64 { bits: NAN_BITS };
        }
        if ma == INFINITY_BITS || mb == INFINITY_BITS {
            if ma == 0 || mb == 0 {
                return Binary64 { bits: NAN_BITS };
            }
            return Binary64::with_sign(negative, INFINITY_BITS);
        }
        if ma == 0 || mb == 0 {
            return Binary64::with_sign(negative, 0);
        }
        let (na, ea) = Binary64::parts(ma);
        let (nb, eb) = Binary64::parts(mb);
        assert((na as u128) * (nb as u128) < 0x100_0000_0000_0000_0000_0000_0000_0000
            && (na as u128) * (nb as u128) > 0) by (nonlinear_arith)
            requires
                0 < na < 0x20_0000_0000_0000,
                0 < nb < 0x20_0000_0000_0000,
        ;
        let magnitude = round_to_nearest((na as u128) * (nb as u128), ea + eb);
        Binary64::with_sign(negative, magnitude)
    }

    /// Adds two numbers.
    pub fn plus(&self, other: &Binary64) -> (r: Binary64)
        ensures
            r == sum(*self, *other),
    {
        reveal(sum);
        let (sa, ma) = self.sign_and_magnitude();
        let (sb, mb) = other.sign_and_magnitude();
        if ma > INFINITY_BITS || mb > INFINITY_BITS {
            return Binary64 { bits: NAN_BITS };
        }
        if ma == INFINITY_BITS {
            if mb == INFINITY_BITS && sa != sb {
                return Binary64 { bits: NAN_BITS };
            }
            return *self;
        }
        if mb == INFINITY_BITS {
            return *other;
        }
        if ma == 0 && mb == 0 {
            return Binary64::with_sign(sa && sb, 0);
        }
        if ma == 0 {
            return *other;
        }
        if mb == 0 {
            return *self;
        }
        let (na, ea) = Binary64::parts(ma);
        let (nb, eb) = Binary64::parts(mb);
        if ea >= eb {
            Binary64::add_ordered(sa, ma, na, ea, sb, nb, eb, *self, *other, true)
        } else {
            Binary64::add_ordered(sb, mb, nb, eb, sa, na, ea, *other, *self, false)
        }
    }

    /// Adds two finite numbers that are not zero, the one with the larger exponent first.
    fn add_ordered(
        sh: bool,
        mh: u64,
        nh: u64,
        eh: i64,
        sl: bool,
        nl: u64,
        el: i64,
        high: Binary64,
        low: Binary64,
        in_order: bool,
    ) -> (r: Binary64)
        requires
            high == signed(sh, mh),
            0 < mh < INFINITY_BITS,
            mh == high.magnitude(),
            0 < low.magnitude() < INFINITY_BITS,
            sl == low.is_negative(),
            nh == high.significand(),
            eh == high.exponent(),
            nl == low.significand(),
            el == low.exponent(),
            eh >= el,
            !in_order ==> eh > el,
            0 < nh < 0x20_0000_0000_0000,
            0 < nl < 0x20_0000_0000_0000,
            MIN_EXPONENT <= el <= eh <= 971,
            eh > MIN_EXPONENT ==> nh >= HIDDEN_BIT,
        ensures
            r == if in_order {
                sum(high, low)
            } else {
                sum(low, high)
            },
    {
        reveal(sum);
        let gap: i64 = eh - el;
        proof {
            lemma_pow2_values();
            assert(pow2(0) == 1) by {
                lemma2_to64();
            }
            assert(nl as nat * pow2(0) == nl) by (nonlinear_arith)
                requires
                    pow2(0) == 1,
            ;
        }
        if gap >= 64 {
            proof {
                lemma_far_sum(nh as nat, gap as nat, nl as nat, el as int);
                lemma_far_difference(nh as nat, gap as nat, nl as nat, el as int);
                lemma_magnitude_is_pattern(high);
            }
            return high;
        }
        let factor = power_of_two(gap as u32);
        proof {
            lemma_pow2_ordered(gap as nat, 63);
            assert((nh as u128) * factor < 0x20_0000_0000_0000 * 0x8000_0000_0000_0000
                && (nh as u128) * factor >= 1) by (nonlinear_arith)
                requires
                    1 <= nh < 0x20_0000_0000_0000,
                    1 <= factor <= 0x8000_0000_0000_0000,
            ;
        }
        let x: u128 = (nh as u128) * factor;
        let y: u128 = nl as u128;
        if sh == sl {
            Binary64::with_sign(sh, round_to_nearest(x + y, el))
        } else if x == y {
            Binary64 { bits: 0 }
        } else if x > y {
            Binary64::with_sign(sh, round_to_nearest(x - y, el))
        } else {
            Binary64::with_sign(sl, round_to_nearest(y - x, el))
        }
    }

    /// Subtracts a number from another.
    pub fn minus(&self, other: &Binary64) -> (r: Binary64)
        ensures
            r == difference(*self, *other),
    {
        self.plus(&other.negate())
    }

    /// Divides a number by another.
    pub fn over(&self, other: &Binary64) -> (r: Binary64)
        ensures
            r == quotient(*self, *other),
    {
        reveal(quotient);
        reveal(rounded_quotient);
        let (sa, ma) = self.sign_and_magnitude();
        let (sb, mb) = other.sign_and_magnitude();
        let negative = sa != sb;
        if ma > INFINITY_BITS || mb > INFINITY_BITS {
            return Binary64 { bits: NAN_BITS };
        }
        if ma == INFINITY_BITS {
            if mb == INFINITY_BITS {
                return Binary64 { bits: NAN_BITS };
            }
            return Binary64::with_sign(negative, INFINITY_BITS);
        }
        if mb == INFINITY_BITS {
            return Binary64::with_sign(negative, 0);
        }
        if mb == 0 {
            if ma == 0 {
                return Binary64 { bits: NAN_BITS };
            }
            return Binary64::with_sign(negative, INFINITY_BITS);
        }
        if ma == 0 {
            return Binary64::with_sign(negative, 0);
        }
        let (na, ea) = Binary64::parts(ma);
        let (nb, eb) = Binary64::parts(mb);
        let (n, s) = develop(na, nb);
        let magnitude = round_to_nearest(n, ea - eb - (s as i64) - 1);
        Binary64::with_sign(negative, magnitude)
    }

    /// Converts a whole number.
    pub fn from_u64(x: u64) -> (r: Binary64)
        ensures
            r == from_whole(x),
    {
        reveal(from_whole);
        if x == 0 {
            Binary64 { bits: 0 }
        } else {
            Binary64 { bits: round_to_nearest(x as u128, 0) }
        }
    }

    /// Cuts a number down to its whole part, within 64 bits.
    pub fn to_u64(&self) -> (r: u64)
        ensures
            r == whole_part(*self),
    {
        reveal(whole_part);
        let (negative, magnitude) = self.sign_and_magnitude();
        if magnitude > INFINITY_BITS || negative {
            return 0;
        }
        if magnitude == INFINITY_BITS {
            return u64::MAX;
        }
        let (n, e) = Binary64::parts(magnitude);
        proof {
            lemma_pow2_values();
        }
        if e >= 0 {
            if e >= 64 {
                proof {
                    lemma_pow2_ordered(64, e as nat);
                    assert(n as nat * pow2(e as nat) >= pow2(e as nat)) by (nonlinear_arith)
                        requires
                            n >= 1,
                    ;
                }
                u64::MAX
            } else {
                let factor = power_of_two(e as u32);
                proof {
                    lemma_pow2_ordered(e as nat, 63);
                    assert((n as u128) * factor <= 0x20_0000_0000_0000 * 0x8000_0000_0000_0000)
                        by (nonlinear_arith)
                        requires
                            n < 0x20_0000_0000_0000,
                            factor <= 0x8000_0000_0000_0000,
                    ;
                }
                let value: u128 = (n as u128) * factor;
                if value > u64::MAX as u128 {
                    u64::MAX
                } else {
                    value as u64
                }
            }
        } else {
            let down: i64 = -e;
            if down >= 64 {
                proof {
                    lemma_pow2_ordered(64, down as nat);
                    lemma_basic_div(n as int, pow2(down as nat) as int);
                }
                0
            } else {
                let unit = power_of_two(down as u32);
                ((n as u128) / unit) as u64
            }
        }
    }

    /// Chooses the larger of two numbers.
    pub fn larger_of(&self, other: &Binary64) -> (r: Binary64)
        ensures
            r == larger(*self, *other),
    {
        reveal(larger);
        let (sa, ma) = self.sign_and_magnitude();
        let (sb, mb) = other.sign_and_magnitude();
        if ma > INFINITY_BITS {
            return *other;
        }
        if mb > INFINITY_BITS {
            return *self;
        }
        let less = if sa {
            if sb {
                ma > mb
            } else {
                ma > 0 || mb > 0
            }
        } else {
            if sb {
                false
            } else {
                ma < mb
            }
        };
        if less {
            *other
        } else {
            *self
        }
    }
}

} // verus!
