//! What the operations keep: the order of numbers, and the numbers that need no rounding.

use crate::binary64::arithmetic::{
    coarsened, developed, difference, from_whole, larger, lemma_developed_quotient_long,
    lemma_whole_number_is_finite, places, product, quotient, rounded_quotient, sum,
    whole_part,
};
use crate::binary64::format::{
    Binary64, HIDDEN_BIT, INFINITY_BITS, MIN_EXPONENT, ONE_BITS, lemma_magnitudes_ordered,
    negated, pattern,
};
use crate::binary64::rounding::{
    below, bit_length, last_place, lemma_below_in_units, lemma_below_product,
    lemma_bit_length_bounds, lemma_bit_length_is, lemma_pow2_ordered, lemma_pow2_values,
    lemma_rounded_of_a_number, lemma_rounded_ordered, lemma_rounded_ordered_at,
    lemma_rounded_scaled, rounded,
};
use vstd::arithmetic::div_mod::*;
use vstd::arithmetic::mul::*;
use vstd::arithmetic::power2::*;
use vstd::prelude::*;

verus! {

/// Developed quotients keep the order of the fractions: `a1 / d1 <= a2 / d2`, stated as
/// `a1 * d2 <= a2 * d1`, gives developed quotients in the same order.
pub proof fn lemma_developed_ordered(a1: nat, d1: nat, a2: nat, d2: nat)
    requires
        d1 > 0,
        d2 > 0,
        a1 * d2 <= a2 * d1,
    ensures
        developed(a1, d1) <= developed(a2, d2),
{
    let q1 = a1 / d1;
    let r1 = a1 % d1;
    let q2 = a2 / d2;
    let r2 = a2 % d2;
    lemma_fundamental_div_mod(a1 as int, d1 as int);
    lemma_fundamental_div_mod(a2 as int, d2 as int);
    // q1 * d2 <= a2, so q1 is at most the quotient of a2 by d2
    assert(q1 * d2 * d1 <= a2 * d1) by (nonlinear_arith)
        requires
            a1 == d1 * q1 + r1,
            a1 * d2 <= a2 * d1,
            d2 > 0,
    ;
    assert(q1 * d2 <= a2) by (nonlinear_arith)
        requires
            q1 * d2 * d1 <= a2 * d1,
            d1 > 0,
    ;
    lemma_div_is_ordered((q1 * d2) as int, a2 as int, d2 as int);
    lemma_div_by_multiple(q1 as int, d2 as int);
    assert(q1 <= q2);
    if q1 == q2 {
        assert(r1 * d2 <= r2 * d1) by (nonlinear_arith)
            requires
                a1 == d1 * q1 + r1,
                a2 == d2 * q1 + r2,
                a1 * d2 <= a2 * d1,
        ;
        if r1 > 0 {
            assert(r2 > 0) by (nonlinear_arith)
                requires
                    r1 * d2 <= r2 * d1,
                    r1 > 0,
                    d2 > 0,
            ;
        }
    }
}

/// The quotient by twice the divisor, developed, is the developed quotient coarsened.
pub proof fn lemma_developed_halved(a: nat, d: nat)
    requires
        d > 0,
    ensures
        developed(a, 2 * d) == coarsened(developed(a, d)),
{
    let q = a / d;
    let r = a % d;
    lemma_fundamental_div_mod(a as int, d as int);
    let half = q / 2;
    let odd = q % 2;
    assert(a == half * (2 * d) + (odd * d + r)) by (nonlinear_arith)
        requires
            a == d * q + r,
            q == 2 * half + odd,
    ;
    assert(odd * d + r < 2 * d) by (nonlinear_arith)
        requires
            odd <= 1,
            r < d,
    ;
    lemma_fundamental_div_mod_converse(
        a as int,
        (2 * d) as int,
        half as int,
        (odd * d + r) as int,
    );
    assert(odd * d + r > 0 <==> odd > 0 || r > 0) by (nonlinear_arith)
        requires
            d > 0,
            odd <= 1,
    ;
}

/// A developed quotient of 57 binary digits or more rounds the same when it is coarsened.
pub proof fn lemma_rounded_coarsened(n: nat, k: int)
    requires
        n >= pow2(56),
    ensures
        coarsened(n) > 0,
        rounded(coarsened(n), k + 1) == rounded(n, k),
{
    reveal(rounded);
    lemma_pow2_values();
    lemma2_to64();
    lemma_pow2_pos(56);
    lemma_bit_length_bounds(n);
    let len = bit_length(n);
    if len < 57 {
        lemma_pow2_ordered(len, 56);
    }
    let a = n / 4;
    let b = n % 4;
    let st: nat = if b > 0 {
        1
    } else {
        0
    };
    let c = coarsened(n);
    // the coarsened quotient has one digit fewer
    lemma_pow2_adds((len - 3) as nat, 2);
    lemma_pow2_adds((len - 2) as nat, 2);
    lemma_pow2_unfold((len - 1) as nat);
    lemma_pow2_unfold((len - 2) as nat);
    assert(pow2((len - 1) as nat) == 4 * pow2((len - 3) as nat));
    assert(pow2(len) == 4 * pow2((len - 2) as nat)) by {
        lemma_pow2_unfold(len);
    }
    assert(a >= pow2((len - 3) as nat));
    assert(a < pow2((len - 2) as nat));
    assert(pow2((len - 2) as nat) == 2 * pow2((len - 3) as nat));
    lemma_bit_length_is(c, (len - 1) as nat);
    let e = last_place(n, k);
    assert(last_place(c, k + 1) == e);
    assert(e - k >= 4);
    // the unit of the last place is 4 * v, and v is even
    let v = pow2((e - k - 2) as nat);
    lemma_pow2_adds(2, (e - k - 2) as nat);
    lemma_pow2_adds(1, (e - k - 2) as nat);
    lemma_pow2_unfold((e - k - 2) as nat);
    lemma_pow2_pos((e - k - 3) as nat);
    let unit = pow2((e - k) as nat);
    let half = pow2((e - k - 1) as nat);
    assert(unit == 4 * v);
    assert(half == 2 * v);
    assert(v % 2 == 0);
    let qa = a / v;
    let ra = a % v;
    lemma_fundamental_div_mod(a as int, v as int);
    assert(n == qa * unit + (4 * ra + b)) by (nonlinear_arith)
        requires
            n == 4 * a + b,
            a == v * qa + ra,
            unit == 4 * v,
    ;
    lemma_fundamental_div_mod_converse(n as int, unit as int, qa as int, (4 * ra + b) as int);
    assert(c == qa * half + (2 * ra + st)) by (nonlinear_arith)
        requires
            c == 2 * a + st,
            a == v * qa + ra,
            half == 2 * v,
    ;
    lemma_fundamental_div_mod_converse(c as int, half as int, qa as int, (2 * ra + st) as int);
    // both remainders lie on the same side of the half
    assert(4 * ra % 4 == 0);
    assert((2 * v) % 4 == 0);
}

/// What a developed quotient says of the fraction: with `len` the number of its digits, the
/// fraction doubled lies from `2^(len - 1)` up to, and not at, `2^len`.
pub proof fn lemma_developed_bounds(a: nat, d: nat)
    requires
        d > 0,
        developed(a, d) >= 2,
    ensures
        pow2((bit_length(developed(a, d)) - 1) as nat) * d <= 2 * a,
        2 * a < pow2(bit_length(developed(a, d))) * d,
{
    let n = developed(a, d);
    let q = a / d;
    let r = a % d;
    lemma_fundamental_div_mod(a as int, d as int);
    lemma_bit_length_bounds(n);
    let len = bit_length(n);
    lemma2_to64();
    if len < 2 {
        lemma_pow2_ordered(len, 1);
    }
    let low = pow2((len - 1) as nat);
    let high = pow2(len);
    lemma_pow2_unfold((len - 1) as nat);
    lemma_pow2_unfold(len);
    // the lower bound is even, so it holds of the even part of the quotient
    assert(low % 2 == 0);
    assert(2 * q >= low);
    assert(low * d <= 2 * a) by (nonlinear_arith)
        requires
            low <= 2 * q,
            a == d * q + r,
            d > 0,
    ;
    if r > 0 {
        assert(2 * q + 2 <= high);
        assert(2 * a < high * d) by (nonlinear_arith)
            requires
                a == d * q + r,
                r < d,
                2 * q + 2 <= high,
        ;
    } else {
        assert(2 * a < high * d) by (nonlinear_arith)
            requires
                a == d * q,
                2 * q < high,
                d > 0,
        ;
    }
}

/// Division keeps the order of the fractions: of `n1 / d1 * 2^k1` and `n2 / d2 * 2^k2`, the
/// larger does not round to the smaller pattern.
pub proof fn lemma_rounded_quotient_ordered(n1: nat, d1: nat, k1: int, n2: nat, d2: nat, k2: int)
    requires
        0 < n1 < 0x20_0000_0000_0000,
        0 < d1 < 0x20_0000_0000_0000,
        0 < n2 < 0x20_0000_0000_0000,
        0 < d2 < 0x20_0000_0000_0000,
        below(n1 * d2, k1, n2 * d1, k2),
    ensures
        rounded_quotient(n1, d1, k1) <= rounded_quotient(n2, d2, k2),
{
    reveal(rounded_quotient);
    lemma_pow2_values();
    lemma_developed_quotient_long(n1, d1);
    lemma_developed_quotient_long(n2, d2);
    let s1 = places(n1, d1);
    let s2 = places(n2, d2);
    let a1 = n1 * pow2(s1);
    let a2 = n2 * pow2(s2);
    let v1 = developed(a1, d1);
    let v2 = developed(a2, d2);
    let j1 = k1 - s1 - 1;
    let j2 = k2 - s2 - 1;
    let len1 = bit_length(v1);
    let len2 = bit_length(v2);
    lemma_bit_length_bounds(v1);
    lemma_bit_length_bounds(v2);
    // the fractions in units of the smaller of the two last places of the developed quotients
    let base = if j1 <= j2 {
        j1
    } else {
        j2
    };
    let u1 = (j1 - base) as nat;
    let u2 = (j2 - base) as nat;
    lemma_below_in_units(n1 * d2, k1 - 1, n2 * d1, k2 - 1, base);
    lemma_pow2_adds(s1, u1);
    lemma_pow2_adds(s2, u2);
    lemma_pow2_pos(u1);
    lemma_pow2_pos(u2);
    let x1 = a1 * d2 * pow2(u1);
    let x2 = a2 * d1 * pow2(u2);
    assert(x1 == (n1 * d2) * pow2((k1 - 1 - base) as nat)) by (nonlinear_arith)
        requires
            x1 == a1 * d2 * pow2(u1),
            a1 == n1 * pow2(s1),
            pow2((k1 - 1 - base) as nat) == pow2(s1) * pow2(u1),
    ;
    assert(x2 == (n2 * d1) * pow2((k2 - 1 - base) as nat)) by (nonlinear_arith)
        requires
            x2 == a2 * d1 * pow2(u2),
            a2 == n2 * pow2(s2),
            pow2((k2 - 1 - base) as nat) == pow2(s2) * pow2(u2),
    ;
    assert(x1 <= x2);
    lemma_developed_bounds(a1, d1);
    lemma_developed_bounds(a2, d2);
    let t1 = len1 + j1;
    let t2 = len2 + j2;
    if t1 > t2 {
        // the first fraction would be the larger one
        lemma_pow2_adds((len1 - 1) as nat, u1);
        lemma_pow2_adds(len2, u2);
        lemma_pow2_ordered(len2 + u2, (len1 - 1 + u1) as nat);
        let low = pow2((len1 - 1) as nat);
        let high = pow2(len2);
        assert(2 * x1 >= (low * pow2(u1)) * (d1 * d2)) by (nonlinear_arith)
            requires
                low * d1 <= 2 * a1,
                x1 == a1 * d2 * pow2(u1),
        ;
        assert(2 * x2 < (high * pow2(u2)) * (d1 * d2)) by (nonlinear_arith)
            requires
                2 * a2 < high * d2,
                x2 == a2 * d1 * pow2(u2),
                d1 > 0,
                pow2(u2) > 0,
        ;
        assert((high * pow2(u2)) * (d1 * d2) <= (low * pow2(u1)) * (d1 * d2)) by (nonlinear_arith)
            requires
                high * pow2(u2) <= low * pow2(u1),
        ;
        assert(false);
    } else if t1 < t2 {
        if j1 <= j2 {
            lemma_pow2_adds((len2 - 1) as nat, u2);
            lemma_pow2_ordered(len1, (len2 - 1 + u2) as nat);
            assert(v2 * pow2(u2) >= pow2((len2 - 1) as nat) * pow2(u2)) by (nonlinear_arith)
                requires
                    v2 >= pow2((len2 - 1) as nat),
            ;
        } else {
            lemma_pow2_adds(len1, u1);
            lemma_pow2_ordered(len1 + u1, (len2 - 1) as nat);
            assert(v1 * pow2(u1) < pow2(len1) * pow2(u1)) by (nonlinear_arith)
                requires
                    v1 < pow2(len1),
                    pow2(u1) > 0,
            ;
        }
        lemma_rounded_ordered(v1, j1, v2, j2);
    } else if j1 == j2 {
        lemma2_to64();
        assert(a1 * d2 <= a2 * d1) by (nonlinear_arith)
            requires
                x1 <= x2,
                x1 == a1 * d2 * pow2(u1),
                x2 == a2 * d1 * pow2(u2),
                pow2(u1) == 1,
                pow2(u2) == 1,
        ;
        lemma_developed_ordered(a1, d1, a2, d2);
        lemma_rounded_ordered_at(v1, v2, j1);
    } else if j1 == j2 + 1 {
        // the second quotient is developed one digit further: it is coarsened
        lemma2_to64();
        assert(a1 * (2 * d2) <= a2 * d1) by (nonlinear_arith)
            requires
                x1 <= x2,
                x1 == a1 * d2 * pow2(u1),
                x2 == a2 * d1 * pow2(u2),
                pow2(u1) == 2,
                pow2(u2) == 1,
        ;
        lemma_developed_ordered(a1, d1, a2, 2 * d2);
        lemma_developed_halved(a2, d2);
        lemma_pow2_ordered(56, 64);
        lemma_rounded_coarsened(v2, j2);
        lemma_rounded_ordered_at(v1, coarsened(v2), j1);
    } else {
        assert(j2 == j1 + 1);
        lemma2_to64();
        assert(a1 * d2 <= a2 * (2 * d1)) by (nonlinear_arith)
            requires
                x1 <= x2,
                x1 == a1 * d2 * pow2(u1),
                x2 == a2 * d1 * pow2(u2),
                pow2(u1) == 1,
                pow2(u2) == 2,
        ;
        lemma_developed_ordered(a1, 2 * d1, a2, d2);
        lemma_developed_halved(a1, d1);
        lemma_pow2_ordered(56, 64);
        lemma_rounded_coarsened(v1, j1);
        lemma_rounded_ordered_at(coarsened(v1), v2, j2);
    }
}

/// Division by a positive number keeps the order of numbers that are not negative, and
/// division of such a number by a smaller positive number gives no less.
pub proof fn lemma_quotient_ordered(a1: Binary64, b1: Binary64, a2: Binary64, b2: Binary64)
    requires
        !a1.is_negative(),
        !a2.is_negative(),
        !b1.is_negative(),
        !b2.is_negative(),
        a1.magnitude() <= a2.magnitude() <= INFINITY_BITS,
        0 < b2.magnitude() <= b1.magnitude() < INFINITY_BITS,
    ensures
        !quotient(a1, b1).is_negative(),
        !quotient(a2, b2).is_negative(),
        quotient(a1, b1).magnitude() <= quotient(a2, b2).magnitude() <= INFINITY_BITS,
{
    reveal(quotient);
    reveal(rounded_quotient);
    reveal(rounded);
    if !a1.is_zero() && !a2.is_infinite() {
        lemma_magnitudes_ordered(a1, a2);
        lemma_magnitudes_ordered(b2, b1);
        lemma_pow2_values();
        lemma_below_product(
            a1.significand(),
            a1.exponent(),
            a2.significand(),
            a2.exponent(),
            b2.significand(),
            b2.exponent(),
            b1.significand(),
            b1.exponent(),
        );
        assert(a2.significand() * b1.significand() == a2.significand() * b1.significand());
        lemma_rounded_quotient_ordered(
            a1.significand(),
            b1.significand(),
            a1.exponent() - b1.exponent(),
            a2.significand(),
            b2.significand(),
            a2.exponent() - b2.exponent(),
        );
    }
}

/// The whole part keeps the order of numbers that are not negative.
pub proof fn lemma_whole_parts_ordered(a: Binary64, b: Binary64)
    requires
        !a.is_negative(),
        !b.is_negative(),
        a.magnitude() <= b.magnitude() <= INFINITY_BITS,
    ensures
        whole_part(a) <= whole_part(b),
{
    reveal(whole_part);
    if !b.is_infinite() {
        lemma_magnitudes_ordered(a, b);
        let ea = a.exponent();
        let eb = b.exponent();
        let sa = a.significand();
        let sb = b.significand();
        let base = if ea < 0 {
            ea
        } else {
            0
        };
        // both numbers in units of 2^base, where base is not above zero
        lemma_below_in_units(sa, ea, sb, eb, base);
        let xa = sa * pow2((ea - base) as nat);
        let xb = sb * pow2((eb - base) as nat);
        assert(xa <= xb);
        let unit = pow2((-base) as nat);
        lemma_pow2_pos((-base) as nat);
        lemma_div_is_ordered(xa as int, xb as int, unit as int);
        lemma2_to64();
        // the whole part of each is its number of units divided by the units in one
        lemma_whole_part_in_units(sa, ea, base);
        lemma_whole_part_in_units(sb, eb, base);
    }
}

/// The whole part of `s * 2^e` is its number of units of `2^base` divided by the number of
/// such units in one, for a base that is neither above zero nor above `e`.
pub proof fn lemma_whole_part_in_units(s: nat, e: int, base: int)
    requires
        base <= 0,
        base <= e,
    ensures
        (s * pow2((e - base) as nat)) / pow2((-base) as nat) == if e >= 0 {
            s * pow2(e as nat)
        } else {
            s / pow2((-e) as nat)
        },
{
    let unit = pow2((-base) as nat);
    lemma_pow2_pos((-base) as nat);
    if e >= 0 {
        lemma_pow2_adds(e as nat, (-base) as nat);
        assert(s * pow2((e - base) as nat) == (s * pow2(e as nat)) * unit) by (nonlinear_arith)
            requires
                pow2((e - base) as nat) == pow2(e as nat) * unit,
        ;
        lemma_div_by_multiple((s * pow2(e as nat)) as int, unit as int);
    } else {
        let up = pow2((e - base) as nat);
        let down = pow2((-e) as nat);
        lemma_pow2_pos((e - base) as nat);
        lemma_pow2_pos((-e) as nat);
        lemma_pow2_adds((e - base) as nat, (-e) as nat);
        assert(unit == up * down);
        // (s * up) / (up * down) == s / down
        lemma_div_denominator((s * up) as int, up as int, down as int);
        lemma_div_by_multiple(s as int, up as int);
    }
}

/// A number times one is the number, where it is finite.
pub proof fn lemma_times_one(a: Binary64)
    requires
        a.magnitude() < INFINITY_BITS,
    ensures
        product(a, Binary64 { bits: ONE_BITS }) == a,
{
    reveal(product);
    let one = Binary64 { bits: ONE_BITS };
    lemma_pow2_values();
    assert(one.magnitude() == ONE_BITS);
    assert(ONE_BITS / HIDDEN_BIT == 1023);
    assert(ONE_BITS % HIDDEN_BIT == 0);
    assert(one.significand() == HIDDEN_BIT);
    assert(one.exponent() == -52);
    if a.magnitude() > 0 {
        lemma_rounded_scaled(a.significand(), 52, a.exponent());
        lemma_rounded_of_a_number(a);
    }
}

/// One less nothing is one.
pub proof fn lemma_one_less_nothing()
    ensures
        difference(Binary64 { bits: ONE_BITS }, Binary64 { bits: 0 }) == (Binary64 {
            bits: ONE_BITS,
        }),
{
    reveal(sum);
}

/// One less a number from zero to one lies from zero to one.
pub proof fn lemma_complement_bounded(r: Binary64)
    requires
        !r.is_negative(),
        r.magnitude() <= ONE_BITS,
    ensures
        !difference(Binary64 { bits: ONE_BITS }, r).is_negative(),
        difference(Binary64 { bits: ONE_BITS }, r).magnitude() <= ONE_BITS,
{
    reveal(sum);
    let one = Binary64 { bits: ONE_BITS };
    lemma_pow2_values();
    assert(ONE_BITS / HIDDEN_BIT == 1023);
    assert(ONE_BITS % HIDDEN_BIT == 0);
    assert(one.magnitude() == ONE_BITS);
    assert(one.significand() == HIDDEN_BIT);
    assert(one.exponent() == -52);
    if r.magnitude() > 0 {
        let back = negated(r);
        assert(back.is_negative());
        assert(back.magnitude() == r.magnitude());
        assert(back.significand() == r.significand());
        assert(back.exponent() == r.exponent());
        lemma_magnitudes_ordered(r, one);
        let low = r.exponent();
        let x = one.significand() * pow2((one.exponent() - low) as nat);
        let y = r.significand() * pow2((r.exponent() - low) as nat);
        lemma2_to64();
        assert(y == r.significand()) by (nonlinear_arith)
            requires
                y == r.significand() * pow2(0),
                pow2(0) == 1,
        ;
        assert(y <= x);
        if x > y {
            lemma_pow2_pos((one.exponent() - low) as nat);
            assert(x > 0);
            lemma_rounded_ordered_at((x - y) as nat, x, low);
            lemma_rounded_scaled(one.significand(), (one.exponent() - low) as nat, one.exponent());
            lemma_rounded_of_a_number(one);
        }
    }
}

/// The product does not depend on the order of its factors.
pub proof fn lemma_product_commutes(a: Binary64, b: Binary64)
    ensures
        product(a, b) == product(b, a),
{
    reveal(product);
    lemma_mul_is_commutative(a.significand() as int, b.significand() as int);
}

/// Where a price is negative or no number, what is computed from it by multiplication with
/// numbers that are not negative and division by one has no whole part.
pub proof fn lemma_negative_chain(x: Binary64, p: Binary64, y: Binary64, z: Binary64)
    requires
        p.is_negative() || p.is_nan(),
        !x.is_negative() && !x.is_nan(),
        !y.is_negative() && !y.is_nan(),
        !z.is_negative() && !z.is_nan(),
    ensures
        whole_part(quotient(product(product(x, p), y), z)) == 0,
{
    reveal(product);
    reveal(quotient);
    reveal(whole_part);
    reveal(rounded);
    reveal(rounded_quotient);
    let c = product(x, p);
    assert(c.is_nan() || c.is_negative());
    let n = product(c, y);
    assert(n.is_nan() || n.is_negative());
    let r = quotient(n, z);
    assert(r.is_nan() || r.is_negative());
}

/// Infinity times a number that is not negative, divided by a positive number, is infinity,
/// or no number where the factor is zero: its whole part is the largest, or none.
pub proof fn lemma_infinite_chain(c: Binary64, y: Binary64, z: Binary64)
    requires
        c.bits == INFINITY_BITS,
        !y.is_negative() && y.magnitude() < INFINITY_BITS,
        !z.is_negative() && 0 < z.magnitude() < INFINITY_BITS,
    ensures
        whole_part(quotient(product(c, y), z)) == if y.is_zero() {
            0
        } else {
            u64::MAX
        },
{
    reveal(product);
    reveal(quotient);
    reveal(whole_part);
}

/// Conversion of whole numbers keeps their order.
pub proof fn lemma_whole_numbers_ordered(x: u64, y: u64)
    requires
        x <= y,
    ensures
        from_whole(x).magnitude() <= from_whole(y).magnitude(),
        !from_whole(x).is_negative(),
        !from_whole(y).is_negative(),
        from_whole(y).magnitude() < INFINITY_BITS,
{
    reveal(from_whole);
    if y > 0 {
        lemma_whole_number_is_finite(y);
    }
    if x > 0 {
        lemma_whole_number_is_finite(x);
        lemma_rounded_ordered_at(x as nat, y as nat, 0);
    }
}

/// Multiplication by a number that is not negative keeps the order of numbers that are not
/// negative.
pub proof fn lemma_product_ordered(c: Binary64, a: Binary64, b: Binary64)
    requires
        !c.is_negative(),
        !a.is_negative(),
        !b.is_negative(),
        c.magnitude() < INFINITY_BITS,
        a.magnitude() <= b.magnitude() < INFINITY_BITS,
    ensures
        !product(c, a).is_negative(),
        !product(c, b).is_negative(),
        product(c, a).magnitude() <= product(c, b).magnitude() <= INFINITY_BITS,
{
    reveal(product);
    reveal(rounded);
    if !c.is_zero() && !a.is_zero() {
        lemma_magnitudes_ordered(a, b);
        let sc = c.significand();
        assert(0 < sc);
        assert(0 < a.significand());
        lemma2_to64();
        assert(sc * pow2(0) == sc) by (nonlinear_arith)
            requires
                pow2(0) == 1,
        ;
        lemma_below_product(sc, c.exponent(), sc, c.exponent(), a.significand(), a.exponent(),
            b.significand(), b.exponent());
        assert(sc * a.significand() > 0) by (nonlinear_arith)
            requires
                sc > 0,
                a.significand() > 0,
        ;
        assert(sc * b.significand() > 0) by (nonlinear_arith)
            requires
                sc > 0,
                b.significand() > 0,
        ;
        lemma_rounded_ordered(
            sc * a.significand(),
            c.exponent() + a.exponent(),
            sc * b.significand(),
            c.exponent() + b.exponent(),
        );
    }
}

/// Nothing times a number is nothing, or no number where the other is none or infinite.
pub proof fn lemma_times_zero(a: Binary64)
    ensures
        product(a, Binary64 { bits: 0 }).is_nan() || product(a, Binary64 { bits: 0 }).is_zero(),
        !a.is_nan() && !a.is_infinite() ==> product(a, Binary64 { bits: 0 }).is_zero(),
{
    reveal(product);
}

/// Nothing divided by a number is nothing, or no number; and no number divided is none.
pub proof fn lemma_zero_over(a: Binary64, b: Binary64)
    requires
        a.is_nan() || a.is_zero(),
    ensures
        quotient(a, b).is_nan() || quotient(a, b).is_zero(),
        a.is_zero() && 0 < b.magnitude() < INFINITY_BITS ==> quotient(a, b).is_zero(),
{
    reveal(quotient);
}

/// What is zero or no number has no whole part.
pub proof fn lemma_no_whole_part(a: Binary64)
    requires
        a.is_nan() || a.is_zero(),
    ensures
        whole_part(a) == 0,
{
    reveal(whole_part);
    if a.is_zero() && !a.is_negative() {
        assert(a.significand() == 0);
        assert(a.exponent() == MIN_EXPONENT);
        lemma_pow2_pos(1074);
        lemma_basic_div(0, pow2(1074) as int);
    }
}

/// The product of two finite numbers is a number: finite or infinite.
pub proof fn lemma_product_of_finite(a: Binary64, b: Binary64)
    requires
        a.magnitude() < INFINITY_BITS,
        b.magnitude() < INFINITY_BITS,
    ensures
        !product(a, b).is_nan(),
{
    reveal(product);
    reveal(rounded);
}

} // verus!
