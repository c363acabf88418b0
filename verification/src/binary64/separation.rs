//! Where rounding keeps two quotients apart: division by a smaller whole number gives more.

use crate::binary64::arithmetic::{developed, from_whole, places, quotient, quotient_is_nearest};
use crate::binary64::format::{
    Binary64, HIDDEN_BIT, INFINITY_BITS, MIN_EXPONENT, lemma_magnitude_is_pattern,
    lemma_pattern_is_read_back, pattern,
};
use crate::binary64::order::{lemma_quotient_ordered, lemma_whole_numbers_ordered};
use crate::binary64::rounding::{
    bit_length, distance, in_units, last_place, lemma_bit_length_bounds, lemma_bit_length_is,
    lemma_pow2_ordered, lemma_pow2_values, rounded, rounded_is_nearest,
};
use vstd::arithmetic::div_mod::*;
use vstd::arithmetic::power2::*;
use vstd::prelude::*;

verus! {

/// A positive whole number below `2^53` is converted exactly, to a significand of 53 digits:
/// the number, moved up by as many places as it has digits fewer.
pub proof fn lemma_whole_number_form(x: u64)
    requires
        0 < x < 0x20_0000_0000_0000,
    ensures
        bit_length(x as nat) <= 53,
        from_whole(x).significand() == x * pow2((53 - bit_length(x as nat)) as nat),
        from_whole(x).exponent() == bit_length(x as nat) - 53,
        bit_length(from_whole(x).significand()) == 53,
        0 < from_whole(x).significand() < 0x20_0000_0000_0000,
        0 < from_whole(x).magnitude() < INFINITY_BITS,
        !from_whole(x).is_negative(),
{
    reveal(from_whole);
    reveal(rounded);
    lemma_pow2_values();
    lemma_bit_length_bounds(x as nat);
    let len = bit_length(x as nat);
    if len > 53 {
        lemma_pow2_ordered(53, (len - 1) as nat);
    }
    let e = last_place(x as nat, 0);
    assert(e == len - 53);
    let up = (-e) as nat;
    let m = x as nat * pow2(up);
    lemma_pow2_pos(up);
    lemma_pow2_adds((len - 1) as nat, up);
    lemma_pow2_adds(len, up);
    assert(pow2((len - 1) as nat) * pow2(up) <= m < pow2(len) * pow2(up)) by (nonlinear_arith)
        requires
            m == x * pow2(up),
            pow2((len - 1) as nat) <= x < pow2(len),
            pow2(up) > 0,
    ;
    assert(len - 1 + up == 52);
    assert(pow2(52) <= m < pow2(53));
    assert(in_units(x as nat, 0, e) == m);
    lemma_pattern_is_read_back(m, e);
    lemma_bit_length_is(m, 53);
}

/// Two normal numbers with one pattern have one significand and one exponent, but for the
/// significand `2^53`, which stands for `2^52` one place up.
pub proof fn lemma_equal_patterns(m1: nat, e1: int, m2: nat, e2: int)
    requires
        MIN_EXPONENT <= e1,
        MIN_EXPONENT <= e2,
        HIDDEN_BIT <= m1 <= 2 * HIDDEN_BIT,
        HIDDEN_BIT <= m2 <= 2 * HIDDEN_BIT,
        pattern(m1, e1) == pattern(m2, e2),
        pattern(m2, e2) < INFINITY_BITS,
    ensures
        (e1 == e2 && m1 == m2) || (e1 == e2 + 1 && m1 == HIDDEN_BIT && m2 == 2 * HIDDEN_BIT) || (e2
            == e1 + 1 && m2 == HIDDEN_BIT && m1 == 2 * HIDDEN_BIT),
{
    let h = HIDDEN_BIT as int;
    assert((e1 + 1074) * h + m1 == (e2 + 1074) * h + m2);
    assert((e1 - e2) * h == m2 - m1) by (nonlinear_arith)
        requires
            (e1 + 1074) * h + m1 == (e2 + 1074) * h + m2,
    ;
    if e1 - e2 >= 2 {
        assert((e1 - e2) * h >= 2 * h) by (nonlinear_arith)
            requires
                e1 - e2 >= 2,
                h > 0,
        ;
    }
    if e2 - e1 >= 2 {
        assert((e1 - e2) * h <= -2 * h) by (nonlinear_arith)
            requires
                e2 - e1 >= 2,
                h > 0,
        ;
    }
    if e1 == e2 + 1 {
        assert((e1 - e2) * h == h) by (nonlinear_arith)
            requires
                e1 - e2 == 1,
        ;
    }
    if e2 == e1 + 1 {
        assert((e1 - e2) * h == -h) by (nonlinear_arith)
            requires
                e1 - e2 == -1,
        ;
    }
    if e1 == e2 {
        assert((e1 - e2) * h == 0) by (nonlinear_arith)
            requires
                e1 - e2 == 0,
        ;
    }
}

/// Where `m1` units of `x1` and `m2` units of `x2` both lie within half a unit of `n`, each in
/// its own unit, the first less half a unit is not above the second plus half a unit.
proof fn lemma_apart(m1: nat, x1: nat, m2: nat, x2: nat, n: nat)
    requires
        2 * distance(n as int, (m1 * x1) as int) <= x1,
        2 * distance(n as int, (m2 * x2) as int) <= x2,
    ensures
        (2 * m1 - 1) * x1 <= (2 * m2 + 1) * x2,
{
    assert((2 * m1 - 1) * x1 == 2 * (m1 * x1) - x1) by (nonlinear_arith);
    assert((2 * m2 + 1) * x2 == 2 * (m2 * x2) + x2) by (nonlinear_arith);
}

/// With `d1` above `d2` and `a1` above `c * d2`, the product `a1 * d1` exceeds
/// `(a1 + c) * d2`, and so in any unit `p`.
proof fn lemma_no_room(a1: int, c: int, d1: int, d2: int, p: int)
    requires
        0 < d2 < d1,
        p > 0,
        c >= 0,
        a1 > c * d2,
    ensures
        a1 * (d1 * p) > (a1 + c) * (d2 * p),
{
    assert(a1 * d1 >= a1 * d2 + a1) by (nonlinear_arith)
        requires
            a1 > 0,
            d1 >= d2 + 1,
    ;
    assert((a1 + c) * d2 == a1 * d2 + c * d2) by (nonlinear_arith);
    assert((a1 * d1) * p > ((a1 + c) * d2) * p) by (nonlinear_arith)
        requires
            a1 * d1 > (a1 + c) * d2,
            p > 0,
    ;
    assert((a1 * d1) * p == a1 * (d1 * p)) by (nonlinear_arith);
    assert(((a1 + c) * d2) * p == (a1 + c) * (d2 * p)) by (nonlinear_arith);
}

/// Division of a positive number by the smaller of two whole numbers up to `2^52` gives
/// strictly more, where the larger quotient is a normal number: the exact quotients lie
/// further apart than one last place of the larger one, so that no number of the format is
/// nearest to both.
pub proof fn lemma_smaller_divisor_gives_more(a: Binary64, d1: u64, d2: u64)
    requires
        !a.is_negative(),
        0 < a.magnitude() < INFINITY_BITS,
        0 < d2 < d1 <= HIDDEN_BIT,
        HIDDEN_BIT <= quotient(a, from_whole(d2)).magnitude() < INFINITY_BITS,
    ensures
        quotient(a, from_whole(d1)).magnitude() < quotient(a, from_whole(d2)).magnitude(),
{
    let f1 = from_whole(d1);
    let f2 = from_whole(d2);
    lemma_pow2_values();
    lemma_whole_number_form(d1);
    lemma_whole_number_form(d2);
    lemma_whole_numbers_ordered(d2, d1);
    lemma_quotient_ordered(a, f1, a, f2);
    let q1 = quotient(a, f1);
    let q2 = quotient(a, f2);
    if q1.magnitude() == q2.magnitude() {
        let n = a.significand();
        let ea = a.exponent();
        lemma_magnitude_is_pattern(a);
        assert(0 < n < 0x20_0000_0000_0000);
        let big1 = f1.significand();
        let big2 = f2.significand();
        let up1 = (53 - bit_length(d1 as nat)) as nat;
        let up2 = (53 - bit_length(d2 as nat)) as nat;
        let k1 = ea - f1.exponent();
        let k2 = ea - f2.exponent();
        assert(k1 == ea + up1);
        assert(k2 == ea + up2);
        quotient_is_nearest(n, big1, k1);
        quotient_is_nearest(n, big2, k2);
        let s = places(n, big1);
        assert(s == places(n, big2));
        let scaled = n * pow2(s);
        let g1 = k1 - s - 1;
        let g2 = k2 - s - 1;
        let dev1 = developed(scaled, big1);
        let dev2 = developed(scaled, big2);
        let e1 = last_place(dev1, g1);
        let e2 = last_place(dev2, g2);
        let m1 = in_units(dev1, g1, e1);
        let m2 = in_units(dev2, g2, e2);
        let unit1 = pow2((e1 - g1) as nat);
        let unit2 = pow2((e2 - g2) as nat);
        assert(q1.magnitude() == pattern(m1, e1) && q2.magnitude() == pattern(m2, e2)) by {
            reveal(quotient);
        }
        lemma_pow2_pos(s);
        assert(scaled > 0) by (nonlinear_arith)
            requires
                scaled == n * pow2(s),
                n > 0,
                pow2(s) > 0,
        ;
        assert(dev1 > 0 && dev2 > 0) by {
            if scaled / big1 == 0 {
                lemma_fundamental_div_mod(scaled as int, big1 as int);
            }
            if scaled / big2 == 0 {
                lemma_fundamental_div_mod(scaled as int, big2 as int);
            }
        }
        rounded_is_nearest(dev1, g1);
        rounded_is_nearest(dev2, g2);
        assert(HIDDEN_BIT <= m1 <= 2 * HIDDEN_BIT);
        assert(HIDDEN_BIT <= m2 <= 2 * HIDDEN_BIT);
        lemma_equal_patterns(m1, e1, m2, e2);
        // both bounds in one unit: the last place, seen from the exponent of the dividend
        let p1 = pow2((e1 - ea + s + 1) as nat);
        let p2 = pow2((e2 - ea + s + 1) as nat);
        lemma_pow2_adds((e1 - g1) as nat, up1);
        lemma_pow2_adds((e2 - g2) as nat, up2);
        lemma_pow2_pos((e1 - ea + s + 1) as nat);
        lemma_pow2_pos((e2 - ea + s + 1) as nat);
        let x1 = d1 as nat * p1;
        let x2 = d2 as nat * p2;
        assert(unit1 * big1 == x1) by (nonlinear_arith)
            requires
                big1 == d1 * pow2(up1),
                p1 == unit1 * pow2(up1),
                x1 == d1 * p1,
        ;
        assert(unit2 * big2 == x2) by (nonlinear_arith)
            requires
                big2 == d2 * pow2(up2),
                p2 == unit2 * pow2(up2),
                x2 == d2 * p2,
        ;
        assert(m1 * unit1 * big1 == m1 * x1) by (nonlinear_arith)
            requires
                unit1 * big1 == x1,
        ;
        assert(m2 * unit2 * big2 == m2 * x2) by (nonlinear_arith)
            requires
                unit2 * big2 == x2,
        ;
        lemma_apart(m1, x1, m2, x2, 2 * scaled);
        let h = HIDDEN_BIT as int;
        if e1 == e2 {
            lemma_no_room(2 * m1 - 1, 2, d1 as int, d2 as int, p1 as int);
        } else if e1 == e2 + 1 {
            lemma_pow2_unfold((e1 - ea + s + 1) as nat);
            assert((2 * m1 - 1) * x1 == (4 * h - 2) * (d1 * p2)) by (nonlinear_arith)
                requires
                    m1 == h,
                    x1 == d1 * p1,
                    p1 == 2 * p2,
            ;
            lemma_no_room(4 * h - 2, 3, d1 as int, d2 as int, p2 as int);
        } else {
            lemma_pow2_unfold((e2 - ea + s + 1) as nat);
            assert((2 * m2 + 1) * x2 == (4 * h + 2) * (d2 * p1)) by (nonlinear_arith)
                requires
                    m2 == h,
                    x2 == d2 * p2,
                    p2 == 2 * p1,
            ;
            lemma_no_room(4 * h - 1, 3, d1 as int, d2 as int, p1 as int);
        }
    }
}

} // verus!
