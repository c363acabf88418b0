//! Rounding to the nearest number of the format.

use crate::binary64::arithmetic::{larger, quotient};
use crate::binary64::format::{
    Binary64, HIDDEN_BIT, INFINITY_BITS, MIN_EXPONENT, lemma_magnitude_is_pattern,
    lemma_pattern_ordered, pattern,
};
use vstd::arithmetic::div_mod::*;
use vstd::arithmetic::mul::*;
use vstd::arithmetic::power2::*;
use vstd::prelude::*;

verus! {

/// The number of binary digits of `n`.
pub open spec fn bit_length(n: nat) -> nat
    decreases n,
{
    if n == 0 {
        0
    } else {
        1 + bit_length(n / 2)
    }
}

/// The exponent of the last place of the number of the format nearest to `n * 2^k`: the
/// number keeps 53 binary digits, or fewer where its last place would fall below `2^-1074`.
pub open spec fn last_place(n: nat, k: int) -> int {
    let e = bit_length(n) + k - 53;
    if e < MIN_EXPONENT {
        MIN_EXPONENT as int
    } else {
        e
    }
}

/// `n / unit`, rounded to the nearest whole number, to the even one of two equally near.
pub open spec fn nearest_multiple(n: nat, unit: nat) -> nat {
    let q = n / unit;
    let r = n % unit;
    if 2 * r > unit || (2 * r == unit && q % 2 == 1) {
        q + 1
    } else {
        q
    }
}

/// `n * 2^k` in units of `2^e`, rounded to the nearest whole number of units.
pub open spec fn in_units(n: nat, k: int, e: int) -> nat {
    if e <= k {
        n * pow2((k - e) as nat)
    } else {
        nearest_multiple(n, pow2((e - k) as nat))
    }
}

/// The magnitude of the number of the format nearest to `n * 2^k`, for positive `n`.
#[verifier::opaque]
pub open spec fn rounded(n: nat, k: int) -> u64 {
    pattern(in_units(n, k, last_place(n, k)), last_place(n, k))
}

/// The distance between two whole numbers.
pub open spec fn distance(a: int, b: int) -> int {
    if a >= b {
        a - b
    } else {
        b - a
    }
}

/// Whether `a * 2^i` is at most `b * 2^j`: both are compared in units of the smaller power.
pub open spec fn below(a: nat, i: int, b: nat, j: int) -> bool {
    if i <= j {
        a <= b * pow2((j - i) as nat)
    } else {
        a * pow2((i - j) as nat) <= b
    }
}

/// Rounding gives a nearest number of 53 binary digits, and the even one of two equally near.
///
/// With `e` the last place and `m` the significand that rounding gives for `n * 2^k`: where
/// `e` is not above `k` the result is exact, `m * 2^e = n * 2^k`. Otherwise, in units of
/// `2^k`, the result `m * 2^(e - k)` lies within half a last place of `n`, and `m` is even
/// where it lies at exactly half. The significand has 53 digits, or fewer at the least
/// exponent only, or it is `2^53`, which stands for `2^52` one place up.
pub proof fn rounded_is_nearest(n: nat, k: int)
    requires
        n > 0,
    ensures
        ({
            let e = last_place(n, k);
            let m = in_units(n, k, e);
            &&& e <= k ==> m == n * pow2((k - e) as nat)
            &&& e > k ==> 2 * distance(n as int, (m * pow2((e - k) as nat)) as int) <= pow2(
                (e - k) as nat,
            )
            &&& e > k && 2 * distance(n as int, (m * pow2((e - k) as nat)) as int) == pow2(
                (e - k) as nat,
            ) ==> m % 2 == 0
            &&& m <= pow2(53)
            &&& e > MIN_EXPONENT ==> m >= pow2(52)
        }),
{
    lemma_bit_length_bounds(n);
    let len = bit_length(n);
    let e = last_place(n, k);
    let m = in_units(n, k, e);
    if e <= k {
        let up = (k - e) as nat;
        lemma_pow2_pos(up);
        lemma_pow2_adds(len, up);
        lemma_pow2_adds((len - 1) as nat, up);
        lemma_pow2_ordered(len + up, 53);
        assert(n * pow2(up) < pow2(len) * pow2(up)) by (nonlinear_arith)
            requires
                n < pow2(len),
                pow2(up) > 0,
        ;
        assert(n * pow2(up) >= pow2((len - 1) as nat) * pow2(up)) by (nonlinear_arith)
            requires
                n >= pow2((len - 1) as nat),
                pow2(up) > 0,
        ;
        assert(m == n * pow2(up));
        assert(m <= pow2(53));
        if e > MIN_EXPONENT {
            assert(len - 1 + up == 52);
            assert(m >= pow2(52));
        }
    } else {
        let down = (e - k) as nat;
        let unit = pow2(down);
        lemma_pow2_pos(down);
        let q = n / unit;
        let r = n % unit;
        lemma_fundamental_div_mod(n as int, unit as int);
        lemma_mul_is_commutative(unit as int, q as int);
        assert((q + 1) * unit == q * unit + unit) by (nonlinear_arith);
        // the quotient has at most 53 digits, and all of them unless the exponent is the least
        if len >= down {
            lemma_pow2_adds((len - down) as nat, down);
            lemma_pow2_ordered((len - down) as nat, 53);
            assert(q < pow2((len - down) as nat)) by (nonlinear_arith)
                requires
                    q * unit <= n,
                    n < pow2((len - down) as nat) * unit,
                    unit > 0,
            ;
        } else {
            lemma_pow2_ordered(len, down);
            lemma_pow2_pos(53);
            lemma_basic_div(n as int, unit as int);
            lemma2_to64();
            lemma_pow2_ordered(1, 53);
        }
        assert(m == q || m == q + 1);
        assert(m <= pow2(53));
        if m == q {
            assert(distance(n as int, (m * unit) as int) == r);
        } else {
            assert(m * unit == q * unit + unit);
            assert(distance(n as int, (m * unit) as int) == unit - r);
        }
        if e > MIN_EXPONENT {
            assert(len - down == 53);
            lemma_pow2_adds(52, down);
            assert(q >= pow2(52)) by (nonlinear_arith)
                requires
                    n >= pow2(52) * unit,
                    n == q * unit + r,
                    r < unit,
                    unit > 0,
            ;
        }
    }
}

/// A larger number has no fewer digits.
pub proof fn lemma_bit_length_ordered(a: nat, b: nat)
    requires
        0 < a <= b,
    ensures
        bit_length(a) <= bit_length(b),
{
    lemma_bit_length_bounds(a);
    lemma_bit_length_bounds(b);
    if bit_length(a) > bit_length(b) {
        lemma_pow2_ordered(bit_length(b), (bit_length(a) - 1) as nat);
    }
}

/// Rounding to a multiple keeps the order.
pub proof fn lemma_nearest_multiple_ordered(a: nat, b: nat, unit: nat)
    requires
        a <= b,
        unit > 0,
    ensures
        nearest_multiple(a, unit) <= nearest_multiple(b, unit),
{
    lemma_div_is_ordered(a as int, b as int, unit as int);
    lemma_fundamental_div_mod(a as int, unit as int);
    lemma_fundamental_div_mod(b as int, unit as int);
    let qa = a / unit;
    let qb = b / unit;
    if qa == qb {
        let whole = unit * qa;
        assert(a == whole + a % unit);
        assert(b == whole + b % unit);
        assert(a % unit <= b % unit);
    }
}

/// Rounding keeps the order of the multiples of one power of two.
pub proof fn lemma_rounded_ordered_at(a: nat, b: nat, k: int)
    requires
        0 < a <= b,
    ensures
        rounded(a, k) <= rounded(b, k),
{
    reveal(rounded);
    lemma_bit_length_ordered(a, b);
    rounded_is_nearest(a, k);
    rounded_is_nearest(b, k);
    let ea = last_place(a, k);
    let eb = last_place(b, k);
    if ea == eb {
        if ea <= k {
            lemma_pow2_pos((k - ea) as nat);
            assert(a * pow2((k - ea) as nat) <= b * pow2((k - ea) as nat)) by (nonlinear_arith)
                requires
                    a <= b,
                    pow2((k - ea) as nat) > 0,
            ;
        } else {
            lemma_pow2_pos((ea - k) as nat);
            lemma_nearest_multiple_ordered(a, b, pow2((ea - k) as nat));
        }
    }
    lemma_pattern_ordered(in_units(a, k, ea), ea, in_units(b, k, eb), eb);
}

/// Doubling a number gives it one more digit.
pub proof fn lemma_bit_length_scaled(n: nat, j: nat)
    requires
        n > 0,
    ensures
        bit_length(n * pow2(j)) == bit_length(n) + j,
        n * pow2(j) > 0,
{
    lemma_bit_length_bounds(n);
    let len = bit_length(n);
    lemma_pow2_pos(j);
    lemma_pow2_adds((len - 1) as nat, j);
    lemma_pow2_adds(len, j);
    assert(pow2((len - 1) as nat) * pow2(j) <= n * pow2(j) < pow2(len) * pow2(j))
        by (nonlinear_arith)
        requires
            pow2((len - 1) as nat) <= n < pow2(len),
            pow2(j) > 0,
    ;
    lemma_bit_length_is(n * pow2(j), len + j);
}

/// Rounding depends on the number alone, not on how it is written: `n * 2^j * 2^(k - j)`
/// rounds as `n * 2^k` does.
pub proof fn lemma_rounded_scaled(n: nat, j: nat, k: int)
    requires
        n > 0,
    ensures
        rounded(n * pow2(j), k - j) == rounded(n, k),
{
    reveal(rounded);
    lemma_bit_length_scaled(n, j);
    let big = n * pow2(j);
    let e = last_place(n, k);
    assert(last_place(big, k - j) == e);
    lemma_pow2_pos(j);
    if e <= k - j {
        lemma_pow2_adds(j, (k - j - e) as nat);
        assert(big * pow2((k - j - e) as nat) == n * pow2((k - e) as nat)) by (nonlinear_arith)
            requires
                big == n * pow2(j),
                pow2(j) * pow2((k - j - e) as nat) == pow2((k - e) as nat),
        ;
    } else if e <= k {
        // the finer writing is cut, but nothing is cut off
        let unit = pow2((e - k + j) as nat);
        lemma_pow2_pos((e - k + j) as nat);
        lemma_pow2_adds((k - e) as nat, (e - k + j) as nat);
        let whole = n * pow2((k - e) as nat);
        assert(big == whole * unit) by (nonlinear_arith)
            requires
                big == n * pow2(j),
                whole == n * pow2((k - e) as nat),
                pow2((k - e) as nat) * unit == pow2(j),
        ;
        lemma_fundamental_div_mod_converse(big as int, unit as int, whole as int, 0);
    } else {
        let unit = pow2((e - k) as nat);
        let wide = pow2((e - k + j) as nat);
        lemma_pow2_pos((e - k) as nat);
        lemma_pow2_adds((e - k) as nat, j);
        let q = n / unit;
        let r = n % unit;
        lemma_fundamental_div_mod(n as int, unit as int);
        assert(big == q * wide + r * pow2(j) && r * pow2(j) < wide) by (nonlinear_arith)
            requires
                big == n * pow2(j),
                n == unit * q + r,
                r < unit,
                wide == unit * pow2(j),
                pow2(j) > 0,
        ;
        lemma_fundamental_div_mod_converse(
            big as int,
            wide as int,
            q as int,
            (r * pow2(j)) as int,
        );
        assert(2 * (r * pow2(j)) > wide <==> 2 * r > unit) by (nonlinear_arith)
            requires
                wide == unit * pow2(j),
                pow2(j) > 0,
        ;
        assert(2 * (r * pow2(j)) == wide <==> 2 * r == unit) by (nonlinear_arith)
            requires
                wide == unit * pow2(j),
                pow2(j) > 0,
        ;
    }
}

/// Numbers are compared the same way in units of any power of two that is not above theirs.
pub proof fn lemma_below_in_units(a: nat, i: int, b: nat, j: int, base: int)
    requires
        base <= i,
        base <= j,
    ensures
        below(a, i, b, j) <==> a * pow2((i - base) as nat) <= b * pow2((j - base) as nat),
{
    let low = if i <= j {
        i
    } else {
        j
    };
    let t = (low - base) as nat;
    lemma_pow2_pos(t);
    lemma_pow2_adds((i - low) as nat, t);
    lemma_pow2_adds((j - low) as nat, t);
    let x = a * pow2((i - low) as nat);
    let y = b * pow2((j - low) as nat);
    assert(a * pow2((i - base) as nat) == x * pow2(t)) by (nonlinear_arith)
        requires
            pow2((i - base) as nat) == pow2((i - low) as nat) * pow2(t),
            x == a * pow2((i - low) as nat),
    ;
    assert(b * pow2((j - base) as nat) == y * pow2(t)) by (nonlinear_arith)
        requires
            pow2((j - base) as nat) == pow2((j - low) as nat) * pow2(t),
            y == b * pow2((j - low) as nat),
    ;
    assert(x <= y <==> x * pow2(t) <= y * pow2(t)) by (nonlinear_arith)
        requires
            pow2(t) > 0,
    ;
    lemma2_to64();
    assert(a * pow2(0) == a && b * pow2(0) == b) by (nonlinear_arith)
        requires
            pow2(0) == 1,
    ;
}

/// The order of two numbers is kept by their products with two numbers in the same order.
pub proof fn lemma_below_product(a: nat, i: int, b: nat, j: int, c: nat, u: int, d: nat, v: int)
    requires
        below(a, i, b, j),
        below(c, u, d, v),
    ensures
        below(a * c, i + u, b * d, j + v),
{
    let m1 = if i <= j {
        i
    } else {
        j
    };
    let m2 = if u <= v {
        u
    } else {
        v
    };
    lemma_below_in_units(a, i, b, j, m1);
    lemma_below_in_units(c, u, d, v, m2);
    lemma_below_in_units(a * c, i + u, b * d, j + v, m1 + m2);
    lemma_pow2_adds((i - m1) as nat, (u - m2) as nat);
    lemma_pow2_adds((j - m1) as nat, (v - m2) as nat);
    let pa = pow2((i - m1) as nat);
    let pb = pow2((j - m1) as nat);
    let pc = pow2((u - m2) as nat);
    let pd = pow2((v - m2) as nat);
    assert((a * c) * (pa * pc) <= (b * d) * (pb * pd)) by (nonlinear_arith)
        requires
            a * pa <= b * pb,
            c * pc <= d * pd,
    ;
}

/// Rounding keeps the order: of two numbers `n1 * 2^k1` and `n2 * 2^k2`, the larger does not
/// round to the smaller pattern.
pub proof fn lemma_rounded_ordered(n1: nat, k1: int, n2: nat, k2: int)
    requires
        n1 > 0,
        n2 > 0,
        below(n1, k1, n2, k2),
    ensures
        rounded(n1, k1) <= rounded(n2, k2),
{
    if k1 <= k2 {
        let j = (k2 - k1) as nat;
        lemma_rounded_scaled(n2, j, k2);
        lemma_bit_length_scaled(n2, j);
        lemma_rounded_ordered_at(n1, n2 * pow2(j), k1);
    } else {
        let j = (k1 - k2) as nat;
        lemma_rounded_scaled(n1, j, k1);
        lemma_bit_length_scaled(n1, j);
        lemma_rounded_ordered_at(n1 * pow2(j), n2, k2);
    }
}

/// Rounding a number of the format gives the number.
pub proof fn lemma_rounded_of_a_number(a: Binary64)
    requires
        0 < a.magnitude() < INFINITY_BITS,
    ensures
        rounded(a.significand(), a.exponent()) == a.magnitude(),
{
    reveal(rounded);
    lemma_pow2_values();
    lemma_magnitude_is_pattern(a);
    let s = a.significand();
    let e = a.exponent();
    lemma_bit_length_bounds(s);
    let len = bit_length(s);
    if a.magnitude() >= HIDDEN_BIT {
        lemma_bit_length_is(s, 53);
    } else {
        if len > 52 {
            lemma_pow2_ordered(52, (len - 1) as nat);
        }
    }
    assert(last_place(s, e) == e);
    lemma2_to64();
    assert(s * pow2(0) == s) by (nonlinear_arith)
        requires
            pow2(0) == 1,
    ;
}

/// A positive number lies between the powers of two that its number of digits names.
pub proof fn lemma_bit_length_bounds(n: nat)
    requires
        n > 0,
    ensures
        bit_length(n) >= 1,
        pow2((bit_length(n) - 1) as nat) <= n < pow2(bit_length(n)),
    decreases n,
{
    lemma2_to64();
    if n == 1 {
        assert(bit_length(1) == 1 + bit_length(0));
    } else {
        lemma_bit_length_bounds(n / 2);
        let l = bit_length(n / 2);
        lemma_pow2_unfold(l);
        lemma_pow2_unfold((l + 1) as nat);
    }
}

/// A number between two neighbouring powers of two has the number of digits of the upper one.
pub proof fn lemma_bit_length_is(n: nat, len: nat)
    requires
        len >= 1,
        pow2((len - 1) as nat) <= n < pow2(len),
    ensures
        bit_length(n) == len,
{
    lemma_pow2_pos((len - 1) as nat);
    lemma_bit_length_bounds(n);
    let l = bit_length(n);
    if l < len {
        if l < len - 1 {
            lemma_pow2_strictly_increases(l, (len - 1) as nat);
        }
    } else if l > len {
        if len < l - 1 {
            lemma_pow2_strictly_increases(len, (l - 1) as nat);
        }
    }
}

pub proof fn lemma_pow2_values()
    ensures
        pow2(52) == 0x10_0000_0000_0000,
        pow2(53) == 0x20_0000_0000_0000,
        pow2(63) == 0x8000_0000_0000_0000,
        pow2(64) == 0x1_0000_0000_0000_0000,
        pow2(120) == 0x100_0000_0000_0000_0000_0000_0000_0000,
        pow2(121) == 0x200_0000_0000_0000_0000_0000_0000_0000,
        pow2(122) == 0x400_0000_0000_0000_0000_0000_0000_0000,
        pow2(127) == 0x8000_0000_0000_0000_0000_0000_0000_0000,
{
    lemma2_to64();
    lemma2_to64_rest();
    lemma_pow2_adds(64, 56);
    lemma_pow2_adds(64, 57);
    lemma_pow2_adds(64, 58);
    lemma_pow2_adds(64, 63);
}

pub proof fn lemma_pow2_ordered(a: nat, b: nat)
    requires
        a <= b,
    ensures
        pow2(a) <= pow2(b),
        pow2(a) > 0,
{
    lemma_pow2_pos(a);
    if a < b {
        lemma_pow2_strictly_increases(a, b);
    }
}

/// Two to the power `n`.
pub fn power_of_two(n: u32) -> (r: u128)
    requires
        n < 128,
    ensures
        r == pow2(n as nat),
        r > 0,
{
    let mut r: u128 = 1;
    let mut i: u32 = 0;
    proof {
        lemma2_to64();
    }
    while i < n
        invariant
            i <= n < 128,
            r == pow2(i as nat),
            r > 0,
        decreases n - i,
    {
        proof {
            lemma_pow2_unfold((i + 1) as nat);
            lemma_pow2_values();
            lemma_pow2_ordered((i + 1) as nat, 127);
        }
        r = r * 2;
        i = i + 1;
    }
    r
}

/// Counts the binary digits of `n`.
pub fn count_bits(n: u128) -> (r: u32)
    ensures
        r == bit_length(n as nat),
        r <= 128,
        n > 0 ==> r >= 1 && pow2((r - 1) as nat) <= n < pow2(r as nat),
{
    let mut x: u128 = n;
    let mut len: u32 = 0;
    proof {
        lemma2_to64();
        assert(x as nat * pow2(0) == n) by (nonlinear_arith)
            requires
                x == n,
                pow2(0) == 1,
        ;
    }
    while x > 0
        invariant
            bit_length(n as nat) == len + bit_length(x as nat),
            x as nat * pow2(len as nat) <= n,
            len <= 128,
            x > 0 ==> len < 128,
        decreases x,
    {
        proof {
            lemma_pow2_unfold((len + 1) as nat);
            lemma_pow2_pos(len as nat);
            assert((x / 2) as nat * pow2((len + 1) as nat) <= x as nat * pow2(len as nat))
                by (nonlinear_arith)
                requires
                    pow2((len + 1) as nat) == 2 * pow2(len as nat),
            ;
            // a number with a digit left has more digits than those counted
            if len + 1 >= 128 && x / 2 > 0 {
                lemma_pow2_values();
                lemma_pow2_adds(64, 64);
                lemma_pow2_ordered(128, (len + 1) as nat);
                assert((x / 2) as nat * pow2((len + 1) as nat) >= pow2((len + 1) as nat))
                    by (nonlinear_arith)
                    requires
                        x / 2 >= 1,
                ;
                assert(false);
            }
        }
        x = x / 2;
        len = len + 1;
    }
    proof {
        if n > 0 {
            lemma_bit_length_bounds(n as nat);
        }
    }
    len
}

/// Packs the magnitude of the number of the format nearest to `n * 2^k`.
pub fn round_to_nearest(n: u128, k: i64) -> (r: u64)
    requires
        0 < n < 0x100_0000_0000_0000_0000_0000_0000_0000,
        -4000 <= k <= 4000,
    ensures
        r == rounded(n as nat, k as int),
        r <= INFINITY_BITS,
{
    reveal(rounded);
    let len = count_bits(n);
    proof {
        lemma_pow2_values();
        if len > 120 {
            lemma_pow2_ordered(120, (len - 1) as nat);
        }
    }
    let natural: i64 = len as i64 + k - 53;
    let e: i64 = if natural < MIN_EXPONENT {
        MIN_EXPONENT
    } else {
        natural
    };
    assert(e == last_place(n as nat, k as int));
    let m: u128 = if e <= k {
        // the number has room for all its digits
        let up: u32 = (k - e) as u32;
        let factor = power_of_two(up);
        proof {
            lemma_pow2_adds((len - 1) as nat, 1);
            lemma_pow2_adds(len as nat, up as nat);
            lemma_pow2_ordered((len + up) as nat, 53);
            assert(n * factor < pow2(len as nat) * pow2(up as nat)) by (nonlinear_arith)
                requires
                    n < pow2(len as nat),
                    factor == pow2(up as nat),
                    factor > 0,
            ;
        }
        n * factor
    } else {
        let down: i64 = e - k;
        if down >= 122 {
            proof {
                lemma_pow2_ordered(122, down as nat);
                let unit = pow2(down as nat);
                lemma_basic_div(n as int, unit as int);
                lemma_small_mod(n as nat, unit);
            }
            0
        } else {
            let unit = power_of_two(down as u32);
            let q: u128 = n / unit;
            let rest: u128 = n % unit;
            proof {
                lemma_pow2_ordered(down as nat, 121);
                // the quotient has at most 53 digits
                if len as int - down > 0 {
                    lemma_pow2_adds((len - down) as nat, down as nat);
                    lemma_pow2_ordered((len - down) as nat, 53);
                    assert(q < pow2((len - down) as nat)) by (nonlinear_arith)
                        requires
                            q == n / unit,
                            unit > 0,
                            n < pow2((len - down) as nat) * unit,
                    ;
                } else {
                    lemma_pow2_ordered(len as nat, down as nat);
                    lemma_basic_div(n as int, unit as int);
                }
            }
            if 2 * rest > unit || (2 * rest == unit && q % 2 == 1) {
                q + 1
            } else {
                q
            }
        }
    };
    assert(m == in_units(n as nat, k as int, e as int));
    assert(m <= 0x20_0000_0000_0000);
    if e + 1074 >= 2047 {
        assert((e + 1074) * (HIDDEN_BIT as int) >= 2047 * (HIDDEN_BIT as int)) by (nonlinear_arith)
            requires
                e + 1074 >= 2047,
        ;
        INFINITY_BITS
    } else {
        assert((e + 1074) * (HIDDEN_BIT as int) <= 2046 * (HIDDEN_BIT as int)) by (nonlinear_arith)
            requires
                0 <= e + 1074 <= 2046,
        ;
        let p: u64 = ((e + 1074) as u64) * HIDDEN_BIT + (m as u64);
        if p >= INFINITY_BITS {
            INFINITY_BITS
        } else {
            p
        }
    }
}

} // verus!
