//! The bonding curve: reserve as a function of supply, and what a trade costs or returns.
//!
//! With initial price `P0` and maximum supply `M`, the reserve that backs a supply `S < M` is
//! `R(S) = M * P0 * S / (M - S)`. Minting `A` tokens costs `R(S + A) - R(S)`, burning `A` tokens
//! returns `R(S) - R(S - A)`. The reserve is evaluated in binary64 arithmetic, from left to
//! right; what is transferred is the difference of the whole parts of two reserves.

use crate::binary64::{
    difference, from_whole, larger, lemma_infinite_chain, lemma_negative_chain,
    lemma_no_whole_part, lemma_product_commutes, lemma_product_of_finite, lemma_product_ordered,
    lemma_quotient_ordered, lemma_smaller_divisor_gives_more, lemma_times_zero,
    lemma_whole_number_is_finite, lemma_whole_numbers_ordered, lemma_whole_parts_ordered,
    lemma_zero_over, product, quotient, whole_part, Binary64, HIDDEN_BIT, INFINITY_BITS,
};
use crate::error::HypeError;
use vstd::prelude::*;

verus! {

/// The parameters of a root ledger that price a trade.
#[derive(Clone, Copy, Debug, PartialEq, Eq, Structural)]
pub struct Curve {
    /// Price of the first token, `P0`.
    pub init_price: Binary64,
    /// Supply that the curve never reaches, `M`.
    pub max_supply: u64,
    /// Share of the trade's curve movement that is charged as fee.
    pub fee_rate: Binary64,
    /// Least fee of a trade, in whole units of the base currency.
    pub min_fee: Binary64,
    /// Smallest units in one whole unit of the base currency.
    pub decimals_factor: u32,
}

/// What a trade moves on the curve and the fee charged for it.
#[derive(Clone, Copy, Debug, PartialEq, Eq, Structural)]
pub struct Quote {
    /// Base currency that the curve takes in (mint) or pays out (burn), before fees.
    pub amount: u64,
    /// Gross fee of the trade, in smallest units of the base currency.
    pub fee: u64,
}

/// `R(supply)` as it is computed: `((M * P0) * S) / (M - S)`, each step rounded to the nearest
/// number of the format.
pub open spec fn reserve_value(init_price: Binary64, max_supply: u64, supply: u64) -> Binary64
    recommends
        supply < max_supply,
{
    quotient(
        product(product(from_whole(max_supply), init_price), from_whole(supply)),
        from_whole((max_supply - supply) as u64),
    )
}

/// `R(supply)`: refused where the supply has reached the maximum.
pub open spec fn reserve(init_price: Binary64, max_supply: u64, supply: nat) -> Result<
    Binary64,
    HypeError,
> {
    if max_supply as nat <= supply {
        Err(HypeError::InvalidSupply)
    } else {
        Ok(reserve_value(init_price, max_supply, supply as u64))
    }
}

/// The gross fee of a trade that moves the curve by `delta`: the whole part of
/// `max(delta * fee_rate, min_fee) * decimals_factor`.
pub open spec fn trade_fee(delta: Binary64, curve: Curve) -> u64 {
    whole_part(
        product(
            larger(product(delta, curve.fee_rate), curve.min_fee),
            from_whole(curve.decimals_factor as u64),
        ),
    )
}

/// What minting `amount` tokens at `supply` costs, or why the mint is refused.
///
/// The supply must be below the maximum before and after the mint, the amount must not be
/// zero, and the cost must not exceed `max_cost` where that is not zero. The cost is the
/// whole part of the reserve after the mint less the whole part of the reserve before it,
/// which is never more.
pub open spec fn mint_quote(curve: Curve, supply: u64, amount: u64, max_cost: u64) -> Result<
    Quote,
    HypeError,
> {
    match reserve(curve.init_price, curve.max_supply, supply as nat) {
        Err(e) => Err(e),
        Ok(before) => if amount == 0 {
            Err(HypeError::TooSmallQuantity)
        } else {
            match reserve(curve.init_price, curve.max_supply, (supply + amount) as nat) {
                Err(e) => Err(e),
                Ok(after) => {
                    let cost = (whole_part(after) - whole_part(before)) as u64;
                    if max_cost > 0 && cost > max_cost {
                        Err(HypeError::MaxTradeCostExceeded)
                    } else {
                        Ok(Quote { amount: cost, fee: trade_fee(difference(after, before), curve) })
                    }
                },
            }
        },
    }
}

/// What burning `amount` tokens at `supply` returns, or why the burn is refused.
///
/// The supply must be below the maximum, the amount must be neither zero nor more than the
/// supply, and the return must not fall below `min_cashout` where that is not zero. The
/// return is the whole part of the reserve before the burn less the whole part of the reserve
/// after it, which is never more.
pub open spec fn burn_quote(curve: Curve, supply: u64, amount: u64, min_cashout: u64) -> Result<
    Quote,
    HypeError,
> {
    match reserve(curve.init_price, curve.max_supply, supply as nat) {
        Err(e) => Err(e),
        Ok(before) => if amount == 0 {
            Err(HypeError::TooSmallQuantity)
        } else if amount > supply {
            Err(HypeError::TooBigQuantity)
        } else {
            match reserve(curve.init_price, curve.max_supply, (supply - amount) as nat) {
                Err(e) => Err(e),
                Ok(after) => {
                    let cashout = (whole_part(before) - whole_part(after)) as u64;
                    if min_cashout > 0 && cashout < min_cashout {
                        Err(HypeError::MaxTradeCostExceeded)
                    } else {
                        Ok(
                            Quote {
                                amount: cashout,
                                fee: trade_fee(difference(before, after), curve),
                            },
                        )
                    }
                },
            }
        },
    }
}

/// The exact reserve as a fraction: the numerator of `R(supply)` over the denominator
/// `M - supply`, for a price whose significand is `price`. The power of two of the price is
/// the same for every supply and is left out.
pub open spec fn exact_numerator(price: nat, max_supply: nat, supply: nat) -> nat {
    max_supply * supply * price
}

/// `R(0) = 0`: an empty supply is backed by an empty reserve, whatever the finite price. Its
/// whole part is zero for any price at all.
pub proof fn reserve_of_nothing_is_zero(init_price: Binary64, max_supply: u64)
    requires
        max_supply > 0,
    ensures
        reserve(init_price, max_supply, 0) is Ok,
        whole_part(reserve(init_price, max_supply, 0)->Ok_0) == 0,
        !init_price.is_nan() && !init_price.is_infinite() && !product(
            from_whole(max_supply),
            init_price,
        ).is_infinite() ==> reserve(init_price, max_supply, 0)->Ok_0.is_zero(),
{
    lemma_whole_number_is_finite(max_supply);
    let scaled = product(from_whole(max_supply), init_price);
    let nothing = from_whole(0);
    assert(nothing == Binary64 { bits: 0 }) by {
        reveal(from_whole);
    }
    lemma_times_zero(scaled);
    let numerator = product(scaled, nothing);
    lemma_zero_over(numerator, from_whole(max_supply));
    lemma_no_whole_part(quotient(numerator, from_whole(max_supply)));
    if !init_price.is_nan() && !init_price.is_infinite() {
        lemma_product_of_finite(from_whole(max_supply), init_price);
    }
}

/// The whole part of the reserve does not fall when the supply grows, whatever the price:
/// a mint never costs less than nothing and a burn never returns less than nothing. Where the
/// price is a finite number that is not negative, the reserve itself does not fall.
pub proof fn reserve_grows_with_supply(init_price: Binary64, max_supply: u64, s1: u64, s2: u64)
    requires
        s1 <= s2 < max_supply,
    ensures
        whole_part(reserve_value(init_price, max_supply, s1)) <= whole_part(
            reserve_value(init_price, max_supply, s2),
        ),
        !init_price.is_negative() && init_price.magnitude() < INFINITY_BITS && product(
            from_whole(max_supply),
            init_price,
        ).magnitude() < INFINITY_BITS ==> reserve_value(
            init_price,
            max_supply,
            s1,
        ).magnitude() <= reserve_value(init_price, max_supply, s2).magnitude()
            && !reserve_value(init_price, max_supply, s1).is_negative() && !reserve_value(
            init_price,
            max_supply,
            s2,
        ).is_negative(),
{
    let whole = from_whole(max_supply);
    let f1 = from_whole(s1);
    let f2 = from_whole(s2);
    let d1 = from_whole((max_supply - s1) as u64);
    let d2 = from_whole((max_supply - s2) as u64);
    lemma_whole_number_is_finite(max_supply);
    lemma_whole_numbers_ordered(s1, s2);
    lemma_whole_numbers_ordered((max_supply - s2) as u64, (max_supply - s1) as u64);
    lemma_whole_number_is_finite((max_supply - s1) as u64);
    lemma_whole_number_is_finite((max_supply - s2) as u64);
    if init_price.is_negative() || init_price.is_nan() {
        lemma_negative_chain(whole, init_price, f1, d1);
    } else {
        let c = product(whole, init_price);
        if init_price.is_infinite() {
            assert(c.bits == INFINITY_BITS) by {
                reveal(product);
            }
        } else {
            lemma_product_of_finite(whole, init_price);
            lemma_product_ordered(whole, init_price, init_price);
        }
        if c.magnitude() == INFINITY_BITS {
            assert(c.bits == INFINITY_BITS);
            lemma_infinite_chain(c, f1, d1);
            lemma_infinite_chain(c, f2, d2);
            if s1 > 0 {
                lemma_whole_number_is_finite(s1);
            }
            if s2 > 0 {
                lemma_whole_number_is_finite(s2);
            }
            assert(from_whole(0).is_zero()) by {
                reveal(from_whole);
            }
        } else {
            lemma_product_ordered(c, f1, f2);
            lemma_quotient_ordered(product(c, f1), d1, product(c, f2), d2);
            lemma_whole_parts_ordered(
                reserve_value(init_price, max_supply, s1),
                reserve_value(init_price, max_supply, s2),
            );
        }
    }
}

/// The reserve grows strictly with the supply wherever rounding leaves room for it: for a
/// maximum supply up to `2^52` and a finite price that is not negative, a larger supply has a
/// strictly larger reserve, as long as that reserve is a normal number of the format, neither
/// an infinity nor below the least normal number. The exact reserves of two supplies then lie
/// further apart than a last place, because their denominators differ by one or more.
pub proof fn reserve_grows_strictly_with_supply(
    init_price: Binary64,
    max_supply: u64,
    s1: u64,
    s2: u64,
)
    requires
        s1 < s2 < max_supply <= HIDDEN_BIT,
        !init_price.is_negative(),
        init_price.magnitude() < INFINITY_BITS,
        product(from_whole(max_supply), init_price).magnitude() < INFINITY_BITS,
        HIDDEN_BIT <= reserve_value(init_price, max_supply, s2).magnitude() < INFINITY_BITS,
    ensures
        !reserve_value(init_price, max_supply, s1).is_negative(),
        !reserve_value(init_price, max_supply, s2).is_negative(),
        reserve_value(init_price, max_supply, s1).magnitude() < reserve_value(
            init_price,
            max_supply,
            s2,
        ).magnitude(),
{
    let whole = from_whole(max_supply);
    let f1 = from_whole(s1);
    let f2 = from_whole(s2);
    let d1 = from_whole((max_supply - s1) as u64);
    let d2 = from_whole((max_supply - s2) as u64);
    lemma_whole_number_is_finite(max_supply);
    lemma_whole_numbers_ordered(s1, s2);
    lemma_whole_number_is_finite((max_supply - s1) as u64);
    lemma_whole_number_is_finite((max_supply - s2) as u64);
    lemma_product_ordered(whole, init_price, init_price);
    let c = product(whole, init_price);
    lemma_product_ordered(c, f1, f2);
    let a1 = product(c, f1);
    let a2 = product(c, f2);
    assert(0 < a2.magnitude() < INFINITY_BITS) by {
        reveal(quotient);
    }
    lemma_whole_numbers_ordered((max_supply - s2) as u64, (max_supply - s1) as u64);
    lemma_quotient_ordered(a1, d1, a2, d1);
    lemma_quotient_ordered(a2, d1, a2, d2);
    lemma_smaller_divisor_gives_more(a2, (max_supply - s1) as u64, (max_supply - s2) as u64);
}

/// The reserve does not fall when the price grows: of two finite prices that are not
/// negative, the larger gives no smaller reserve at any supply below the maximum, as long as
/// the maximum supply times the larger price is a finite number.
pub proof fn reserve_grows_with_price(p1: Binary64, p2: Binary64, max_supply: u64, supply: u64)
    requires
        supply < max_supply,
        !p1.is_negative(),
        !p2.is_negative(),
        p1.magnitude() <= p2.magnitude() < INFINITY_BITS,
        product(from_whole(max_supply), p2).magnitude() < INFINITY_BITS,
    ensures
        !reserve_value(p1, max_supply, supply).is_negative(),
        !reserve_value(p2, max_supply, supply).is_negative(),
        reserve_value(p1, max_supply, supply).magnitude() <= reserve_value(
            p2,
            max_supply,
            supply,
        ).magnitude() <= INFINITY_BITS,
        whole_part(reserve_value(p1, max_supply, supply)) <= whole_part(
            reserve_value(p2, max_supply, supply),
        ),
{
    let whole = from_whole(max_supply);
    let f = from_whole(supply);
    let d = from_whole((max_supply - supply) as u64);
    lemma_whole_number_is_finite(max_supply);
    lemma_whole_numbers_ordered(supply, supply);
    lemma_whole_number_is_finite((max_supply - supply) as u64);
    lemma_product_ordered(whole, p1, p2);
    let c1 = product(whole, p1);
    let c2 = product(whole, p2);
    lemma_product_commutes(c1, f);
    lemma_product_commutes(c2, f);
    lemma_product_ordered(f, c1, c2);
    lemma_quotient_ordered(product(c1, f), d, product(c2, f), d);
    lemma_whole_parts_ordered(
        reserve_value(p1, max_supply, supply),
        reserve_value(p2, max_supply, supply),
    );
}

/// The exact curve is strictly increasing in the supply: for `s1 < s2 < M` and a positive
/// price, the fractions `R(s1) = n1 / d1` and `R(s2) = n2 / d2` satisfy `n1 * d2 < n2 * d1`.
pub proof fn curve_increases_with_supply(price: nat, max_supply: nat, s1: nat, s2: nat)
    requires
        s1 < s2 < max_supply,
        price > 0,
    ensures
        exact_numerator(price, max_supply, s1) * (max_supply - s2) < exact_numerator(
            price,
            max_supply,
            s2,
        ) * (max_supply - s1),
{
    let p = price as int;
    let m = max_supply as int;
    let n1 = exact_numerator(price, max_supply, s1) as int;
    let n2 = exact_numerator(price, max_supply, s2) as int;
    assert(n1 < n2) by (nonlinear_arith)
        requires
            n1 == m * s1 * p,
            n2 == m * s2 * p,
            0 <= s1 < s2,
            0 < p,
            0 < m,
    ;
    assert(n1 * (m - s2) < n2 * (m - s1)) by (nonlinear_arith)
        requires
            0 <= n1 < n2,
            0 < m - s2 < m - s1,
    ;
}

/// The exact curve is strictly increasing in the initial price: for `0 < s < M` and two
/// prices of the same exponent, the one with the larger significand gives the larger
/// numerator over the same denominator.
pub proof fn curve_increases_with_price(p1: nat, p2: nat, max_supply: nat, supply: nat)
    requires
        p1 < p2,
        0 < supply < max_supply,
    ensures
        exact_numerator(p1, max_supply, supply) < exact_numerator(p2, max_supply, supply),
{
    let m = max_supply as int;
    let s = supply as int;
    let a = p1 as int;
    let b = p2 as int;
    assert(m * s * a < m * s * b) by (nonlinear_arith)
        requires
            0 < s < m,
            0 <= a < b,
    ;
}

/// Computes `R(supply)` for a curve with the given initial price and maximum supply.
pub fn get_reserve(init_price: Binary64, max_supply: u64, supply: u64) -> (r: Result<
    Binary64,
    HypeError,
>)
    ensures
        r == reserve(init_price, max_supply, supply as nat),
{
    if max_supply <= supply {
        return Err(HypeError::InvalidSupply);
    }
    let scaled = Binary64::from_u64(max_supply).times(&init_price);
    let numerator = scaled.times(&Binary64::from_u64(supply));
    Ok(numerator.over(&Binary64::from_u64(max_supply - supply)))
}

/// Computes the gross fee of a trade that moves the curve by `delta`.
pub fn get_trade_fee(delta: Binary64, curve: &Curve) -> (r: u64)
    ensures
        r == trade_fee(delta, *curve),
{
    let units = delta.times(&curve.fee_rate).larger_of(&curve.min_fee);
    units.times(&Binary64::from_u64(curve.decimals_factor as u64)).to_u64()
}

/// Prices a mint of `amount` tokens at `supply`; `max_cost`, where not zero, bounds the cost.
pub fn quote_mint(curve: &Curve, supply: u64, amount: u64, max_cost: u64) -> (r: Result<
    Quote,
    HypeError,
>)
    ensures
        r == mint_quote(*curve, supply, amount, max_cost),
{
    let before = match get_reserve(curve.init_price, curve.max_supply, supply) {
        Ok(v) => v,
        Err(e) => {
            return Err(e);
        },
    };
    if amount == 0 {
        return Err(HypeError::TooSmallQuantity);
    }
    let target = match supply.checked_add(amount) {
        Some(v) => v,
        None => {
            return Err(HypeError::InvalidSupply);
        },
    };
    let after = match get_reserve(curve.init_price, curve.max_supply, target) {
        Ok(v) => v,
        Err(e) => {
            return Err(e);
        },
    };
    proof {
        reserve_grows_with_supply(curve.init_price, curve.max_supply, supply, target);
    }
    let cost: u64 = after.to_u64() - before.to_u64();
    if max_cost > 0 && cost > max_cost {
        return Err(HypeError::MaxTradeCostExceeded);
    }
    Ok(Quote { amount: cost, fee: get_trade_fee(after.minus(&before), curve) })
}

/// Prices a burn of `amount` tokens at `supply`; `min_cashout`, where not zero, bounds the
/// return from below.
pub fn quote_burn(curve: &Curve, supply: u64, amount: u64, min_cashout: u64) -> (r: Result<
    Quote,
    HypeError,
>)
    ensures
        r == burn_quote(*curve, supply, amount, min_cashout),
{
    let before = match get_reserve(curve.init_price, curve.max_supply, supply) {
        Ok(v) => v,
        Err(e) => {
            return Err(e);
        },
    };
    if amount == 0 {
        return Err(HypeError::TooSmallQuantity);
    }
    if amount > supply {
        return Err(HypeError::TooBigQuantity);
    }
    let after = match get_reserve(curve.init_price, curve.max_supply, supply - amount) {
        Ok(v) => v,
        Err(e) => {
            return Err(e);
        },
    };
    proof {
        reserve_grows_with_supply(
            curve.init_price,
            curve.max_supply,
            (supply - amount) as u64,
            supply,
        );
    }
    let cashout: u64 = before.to_u64() - after.to_u64();
    if min_cashout > 0 && cashout < min_cashout {
        return Err(HypeError::MaxTradeCostExceeded);
    }
    Ok(Quote { amount: cashout, fee: get_trade_fee(before.minus(&after), curve) })
}

/// A mint followed at once by a burn of the same amount moves the curve back to where it was:
/// where both are accepted, the burn returns what the mint cost before fees, and is charged
/// the same fee.
pub proof fn burn_returns_what_mint_cost(curve: Curve, supply: u64, amount: u64)
    requires
        supply + amount <= u64::MAX,
        mint_quote(curve, supply, amount, 0) is Ok,
        burn_quote(curve, (supply + amount) as u64, amount, 0) is Ok,
    ensures
        burn_quote(curve, (supply + amount) as u64, amount, 0)->Ok_0 == mint_quote(
            curve,
            supply,
            amount,
            0,
        )->Ok_0,
{
}

} // verus!
