//! How the gross fee of a trade is split among the holder, the operator and the referrer.

use crate::address::Address;
use crate::binary64::{
    difference, from_whole, lemma_complement_bounded, lemma_one_less_nothing,
    lemma_product_ordered, lemma_times_one, lemma_whole_number_is_exact,
    lemma_whole_number_is_finite, lemma_whole_parts_ordered, product, whole_part, Binary64,
    ONE_BITS,
};
use crate::error::HypeError;
use crate::state::client::ClientAccount;
use vstd::prelude::*;

verus! {

/// The referral binding of a client while its window is open.
#[derive(Clone, Copy, Debug, PartialEq, Eq, Structural)]
pub struct ReferralTerms {
    /// Share of the fee that the client is spared.
    pub discount: Binary64,
    /// Share of what is left after the holder's share that goes to the referrer.
    pub ratio: Binary64,
}

/// The three shares of a fee.
#[derive(Clone, Copy, Debug, PartialEq, Eq, Structural)]
pub struct FeeSplit {
    /// Share of the protocol holder.
    pub holder: u64,
    /// Share of the operator.
    pub operator: u64,
    /// Share of the referrer.
    pub referral: u64,
}

/// The whole part of `total * (1 - ratio)`.
pub open spec fn remainder_share(total: u64, ratio: Binary64) -> u64 {
    whole_part(product(from_whole(total), difference(Binary64 { bits: ONE_BITS }, ratio)))
}

/// The whole part of `amount * ratio`.
pub open spec fn ratio_share(amount: u64, ratio: Binary64) -> u64 {
    whole_part(product(from_whole(amount), ratio))
}

/// What is left of the discounted fee above the holder's share.
pub open spec fn rest_of_fee(total: u64, fee_ratio: Binary64, discount: Binary64) -> u64 {
    if remainder_share(total, discount) > remainder_share(total, fee_ratio) {
        (remainder_share(total, discount) - remainder_share(total, fee_ratio)) as u64
    } else {
        0
    }
}

/// The split of `total`.
///
/// The holder takes the whole part of `total * (1 - fee_ratio)`. Without referral the
/// operator takes the rest. With referral, the fee is first discounted to the whole part of
/// `total * (1 - discount)`; of what that leaves above the holder's share, the referrer takes
/// the whole part of `rest * ratio` and the operator the remainder. A share that exceeds what
/// it is taken from is refused as an arithmetic overflow.
pub open spec fn fee_split(total: u64, fee_ratio: Binary64, referral: Option<ReferralTerms>) -> Result<
    FeeSplit,
    HypeError,
> {
    let holder = remainder_share(total, fee_ratio);
    match referral {
        None => if holder > total {
            Err(HypeError::ArithmeticOverflow)
        } else {
            Ok(FeeSplit { holder, operator: (total - holder) as u64, referral: 0 })
        },
        Some(terms) => {
            let rest = rest_of_fee(total, fee_ratio, terms.discount);
            let referral_fee = ratio_share(rest, terms.ratio);
            if referral_fee > rest {
                Err(HypeError::ArithmeticOverflow)
            } else {
                Ok(
                    FeeSplit {
                        holder,
                        operator: (rest - referral_fee) as u64,
                        referral: referral_fee,
                    },
                )
            }
        },
    }
}

/// Whether a trade at time `now` pays the referrer: the client's window is still open and the
/// referral address supplied with the trade is the one bound to the client.
pub open spec fn referral_applies(client: ClientAccount, now: u32, supplied: Address) -> bool {
    client.ref_stop > now && client.ref_address == supplied
}

/// The referral terms under which a trade of `client` at time `now` is split, if any.
pub open spec fn referral_terms(client: ClientAccount, now: u32, supplied: Address) -> Option<
    ReferralTerms,
> {
    if referral_applies(client, now, supplied) {
        Some(
            ReferralTerms {
                discount: Binary64 { bits: client.ref_discount },
                ratio: Binary64 { bits: client.ref_ratio },
            },
        )
    } else {
        None
    }
}

/// A share of a fee below `2^53` at a ratio from zero to one is not above the fee. So the
/// split without referral is never refused for such a fee ratio.
pub proof fn share_is_bounded(total: u64, ratio: Binary64)
    requires
        total < 0x20_0000_0000_0000,
        !ratio.is_negative(),
        ratio.magnitude() <= ONE_BITS,
    ensures
        remainder_share(total, ratio) <= total,
        ratio_share(total, ratio) <= total,
        fee_split(total, ratio, None) is Ok,
{
    let one = Binary64 { bits: ONE_BITS };
    let whole = from_whole(total);
    if total > 0 {
        lemma_whole_number_is_finite(total);
    } else {
        assert(from_whole(0).bits == 0) by {
            reveal(from_whole);
        }
    }
    lemma_complement_bounded(ratio);
    lemma_times_one(whole);
    lemma_whole_number_is_exact(total);
    lemma_product_ordered(whole, difference(one, ratio), one);
    lemma_whole_parts_ordered(product(whole, difference(one, ratio)), product(whole, one));
    lemma_product_ordered(whole, ratio, one);
    lemma_whole_parts_ordered(product(whole, ratio), product(whole, one));
}

/// The three shares add up to the fee, exactly, in every trade without referral. In a trade
/// with referral the client is spared the discount, and the shares add up to the holder's
/// share and what the discounted fee leaves above it: to the whole fee again where the
/// discount is zero, the fee is below `2^53` and the holder's share is not above it.
pub proof fn shares_add_up(total: u64, fee_ratio: Binary64, referral: Option<ReferralTerms>)
    requires
        fee_split(total, fee_ratio, referral) is Ok,
    ensures
        ({
            let s = fee_split(total, fee_ratio, referral)->Ok_0;
            &&& referral is None ==> s.holder + s.operator + s.referral == total
            &&& referral is Some ==> s.holder + s.operator + s.referral == remainder_share(
                total,
                fee_ratio,
            ) + rest_of_fee(total, fee_ratio, referral->Some_0.discount)
            &&& referral is Some && referral->Some_0.discount.bits == 0 && total
                < 0x20_0000_0000_0000 && remainder_share(total, fee_ratio) <= total
                ==> s.holder + s.operator + s.referral == total
        }),
{
    if referral is Some && referral->Some_0.discount.bits == 0 && total < 0x20_0000_0000_0000 {
        lemma_one_less_nothing();
        if total > 0 {
            lemma_whole_number_is_finite(total);
        } else {
            assert(from_whole(0).magnitude() == 0) by {
                reveal(from_whole);
            }
        }
        lemma_times_one(from_whole(total));
        lemma_whole_number_is_exact(total);
        assert(referral->Some_0.discount == Binary64 { bits: 0 });
        assert(remainder_share(total, referral->Some_0.discount) == total);
    }
}

/// The referrer is paid only while the client's window is open and the supplied referral
/// address is the bound one; otherwise the referrer's share is zero and the operator takes
/// all that the holder leaves.
pub proof fn referral_needs_open_window(
    total: u64,
    fee_ratio: Binary64,
    client: ClientAccount,
    now: u32,
    supplied: Address,
)
    requires
        fee_split(total, fee_ratio, referral_terms(client, now, supplied)) is Ok,
    ensures
        referral_terms(client, now, supplied) is Some <==> (client.ref_stop > now
            && client.ref_address == supplied),
        !referral_applies(client, now, supplied) ==> fee_split(
            total,
            fee_ratio,
            referral_terms(client, now, supplied),
        )->Ok_0.referral == 0,
        !referral_applies(client, now, supplied) ==> fee_split(
            total,
            fee_ratio,
            referral_terms(client, now, supplied),
        )->Ok_0.operator == total - remainder_share(total, fee_ratio),
        !referral_applies(client, now, supplied) ==> fee_split(
            total,
            fee_ratio,
            referral_terms(client, now, supplied),
        )->Ok_0.holder == remainder_share(total, fee_ratio),
{
}

fn take_remainder(total: u64, ratio: Binary64) -> (r: u64)
    ensures
        r == remainder_share(total, ratio),
{
    Binary64::from_u64(total).times(&Binary64::one().minus(&ratio)).to_u64()
}

/// Splits the fee `total` of a trade.
pub fn split_fees(total: u64, fee_ratio: Binary64, referral: Option<ReferralTerms>) -> (r: Result<
    FeeSplit,
    HypeError,
>)
    ensures
        r == fee_split(total, fee_ratio, referral),
{
    let holder = take_remainder(total, fee_ratio);
    match referral {
        None => if holder > total {
            Err(HypeError::ArithmeticOverflow)
        } else {
            Ok(FeeSplit { holder, operator: total - holder, referral: 0 })
        },
        Some(terms) => {
            let discounted = take_remainder(total, terms.discount);
            let rest: u64 = if discounted > holder {
                discounted - holder
            } else {
                0
            };
            let referral_fee = Binary64::from_u64(rest).times(&terms.ratio).to_u64();
            if referral_fee > rest {
                Err(HypeError::ArithmeticOverflow)
            } else {
                Ok(FeeSplit { holder, operator: rest - referral_fee, referral: referral_fee })
            }
        },
    }
}

/// Decides whether a trade of `client` at time `now` pays the referrer, and on which terms.
pub fn get_referral_terms(client: &ClientAccount, now: u32, supplied: &Address) -> (r: Option<
    ReferralTerms,
>)
    ensures
        r == referral_terms(*client, now, *supplied),
{
    if client.ref_stop > now && client.ref_address.equals(supplied) {
        Some(
            ReferralTerms {
                discount: Binary64::from_bits(client.ref_discount),
                ratio: Binary64::from_bits(client.ref_ratio),
            },
        )
    } else {
        None
    }
}

} // verus!
