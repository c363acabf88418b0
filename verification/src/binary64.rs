//! Arithmetic on numbers of the binary64 interchange format, in integers.
//!
//! Prices, rates and ratios are stored as binary64 patterns, and trades are priced in binary64
//! arithmetic: every operation gives the number of the format that is nearest to the exact
//! result, the one with an even significand where two are equally near. The operations are
//! computed here on the bit patterns, so that every replica computes the same bits.

pub mod arithmetic;
pub mod format;
pub mod order;
pub mod rounding;
pub mod separation;

pub use format::{
    Binary64, HIDDEN_BIT, INFINITY_BITS, MIN_EXPONENT, NAN_BITS, ONE_BITS, SIGN_BIT,
    lemma_magnitude_is_pattern, lemma_magnitudes_ordered, lemma_pattern_is_read_back,
    lemma_pattern_ordered, negated, pattern, rank, signed,
};
pub use rounding::{
    below, bit_length, count_bits, distance, in_units, last_place, lemma_below_in_units,
    lemma_below_product, lemma_bit_length_bounds, lemma_bit_length_is,
    lemma_bit_length_ordered, lemma_bit_length_scaled, lemma_nearest_multiple_ordered,
    lemma_pow2_ordered, lemma_pow2_values, lemma_rounded_of_a_number, lemma_rounded_ordered,
    lemma_rounded_ordered_at, lemma_rounded_scaled, nearest_multiple, power_of_two,
    round_to_nearest, rounded, rounded_is_nearest,
};
pub use arithmetic::{
    coarsened, developed, difference, from_whole, larger, lemma_developed_quotient_long,
    lemma_far_difference, lemma_far_sum, lemma_whole_number_is_exact,
    lemma_whole_number_is_finite, places, product, quotient, quotient_is_nearest,
    rounded_quotient, sum, whole_part,
};
pub use order::{
    lemma_complement_bounded, lemma_developed_bounds, lemma_developed_halved,
    lemma_developed_ordered, lemma_infinite_chain, lemma_negative_chain,
    lemma_no_whole_part, lemma_one_less_nothing, lemma_product_commutes,
    lemma_product_of_finite, lemma_product_ordered, lemma_quotient_ordered,
    lemma_rounded_coarsened, lemma_rounded_quotient_ordered, lemma_times_one,
    lemma_times_zero, lemma_whole_numbers_ordered, lemma_whole_part_in_units,
    lemma_whole_parts_ordered, lemma_zero_over,
};
pub use separation::{
    lemma_equal_patterns, lemma_smaller_divisor_gives_more, lemma_whole_number_form,
};
