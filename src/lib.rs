//! Prize computation for a numbers lottery: given the numbers extracted in a
//! draw, each with its award kind, and a played number with its bet, the
//! awards that the played number earns, with their exact amounts.

mod award_spec;
mod awards;
mod currency;
mod laws;
mod payout;

pub use award_spec::{base_award, winner_cap, AwardSpec, ExtractedAwardKindSpec};
pub use awards::{
    award_entries, awards_fit, awards_total, awards_upto, derived_all, derived_upto, reason_at,
    reason_fits, reason_holds, running_totals_fit, scaled_award, Award, DerivedAwardReason,
    DerivedAwardedNumber, ExtractedAwardKind, ExtractedAwardedNumber,
    ExtractedAwardedNumberSliceExt, NOMINAL_STAKE_CENTS,
};
pub use currency::{
    amount_of, decimal_text, digit_char, euro_text, fits_i64, format_euro_cents, signed_text,
    trunc_div, trunc_rem, Currency, CurrencyEuroExt, Euro, MonetaryAmount,
};
pub use laws::{
    doubled_entries, draw_total, lemma_derivation_deterministic,
    lemma_doubling_stake_doubles_awards, lemma_first_award_exact_full_share,
    lemma_no_match_no_awards, lemma_one_award_per_paying_reason, reason_index, reason_pays,
};
pub use payout::{
    draw_payout, lemma_all_played_numbers_total, number_payout, payout_upto, played_totals,
    played_with, reason_count, reason_payout, sum_below,
};

use vstd::prelude::*;

verus! {

/// An amount in euros, counted in cents.
pub type Amount = MonetaryAmount<Euro>;

/// A lottery number, compared numerically.
pub type LotteryNumber = u32;

/// A number that has been played on the lottery, with a specific bet.
#[derive(Debug)]
pub struct PlayedNumber {
    pub number: LotteryNumber,
    pub bet: Amount,
}

impl PlayedNumber {
    pub fn new(number: LotteryNumber, bet: Amount) -> (r: PlayedNumber)
        ensures
            r.number == number,
            r.bet == bet,
    {
        PlayedNumber { number, bet }
    }
}

impl Clone for PlayedNumber {
    fn clone(&self) -> (r: PlayedNumber)
        ensures
            r == *self,
    {
        PlayedNumber { number: self.number, bet: self.bet }
    }
}

impl Copy for PlayedNumber {

}

} // verus!
