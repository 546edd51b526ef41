use crate::awards::{DerivedAwardReason, ExtractedAwardKind};
use crate::currency::CurrencyEuroExt;
use crate::Amount;
use vstd::prelude::*;

verus! {

/// The award, in whole euros per full nominal stake, that a played number
/// earns under `reason` against a number extracted with award `kind`;
/// zero where the reason does not apply to that kind.
pub open spec fn base_award(kind: ExtractedAwardKind, reason: DerivedAwardReason) -> int {
    match kind {
        ExtractedAwardKind::First => match reason {
            DerivedAwardReason::ExactMatch => 4000000,
            DerivedAwardReason::NextToThePrizedNum => 20000,
            DerivedAwardReason::SameHundred => 1000,
            DerivedAwardReason::MatchesLastTwoDigits => 1000,
            DerivedAwardReason::MatchesLastDigit => 200,
        },
        ExtractedAwardKind::Second => match reason {
            DerivedAwardReason::ExactMatch => 1250000,
            DerivedAwardReason::NextToThePrizedNum => 12500,
            DerivedAwardReason::SameHundred => 1000,
            DerivedAwardReason::MatchesLastTwoDigits => 1000,
            DerivedAwardReason::MatchesLastDigit => 0,
        },
        ExtractedAwardKind::Third => match reason {
            DerivedAwardReason::ExactMatch => 500000,
            DerivedAwardReason::NextToThePrizedNum => 9600,
            DerivedAwardReason::SameHundred => 1000,
            DerivedAwardReason::MatchesLastTwoDigits => 1000,
            DerivedAwardReason::MatchesLastDigit => 0,
        },
        ExtractedAwardKind::Fourth => match reason {
            DerivedAwardReason::ExactMatch => 200000,
            DerivedAwardReason::SameHundred => 1000,
            DerivedAwardReason::MatchesLastTwoDigits => 1000,
            _ => 0,
        },
        ExtractedAwardKind::Fifth => match reason {
            DerivedAwardReason::ExactMatch => 60000,
            _ => 0,
        },
        ExtractedAwardKind::Little => match reason {
            DerivedAwardReason::ExactMatch => 1000,
            _ => 0,
        },
    }
}

/// How many numbers are extracted with award `kind` in one draw.
pub open spec fn winner_cap(kind: ExtractedAwardKind) -> int {
    match kind {
        ExtractedAwardKind::First => 1,
        ExtractedAwardKind::Second => 1,
        ExtractedAwardKind::Third => 1,
        ExtractedAwardKind::Fourth => 2,
        ExtractedAwardKind::Fifth => 8,
        ExtractedAwardKind::Little => 1000,
    }
}

/// What an award kind pays, and how many numbers of it are extracted.
pub trait ExtractedAwardKindSpec {
    /// The award kind that this specification describes.
    spec fn spec_kind(&self) -> ExtractedAwardKind;

    fn derived_award_amount_for_reason(&self, reason: DerivedAwardReason) -> (r: Amount)
        ensures
            r.value == base_award(self.spec_kind(), reason) * 100,
    ;

    fn max_awarded_numbers(&self) -> (r: u32)
        ensures
            r == winner_cap(self.spec_kind()),
    ;

    fn kind(&self) -> (r: ExtractedAwardKind)
        ensures
            r == self.spec_kind(),
    ;
}

/// One row of the prize table: the euros per full nominal stake for each
/// reason, and the number of extracted numbers, of one award kind.
pub struct AwardSpec {
    kind: ExtractedAwardKind,
    max_awarded_numbers: u32,
    exact_match: i64,
    next_to_the_prized_num: i64,
    same_hundred: i64,
    matches_last_two_digits: i64,
    matches_last_digit: i64,
}

impl AwardSpec {
    /// The row holds the table's values for its kind.
    #[verifier::type_invariant]
    spec fn matches_table(self) -> bool {
        &&& self.max_awarded_numbers == winner_cap(self.kind)
        &&& self.exact_match == base_award(self.kind, DerivedAwardReason::ExactMatch)
        &&& self.next_to_the_prized_num == base_award(
            self.kind,
            DerivedAwardReason::NextToThePrizedNum,
        )
        &&& self.same_hundred == base_award(self.kind, DerivedAwardReason::SameHundred)
        &&& self.matches_last_two_digits == base_award(
            self.kind,
            DerivedAwardReason::MatchesLastTwoDigits,
        )
        &&& self.matches_last_digit == base_award(self.kind, DerivedAwardReason::MatchesLastDigit)
    }

    /// The prize table row of `kind`.
    pub fn of_kind(kind: ExtractedAwardKind) -> (r: AwardSpec)
        ensures
            r.spec_kind() == kind,
    {
        let (max_awarded_numbers, exact_match, next_to_the_prized_num, same_hundred,
            matches_last_two_digits, matches_last_digit): (u32, i64, i64, i64, i64, i64) =
            match kind {
            ExtractedAwardKind::First => (1, 4000000, 20000, 1000, 1000, 200),
            ExtractedAwardKind::Second => (1, 1250000, 12500, 1000, 1000, 0),
            ExtractedAwardKind::Third => (1, 500000, 9600, 1000, 1000, 0),
            ExtractedAwardKind::Fourth => (2, 200000, 0, 1000, 1000, 0),
            ExtractedAwardKind::Fifth => (8, 60000, 0, 0, 0, 0),
            ExtractedAwardKind::Little => (1000, 1000, 0, 0, 0, 0),
        };
        AwardSpec {
            kind,
            max_awarded_numbers,
            exact_match,
            next_to_the_prized_num,
            same_hundred,
            matches_last_two_digits,
            matches_last_digit,
        }
    }
}

impl ExtractedAwardKindSpec for AwardSpec {
    closed spec fn spec_kind(&self) -> ExtractedAwardKind {
        self.kind
    }

    fn derived_award_amount_for_reason(&self, reason: DerivedAwardReason) -> (r: Amount) {
        proof {
            use_type_invariant(self);
        }
        let euros = match reason {
            DerivedAwardReason::ExactMatch => self.exact_match,
            DerivedAwardReason::NextToThePrizedNum => self.next_to_the_prized_num,
            DerivedAwardReason::SameHundred => self.same_hundred,
            DerivedAwardReason::MatchesLastTwoDigits => self.matches_last_two_digits,
            DerivedAwardReason::MatchesLastDigit => self.matches_last_digit,
        };
        Amount::from_euros(euros)
    }

    fn max_awarded_numbers(&self) -> (r: u32) {
        proof {
            use_type_invariant(self);
        }
        self.max_awarded_numbers
    }

    fn kind(&self) -> (r: ExtractedAwardKind) {
        self.kind
    }
}

} // verus!
