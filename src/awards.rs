use crate::award_spec::{base_award, AwardSpec, ExtractedAwardKindSpec};
use crate::currency::{fits_i64, trunc_div, CurrencyEuroExt};
use crate::{Amount, LotteryNumber, PlayedNumber};
use vstd::prelude::*;

verus! {

/// The different kinds of award that an extracted number can be awarded with,
/// from the most significant down.
#[derive(Clone, Copy, PartialEq, Eq, Structural, PartialOrd, Ord, Debug)]
pub enum ExtractedAwardKind {
    First,
    Second,
    Third,
    Fourth,
    Fifth,
    Little,
}

impl ExtractedAwardKind {
    /// The prize table row of this kind.
    pub fn get_award_spec(self) -> (r: AwardSpec)
        ensures
            r.spec_kind() == self,
    {
        AwardSpec::of_kind(self)
    }
}

/// The reasons why a played number can be awarded against an extracted one.
#[derive(Clone, Copy, Debug, PartialEq, Eq, Structural)]
pub enum DerivedAwardReason {
    ExactMatch,
    NextToThePrizedNum,
    SameHundred,
    MatchesLastTwoDigits,
    MatchesLastDigit,
}

/// Whether `reason` holds between an awarded number and a checked one.
/// Every reason but the exact match leaves out equal numbers.
pub open spec fn reason_holds(reason: DerivedAwardReason, awarded: int, checking: int) -> bool {
    match reason {
        DerivedAwardReason::ExactMatch => awarded == checking,
        DerivedAwardReason::NextToThePrizedNum => awarded - checking == 1 || checking - awarded
            == 1,
        DerivedAwardReason::SameHundred => awarded != checking && awarded / 100 == checking / 100,
        DerivedAwardReason::MatchesLastTwoDigits => awarded != checking && awarded % 100
            == checking % 100,
        DerivedAwardReason::MatchesLastDigit => awarded != checking && awarded % 10 == checking
            % 10,
    }
}

/// The reasons in the order in which they are checked.
pub open spec fn reason_at(i: int) -> DerivedAwardReason {
    if i == 0 {
        DerivedAwardReason::ExactMatch
    } else if i == 1 {
        DerivedAwardReason::NextToThePrizedNum
    } else if i == 2 {
        DerivedAwardReason::SameHundred
    } else if i == 3 {
        DerivedAwardReason::MatchesLastTwoDigits
    } else {
        DerivedAwardReason::MatchesLastDigit
    }
}

impl DerivedAwardReason {
    /// Evaluates this reason's check on an awarded number and a played one.
    pub fn get_check_predicate(
        &self,
        awarded_num: LotteryNumber,
        checking_num: LotteryNumber,
    ) -> (r: bool)
        ensures
            r == reason_holds(*self, awarded_num as int, checking_num as int),
    {
        match *self {
            DerivedAwardReason::ExactMatch => awarded_num == checking_num,
            DerivedAwardReason::NextToThePrizedNum => {
                (awarded_num > checking_num && awarded_num - checking_num == 1) || (checking_num
                    > awarded_num && checking_num - awarded_num == 1)
            },
            DerivedAwardReason::SameHundred => {
                awarded_num != checking_num && awarded_num / 100 == checking_num / 100
            },
            DerivedAwardReason::MatchesLastTwoDigits => {
                awarded_num != checking_num && awarded_num % 100 == checking_num % 100
            },
            DerivedAwardReason::MatchesLastDigit => {
                awarded_num != checking_num && awarded_num % 10 == checking_num % 10
            },
        }
    }

    fn at_index(i: usize) -> (r: DerivedAwardReason)
        requires
            i < 5,
        ensures
            r == reason_at(i as int),
    {
        if i == 0 {
            DerivedAwardReason::ExactMatch
        } else if i == 1 {
            DerivedAwardReason::NextToThePrizedNum
        } else if i == 2 {
            DerivedAwardReason::SameHundred
        } else if i == 3 {
            DerivedAwardReason::MatchesLastTwoDigits
        } else {
            DerivedAwardReason::MatchesLastDigit
        }
    }
}

/// The reference stake, in cents, that the prize table's amounts are given for.
pub const NOMINAL_STAKE_CENTS: i64 = 20000;

/// An award of `base_cents` per full nominal stake, scaled to a stake of
/// `stake` cents: the product divided by the nominal stake, truncated toward zero.
pub open spec fn scaled_award(base_cents: int, stake: int) -> int {
    trunc_div(base_cents * stake, NOMINAL_STAKE_CENTS as int)
}

/// A number that has been extracted in the draw, with its award kind.
#[derive(Clone, Copy, Debug, PartialEq, Eq, Structural)]
pub struct ExtractedAwardedNumber {
    pub kind: ExtractedAwardKind,
    pub number: LotteryNumber,
}

/// A monetary award under a specific reason.
#[derive(Debug)]
pub struct Award {
    pub reason: DerivedAwardReason,
    pub amount: Amount,
}

impl View for Award {
    type V = (DerivedAwardReason, int);

    open spec fn view(&self) -> (DerivedAwardReason, int) {
        (self.reason, self.amount.value as int)
    }
}

impl Award {
    pub fn new(reason: DerivedAwardReason, amount: Amount) -> (r: Award)
        ensures
            r.reason == reason,
            r.amount == amount,
    {
        Award { reason, amount }
    }
}

impl Clone for Award {
    fn clone(&self) -> (r: Award)
        ensures
            r == *self,
    {
        Award { reason: self.reason, amount: self.amount }
    }
}

/// Whether the scaling of the award under `reason` of `w` to the stake of `p`
/// stays within `i64`, where that award is paid at all.
pub open spec fn reason_fits(
    w: ExtractedAwardedNumber,
    p: PlayedNumber,
    reason: DerivedAwardReason,
) -> bool {
    reason_holds(reason, w.number as int, p.number as int) && base_award(w.kind, reason) != 0
        ==> fits_i64(base_award(w.kind, reason) * 100 * p.bet.value)
}

/// Whether every award that `p` earns against `w` can be scaled within `i64`.
pub open spec fn awards_fit(w: ExtractedAwardedNumber, p: PlayedNumber) -> bool {
    &&& reason_fits(w, p, DerivedAwardReason::ExactMatch)
    &&& reason_fits(w, p, DerivedAwardReason::NextToThePrizedNum)
    &&& reason_fits(w, p, DerivedAwardReason::SameHundred)
    &&& reason_fits(w, p, DerivedAwardReason::MatchesLastTwoDigits)
    &&& reason_fits(w, p, DerivedAwardReason::MatchesLastDigit)
}

/// The awards that `p` earns against `w` under the first `n` reasons, in
/// order: each reason that holds and whose base award is non-zero gives one
/// award, scaled to the stake.
pub open spec fn awards_upto(w: ExtractedAwardedNumber, p: PlayedNumber, n: nat) -> Seq<
    (DerivedAwardReason, int),
>
    decreases n,
{
    if n == 0 {
        seq![]
    } else {
        let prev = awards_upto(w, p, (n - 1) as nat);
        let reason = reason_at(n - 1);
        let base = base_award(w.kind, reason);
        if reason_holds(reason, w.number as int, p.number as int) && base != 0 {
            prev.push((reason, scaled_award(base * 100, p.bet.value as int)))
        } else {
            prev
        }
    }
}

/// The awards that `p` earns against `w`, under all five reasons.
pub open spec fn award_entries(w: ExtractedAwardedNumber, p: PlayedNumber) -> Seq<
    (DerivedAwardReason, int),
> {
    awards_upto(w, p, 5)
}

/// A played number's awards against one extracted number.
#[derive(Debug)]
pub struct DerivedAwardedNumber {
    pub derived_from_number: ExtractedAwardedNumber,
    pub number: PlayedNumber,
    pub awards: Vec<Award>,
}

impl View for DerivedAwardedNumber {
    type V = (ExtractedAwardedNumber, PlayedNumber, Seq<(DerivedAwardReason, int)>);

    open spec fn view(&self) -> Self::V {
        (self.derived_from_number, self.number, self.awards@.map_values(|a: Award| a@))
    }
}

/// The results for the first `n` extracted numbers of `ws`: one for each
/// against which `p` earns at least one award, in the order of `ws`.
pub open spec fn derived_upto(ws: Seq<ExtractedAwardedNumber>, p: PlayedNumber, n: nat) -> Seq<
    (ExtractedAwardedNumber, PlayedNumber, Seq<(DerivedAwardReason, int)>),
>
    decreases n,
{
    if n == 0 {
        seq![]
    } else {
        let prev = derived_upto(ws, p, (n - 1) as nat);
        let entries = award_entries(ws[n - 1], p);
        if entries.len() > 0 {
            prev.push((ws[n - 1], p, entries))
        } else {
            prev
        }
    }
}

/// The results for all extracted numbers of `ws`.
pub open spec fn derived_all(ws: Seq<ExtractedAwardedNumber>, p: PlayedNumber) -> Seq<
    (ExtractedAwardedNumber, PlayedNumber, Seq<(DerivedAwardReason, int)>),
> {
    derived_upto(ws, p, ws.len())
}

impl ExtractedAwardedNumber {
    pub fn new(kind: ExtractedAwardKind, number: LotteryNumber) -> (r: ExtractedAwardedNumber)
        ensures
            r.kind == kind,
            r.number == number,
    {
        ExtractedAwardedNumber { kind, number }
    }

    /// The awards that `played` earns because `self` was extracted with its award.
    pub fn get_derived_awards(&self, played: &PlayedNumber) -> (r: DerivedAwardedNumber)
        requires
            awards_fit(*self, *played),
        ensures
            r@ == (*self, *played, award_entries(*self, *played)),
    {
        let spec = self.kind.get_award_spec();
        let nominal = Amount::from_euros(200);
        let mut awards: Vec<Award> = Vec::new();
        let mut i: usize = 0;
        while i < 5
            invariant
                i <= 5,
                spec.spec_kind() == self.kind,
                nominal.value == NOMINAL_STAKE_CENTS,
                awards_fit(*self, *played),
                awards@.map_values(|a: Award| a@) == awards_upto(*self, *played, i as nat),
            decreases 5 - i,
        {
            let reason = DerivedAwardReason::at_index(i);
            let ghost prev = awards@;
            if reason.get_check_predicate(self.number, played.number) {
                let reason_award = spec.derived_award_amount_for_reason(reason);
                if reason_award.value != 0 {
                    let amount_awarded = reason_award * played.bet / nominal;
                    awards.push(Award::new(reason, amount_awarded));
                    assert(awards@.map_values(|a: Award| a@) =~= prev.map_values(
                        |a: Award| a@,
                    ).push((reason, amount_awarded.value as int)));
                }
            }
            i += 1;
        }
        DerivedAwardedNumber::new(*self, *played, awards)
    }
}

/// The sum of the amounts of a sequence of awards.
pub open spec fn awards_total(s: Seq<(DerivedAwardReason, int)>) -> int
    decreases s.len(),
{
    if s.len() == 0 {
        0
    } else {
        awards_total(s.drop_last()) + s.last().1
    }
}

/// Whether every running sum of the amounts of `s`, taken in order, fits in `i64`.
pub open spec fn running_totals_fit(s: Seq<(DerivedAwardReason, int)>) -> bool {
    forall|k: int| 0 <= k <= s.len() ==> fits_i64(#[trigger] awards_total(s.take(k)))
}

impl DerivedAwardedNumber {
    /// The sum of the amounts of all the awards.
    pub fn get_total_earned(&self) -> (r: Amount)
        requires
            running_totals_fit(self@.2),
        ensures
            r.value == awards_total(self@.2),
    {
        let ghost s = self@.2;
        let mut total = Amount::default();
        let mut i: usize = 0;
        assert(s.take(0) =~= seq![]);
        while i < self.awards.len()
            invariant
                i <= s.len(),
                s == self@.2,
                running_totals_fit(s),
                total.value == awards_total(s.take(i as int)),
            decreases s.len() - i,
        {
            assert(s.take(i as int + 1).drop_last() =~= s.take(i as int));
            assert(s.take(i as int + 1).last() == s[i as int]);
            assert(fits_i64(awards_total(s.take(i as int + 1))));
            total = total + self.awards[i].amount;
            i += 1;
        }
        assert(s.take(s.len() as int) =~= s);
        total
    }

    pub fn new(
        derived_from_number: ExtractedAwardedNumber,
        number: PlayedNumber,
        awards: Vec<Award>,
    ) -> (r: DerivedAwardedNumber)
        ensures
            r.derived_from_number == derived_from_number,
            r.number == number,
            r.awards == awards,
    {
        DerivedAwardedNumber { derived_from_number, number, awards }
    }
}

/// Derives the awards of a played number against a whole draw.
pub trait ExtractedAwardedNumberSliceExt {
    /// The extracted numbers of the draw, in order.
    spec fn extracted(&self) -> Seq<ExtractedAwardedNumber>;

    /// One result for each extracted number against which `played` earns
    /// something, in the order of the draw.
    fn get_derived_awards(&self, played: &PlayedNumber) -> (r: Vec<DerivedAwardedNumber>)
        requires
            forall|j: int|
                0 <= j < self.extracted().len() ==> awards_fit(
                    #[trigger] self.extracted()[j],
                    *played,
                ),
        ensures
            r@.map_values(|d: DerivedAwardedNumber| d@) == derived_all(self.extracted(), *played),
    ;
}

impl ExtractedAwardedNumberSliceExt for &[ExtractedAwardedNumber] {
    open spec fn extracted(&self) -> Seq<ExtractedAwardedNumber> {
        self@
    }

    fn get_derived_awards(&self, played: &PlayedNumber) -> (r: Vec<DerivedAwardedNumber>) {
        let mut out: Vec<DerivedAwardedNumber> = Vec::new();
        let mut i: usize = 0;
        while i < self.len()
            invariant
                i <= self@.len(),
                self.extracted() == self@,
                forall|j: int|
                    0 <= j < self.extracted().len() ==> awards_fit(
                        #[trigger] self.extracted()[j],
                        *played,
                    ),
                out@.map_values(|d: DerivedAwardedNumber| d@) == derived_upto(
                    self@,
                    *played,
                    i as nat,
                ),
            decreases self@.len() - i,
        {
            let derived = self[i].get_derived_awards(played);
            let ghost prev = out@;
            if derived.awards.len() > 0 {
                out.push(derived);
                assert(out@.map_values(|d: DerivedAwardedNumber| d@) =~= prev.map_values(
                    |d: DerivedAwardedNumber| d@,
                ).push(derived@));
            }
            i += 1;
        }
        out
    }
}

} // verus!
