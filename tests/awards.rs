use lottery_logic::{
    Amount, CurrencyEuroExt, DerivedAwardReason, DerivedAwardedNumber, ExtractedAwardKind,
    ExtractedAwardKindSpec, ExtractedAwardedNumber, ExtractedAwardedNumberSliceExt, PlayedNumber,
};

fn derive(draw: &[ExtractedAwardedNumber], number: u32, bet: Amount) -> Vec<DerivedAwardedNumber> {
    draw.get_derived_awards(&PlayedNumber::new(number, bet))
}

fn grand_total(results: &[DerivedAwardedNumber]) -> Amount {
    results
        .iter()
        .fold(Amount::default(), |l, r| l + r.get_total_earned())
}

fn reasons_and_euros(result: &DerivedAwardedNumber) -> Vec<(DerivedAwardReason, i64)> {
    result
        .awards
        .iter()
        .map(|a| (a.reason, a.amount.value / 100))
        .collect()
}

#[test]
fn first_award_exact_match_at_full_share_pays_four_million() {
    let draw = vec![ExtractedAwardedNumber::new(ExtractedAwardKind::First, 12345)];
    let results = derive(&draw, 12345, Amount::from_euros(200));
    assert_eq!(results.len(), 1);
    assert_eq!(
        reasons_and_euros(&results[0]),
        vec![(DerivedAwardReason::ExactMatch, 4_000_000)]
    );
    assert_eq!(results[0].get_total_earned().value, 400_000_000);
    assert_eq!(grand_total(&results).value, 400_000_000);
}

#[test]
fn doubling_the_stake_doubles_every_award() {
    let draw = vec![
        ExtractedAwardedNumber::new(ExtractedAwardKind::First, 12345),
        ExtractedAwardedNumber::new(ExtractedAwardKind::Second, 12340),
    ];
    let single = derive(&draw, 12344, Amount::from_euros(200));
    let double = derive(&draw, 12344, Amount::from_euros(400));
    assert_eq!(single.len(), 2);
    assert_eq!(double.len(), 2);
    for (a, b) in single.iter().zip(double.iter()) {
        assert_eq!(a.awards.len(), b.awards.len());
        for (x, y) in a.awards.iter().zip(b.awards.iter()) {
            assert_eq!(x.reason, y.reason);
            assert_eq!(y.amount.value, 2 * x.amount.value);
        }
    }
    assert_eq!(
        reasons_and_euros(&single[0]),
        vec![
            (DerivedAwardReason::NextToThePrizedNum, 20_000),
            (DerivedAwardReason::SameHundred, 1_000)
        ]
    );
    assert_eq!(grand_total(&double).value, 2 * grand_total(&single).value);
}

#[test]
fn odd_stake_loses_at_most_one_cent_to_truncation() {
    let draw = vec![ExtractedAwardedNumber::new(ExtractedAwardKind::Second, 500)];
    let one = derive(&draw, 501, Amount::new(1));
    let two = derive(&draw, 501, Amount::new(2));
    // 1,250,000 cents per 20,000 cents of stake: 62.5 cents for one cent.
    assert_eq!(one[0].awards[0].reason, DerivedAwardReason::NextToThePrizedNum);
    assert_eq!(one[0].awards[0].amount.value, 62);
    assert_eq!(two[0].awards[0].amount.value, 125);
}

#[test]
fn negative_stake_truncates_toward_zero() {
    let draw = vec![ExtractedAwardedNumber::new(ExtractedAwardKind::Second, 500)];
    let results = derive(&draw, 501, Amount::new(-1));
    assert_eq!(results[0].awards[0].amount.value, -62);
}

#[test]
fn zero_stake_still_lists_the_awards() {
    let draw = vec![ExtractedAwardedNumber::new(ExtractedAwardKind::Fifth, 77)];
    let results = derive(&draw, 77, Amount::new(0));
    assert_eq!(results.len(), 1);
    assert_eq!(results[0].awards.len(), 1);
    assert_eq!(results[0].awards[0].amount.value, 0);
}

#[test]
fn no_matching_rule_gives_no_results_and_zero_total() {
    let draw = vec![
        ExtractedAwardedNumber::new(ExtractedAwardKind::First, 12345),
        ExtractedAwardedNumber::new(ExtractedAwardKind::Little, 80000),
    ];
    let results = derive(&draw, 54321, Amount::from_euros(200));
    assert!(results.is_empty());
    assert_eq!(grand_total(&results).value, 0);
}

#[test]
fn empty_draw_gives_no_results() {
    let draw: Vec<ExtractedAwardedNumber> = Vec::new();
    assert!(derive(&draw, 1, Amount::from_euros(200)).is_empty());
}

#[test]
fn matching_reason_without_award_is_discarded() {
    // The fifth award pays nothing to the same hundred.
    let draw = vec![ExtractedAwardedNumber::new(ExtractedAwardKind::Fifth, 12345)];
    assert!(derive(&draw, 12346, Amount::from_euros(200)).is_empty());
}

#[test]
fn several_awards_against_one_extracted_number() {
    let draw = vec![ExtractedAwardedNumber::new(ExtractedAwardKind::First, 12345)];
    let results = derive(&draw, 12335, Amount::from_euros(200));
    assert_eq!(results.len(), 1);
    assert_eq!(
        reasons_and_euros(&results[0]),
        vec![
            (DerivedAwardReason::SameHundred, 1_000),
            (DerivedAwardReason::MatchesLastDigit, 200)
        ]
    );
    assert_eq!(results[0].get_total_earned().value, 120_000);
}

#[test]
fn derivation_is_deterministic() {
    let draw = vec![
        ExtractedAwardedNumber::new(ExtractedAwardKind::Third, 4321),
        ExtractedAwardedNumber::new(ExtractedAwardKind::Fourth, 4399),
    ];
    let a = derive(&draw, 4322, Amount::from_euros(20));
    let b = derive(&draw, 4322, Amount::from_euros(20));
    assert_eq!(a.len(), b.len());
    for (x, y) in a.iter().zip(b.iter()) {
        assert_eq!(x.derived_from_number, y.derived_from_number);
        assert_eq!(x.number.number, y.number.number);
        assert_eq!(x.number.bet, y.number.bet);
        assert_eq!(reasons_and_euros(x), reasons_and_euros(y));
        assert_eq!(
            x.awards.iter().map(|w| w.amount.value).collect::<Vec<i64>>(),
            y.awards.iter().map(|w| w.amount.value).collect::<Vec<i64>>()
        );
    }
}

#[test]
fn first_award_zero_and_played_one() {
    let draw = vec![ExtractedAwardedNumber::new(ExtractedAwardKind::First, 0)];
    let results = derive(&draw, 1, Amount::from_euros(200));
    assert_eq!(results.len(), 1);
    // 0 and 1 are adjacent, and they also share the hundred block 0.
    assert_eq!(
        reasons_and_euros(&results[0]),
        vec![
            (DerivedAwardReason::NextToThePrizedNum, 20_000),
            (DerivedAwardReason::SameHundred, 1_000)
        ]
    );
}

#[test]
fn little_award_exact_match() {
    let draw = vec![ExtractedAwardedNumber::new(ExtractedAwardKind::Little, 12345)];
    let results = derive(&draw, 12345, Amount::from_euros(200));
    assert_eq!(results.len(), 1);
    assert_eq!(
        reasons_and_euros(&results[0]),
        vec![(DerivedAwardReason::ExactMatch, 1_000)]
    );
}

#[test]
fn total_over_every_played_number_matches_known_total() {
    let draw = vec![
        ExtractedAwardedNumber::new(ExtractedAwardKind::First, 12345),
        ExtractedAwardedNumber::new(ExtractedAwardKind::Little, 7),
    ];
    let mut total = Amount::default();
    for number in 0..100000u32 {
        total = total + grand_total(&derive(&draw, number, Amount::from_euros(200)));
    }
    // Exact 4,000,000; two neighbours at 20,000; 99 of the same hundred,
    // 999 of the same last two digits at 1,000; 9,999 of the same last digit
    // at 200; and the little award's 1,000.
    assert_eq!(total.value, 713_880_000);
}

#[test]
fn award_specs_follow_the_prize_table() {
    let first = ExtractedAwardKind::First.get_award_spec();
    assert_eq!(first.kind(), ExtractedAwardKind::First);
    assert_eq!(first.max_awarded_numbers(), 1);
    assert_eq!(
        first
            .derived_award_amount_for_reason(DerivedAwardReason::ExactMatch)
            .value,
        400_000_000
    );
    assert_eq!(
        first
            .derived_award_amount_for_reason(DerivedAwardReason::MatchesLastDigit)
            .value,
        20_000
    );
    let second = ExtractedAwardKind::Second.get_award_spec();
    assert_eq!(
        second
            .derived_award_amount_for_reason(DerivedAwardReason::NextToThePrizedNum)
            .value,
        1_250_000
    );
    assert_eq!(
        second
            .derived_award_amount_for_reason(DerivedAwardReason::MatchesLastDigit)
            .value,
        0
    );
    let third = ExtractedAwardKind::Third.get_award_spec();
    assert_eq!(
        third
            .derived_award_amount_for_reason(DerivedAwardReason::NextToThePrizedNum)
            .value,
        960_000
    );
    let fourth = ExtractedAwardKind::Fourth.get_award_spec();
    assert_eq!(fourth.max_awarded_numbers(), 2);
    assert_eq!(
        fourth
            .derived_award_amount_for_reason(DerivedAwardReason::MatchesLastTwoDigits)
            .value,
        100_000
    );
    assert_eq!(
        fourth
            .derived_award_amount_for_reason(DerivedAwardReason::NextToThePrizedNum)
            .value,
        0
    );
    let fifth = ExtractedAwardKind::Fifth.get_award_spec();
    assert_eq!(fifth.max_awarded_numbers(), 8);
    assert_eq!(
        fifth
            .derived_award_amount_for_reason(DerivedAwardReason::ExactMatch)
            .value,
        6_000_000
    );
    let little = ExtractedAwardKind::Little.get_award_spec();
    assert_eq!(little.kind(), ExtractedAwardKind::Little);
    assert_eq!(little.max_awarded_numbers(), 1000);
    assert_eq!(
        little
            .derived_award_amount_for_reason(DerivedAwardReason::SameHundred)
            .value,
        0
    );
}

#[test]
fn check_predicates_compare_numbers() {
    let exact = DerivedAwardReason::ExactMatch;
    let next = DerivedAwardReason::NextToThePrizedNum;
    let hundred = DerivedAwardReason::SameHundred;
    let two = DerivedAwardReason::MatchesLastTwoDigits;
    let one = DerivedAwardReason::MatchesLastDigit;
    assert!(exact.get_check_predicate(42, 42));
    assert!(!exact.get_check_predicate(42, 43));
    assert!(next.get_check_predicate(42, 43));
    assert!(next.get_check_predicate(43, 42));
    assert!(!next.get_check_predicate(42, 44));
    assert!(!next.get_check_predicate(42, 42));
    assert!(next.get_check_predicate(u32::MAX, u32::MAX - 1));
    assert!(hundred.get_check_predicate(12345, 12399));
    assert!(!hundred.get_check_predicate(12345, 12345));
    assert!(!hundred.get_check_predicate(12345, 12445));
    assert!(two.get_check_predicate(12345, 99945));
    assert!(!two.get_check_predicate(12345, 12345));
    assert!(!two.get_check_predicate(12345, 12355));
    assert!(one.get_check_predicate(12345, 5));
    assert!(!one.get_check_predicate(5, 5));
    assert!(!one.get_check_predicate(12345, 12346));
}
