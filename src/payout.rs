use crate::award_spec::base_award;
use crate::awards::{
    award_entries, awards_total, awards_upto, derived_all, derived_upto, reason_at,
    reason_holds, scaled_award, DerivedAwardReason, ExtractedAwardedNumber,
};
use crate::laws::draw_total;
use crate::{Amount, PlayedNumber};
use vstd::prelude::*;

verus! {

/// The sum of `f(i)` for `i` from 0 up to, not including, `n`.
pub open spec fn sum_below(f: spec_fn(int) -> int, n: nat) -> int
    decreases n,
{
    if n == 0 {
        0
    } else {
        sum_below(f, (n - 1) as nat) + f(n - 1)
    }
}

proof fn lemma_sum_ext(f: spec_fn(int) -> int, g: spec_fn(int) -> int, n: nat)
    requires
        forall|i: int| 0 <= i < n ==> #[trigger] f(i) == g(i),
    ensures
        sum_below(f, n) == sum_below(g, n),
    decreases n,
{
    if n > 0 {
        lemma_sum_ext(f, g, (n - 1) as nat);
    }
}

proof fn lemma_sum_add(
    f: spec_fn(int) -> int,
    g: spec_fn(int) -> int,
    h: spec_fn(int) -> int,
    n: nat,
)
    requires
        forall|i: int| 0 <= i < n ==> #[trigger] h(i) == f(i) + g(i),
    ensures
        sum_below(h, n) == sum_below(f, n) + sum_below(g, n),
    decreases n,
{
    if n > 0 {
        lemma_sum_add(f, g, h, (n - 1) as nat);
    }
}

proof fn lemma_sum_scale(f: spec_fn(int) -> int, g: spec_fn(int) -> int, c: int, n: nat)
    requires
        forall|i: int| 0 <= i < n ==> #[trigger] g(i) == c * f(i),
    ensures
        sum_below(g, n) == c * sum_below(f, n),
    decreases n,
{
    if n > 0 {
        lemma_sum_scale(f, g, c, (n - 1) as nat);
        let a = sum_below(f, (n - 1) as nat);
        assert(c * a + c * f(n - 1) == c * (a + f(n - 1))) by (nonlinear_arith);
    }
}

/// `f` with its first argument fixed to `j`.
pub open spec fn row(f: spec_fn(int, int) -> int, j: int) -> spec_fn(int) -> int {
    |p: int| f(j, p)
}

/// `f` with its second argument fixed to `p`.
pub open spec fn column(f: spec_fn(int, int) -> int, p: int) -> spec_fn(int) -> int {
    |j: int| f(j, p)
}

/// For each `p`, the sum of `f(j, p)` over `j` below `m`.
pub open spec fn column_totals(f: spec_fn(int, int) -> int, m: nat) -> spec_fn(int) -> int {
    |p: int| sum_below(column(f, p), m)
}

/// For each `j`, the sum of `f(j, p)` over `p` below `n`.
pub open spec fn row_totals(f: spec_fn(int, int) -> int, n: nat) -> spec_fn(int) -> int {
    |j: int| sum_below(row(f, j), n)
}

proof fn lemma_sum_swap(f: spec_fn(int, int) -> int, n: nat, m: nat)
    ensures
        sum_below(column_totals(f, m), n) == sum_below(row_totals(f, n), m),
    decreases n,
{
    if n > 0 {
        let k = (n - 1) as nat;
        lemma_sum_swap(f, k, m);
        assert forall|j: int| 0 <= j < m implies #[trigger] row_totals(f, n)(j) == row_totals(f, k)(
            j,
        ) + column(f, k as int)(j) by {
            assert(row_totals(f, n)(j) == sum_below(row(f, j), n));
            assert(row_totals(f, k)(j) == sum_below(row(f, j), k));
        }
        lemma_sum_add(row_totals(f, k), column(f, k as int), row_totals(f, n), m);
        assert(column_totals(f, m)(k as int) == sum_below(column(f, k as int), m));
    } else {
        assert forall|j: int| 0 <= j < m implies #[trigger] row_totals(f, 0)(j) == 0 * row_totals(
            f,
            0,
        )(j) by {
            assert(row_totals(f, 0)(j) == sum_below(row(f, j), 0));
        }
        lemma_sum_scale(row_totals(f, 0), row_totals(f, 0), 0, m);
    }
}

/// 1 where `reason` holds between the awarded number `w` and `p`, else 0.
pub open spec fn indicator(reason: DerivedAwardReason, w: int) -> spec_fn(int) -> int {
    |p: int|
        if reason_holds(reason, w, p) {
            1int
        } else {
            0int
        }
}

/// How many numbers `p` with `0 <= p < n` are in the same block of 100 as `w`.
pub open spec fn block_count(w: int, n: int) -> int {
    let lo = 100 * (w / 100);
    if n <= lo {
        0
    } else if n >= lo + 100 {
        100
    } else {
        n - lo
    }
}

/// How many numbers `p` with `0 <= p < n` leave remainder `k` modulo `m`.
pub open spec fn residue_count(n: int, m: int, k: int) -> int {
    if n <= k {
        0
    } else {
        (n - k - 1) / m + 1
    }
}

proof fn lemma_count_exact(w: int, n: nat)
    requires
        w >= 0,
    ensures
        sum_below(indicator(DerivedAwardReason::ExactMatch, w), n) == if w < n {
            1int
        } else {
            0int
        },
    decreases n,
{
    if n > 0 {
        lemma_count_exact(w, (n - 1) as nat);
    }
}

proof fn lemma_count_next(w: int, n: nat)
    requires
        w >= 0,
    ensures
        sum_below(indicator(DerivedAwardReason::NextToThePrizedNum, w), n) == (if 1 <= w && w - 1
            < n {
            1int
        } else {
            0int
        }) + (if w + 1 < n {
            1int
        } else {
            0int
        }),
    decreases n,
{
    if n > 0 {
        lemma_count_next(w, (n - 1) as nat);
    }
}

proof fn lemma_count_hundred(w: int, n: nat)
    requires
        w >= 0,
    ensures
        sum_below(indicator(DerivedAwardReason::SameHundred, w), n) == block_count(w, n as int) - (
        if w < n {
            1int
        } else {
            0int
        }),
    decreases n,
{
    if n > 0 {
        lemma_count_hundred(w, (n - 1) as nat);
    }
}

proof fn lemma_count_last_two(w: int, n: nat)
    requires
        w >= 0,
    ensures
        sum_below(indicator(DerivedAwardReason::MatchesLastTwoDigits, w), n) == residue_count(
            n as int,
            100,
            w % 100,
        ) - (if w < n {
            1int
        } else {
            0int
        }),
    decreases n,
{
    if n > 0 {
        lemma_count_last_two(w, (n - 1) as nat);
    }
}

proof fn lemma_count_last_digit(w: int, n: nat)
    requires
        w >= 0,
    ensures
        sum_below(indicator(DerivedAwardReason::MatchesLastDigit, w), n) == residue_count(
            n as int,
            10,
            w % 10,
        ) - (if w < n {
            1int
        } else {
            0int
        }),
    decreases n,
{
    if n > 0 {
        lemma_count_last_digit(w, (n - 1) as nat);
    }
}

/// How many numbers below `n` (a whole number of blocks of 100, above the
/// awarded number `w`) `reason` links to `w`.
pub open spec fn reason_count(reason: DerivedAwardReason, w: int, n: int) -> int {
    match reason {
        DerivedAwardReason::ExactMatch => 1,
        DerivedAwardReason::NextToThePrizedNum => (if w >= 1 {
            1int
        } else {
            0int
        }) + (if w + 1 < n {
            1int
        } else {
            0int
        }),
        DerivedAwardReason::SameHundred => 99,
        DerivedAwardReason::MatchesLastTwoDigits => n / 100 - 1,
        DerivedAwardReason::MatchesLastDigit => n / 10 - 1,
    }
}

proof fn lemma_count_closed(reason: DerivedAwardReason, w: int, n: nat)
    requires
        0 <= w < n,
        n % 100 == 0,
    ensures
        sum_below(indicator(reason, w), n) == reason_count(reason, w, n as int),
{
    match reason {
        DerivedAwardReason::ExactMatch => lemma_count_exact(w, n),
        DerivedAwardReason::NextToThePrizedNum => lemma_count_next(w, n),
        DerivedAwardReason::SameHundred => lemma_count_hundred(w, n),
        DerivedAwardReason::MatchesLastTwoDigits => lemma_count_last_two(w, n),
        DerivedAwardReason::MatchesLastDigit => lemma_count_last_digit(w, n),
    }
}

/// The number `p` played with `bet`.
pub open spec fn played_with(p: int, bet: Amount) -> PlayedNumber {
    PlayedNumber { number: p as u32, bet }
}

/// What `p` earns against `w` under `reason`: the scaled base award where
/// the reason holds, else nothing.
pub open spec fn reason_pay(
    w: ExtractedAwardedNumber,
    p: PlayedNumber,
    reason: DerivedAwardReason,
) -> int {
    if reason_holds(reason, w.number as int, p.number as int) {
        scaled_award(base_award(w.kind, reason) * 100, p.bet.value as int)
    } else {
        0
    }
}

/// What `p` earns against `w` under the first `k` reasons.
pub open spec fn pay_upto(w: ExtractedAwardedNumber, p: PlayedNumber, k: nat) -> int
    decreases k,
{
    if k == 0 {
        0
    } else {
        pay_upto(w, p, (k - 1) as nat) + reason_pay(w, p, reason_at(k - 1))
    }
}

proof fn lemma_awards_total_is_pay(w: ExtractedAwardedNumber, p: PlayedNumber, k: nat)
    ensures
        awards_total(awards_upto(w, p, k)) == pay_upto(w, p, k),
    decreases k,
{
    if k > 0 {
        lemma_awards_total_is_pay(w, p, (k - 1) as nat);
        let prev = awards_upto(w, p, (k - 1) as nat);
        let cur = awards_upto(w, p, k);
        if cur.len() > prev.len() {
            assert(cur.drop_last() =~= prev);
        }
        assert(scaled_award(0, p.bet.value as int) == 0);
    }
}

/// What the numbers below `n`, each played with `bet`, earn together against
/// `w` under `reason`.
pub open spec fn reason_payout(
    w: ExtractedAwardedNumber,
    bet: Amount,
    reason: DerivedAwardReason,
    n: int,
) -> int {
    scaled_award(base_award(w.kind, reason) * 100, bet.value as int) * reason_count(
        reason,
        w.number as int,
        n,
    )
}

/// `reason_payout` summed over the first `k` reasons.
pub open spec fn payout_upto(w: ExtractedAwardedNumber, bet: Amount, n: int, k: nat) -> int
    decreases k,
{
    if k == 0 {
        0
    } else {
        payout_upto(w, bet, n, (k - 1) as nat) + reason_payout(w, bet, reason_at(k - 1), n)
    }
}

/// What the numbers below `n`, each played with `bet`, earn together against `w`.
pub open spec fn number_payout(w: ExtractedAwardedNumber, bet: Amount, n: int) -> int {
    payout_upto(w, bet, n, 5)
}

/// For each played number `p`, what it earns against `w` under `reason`.
pub open spec fn reason_column(
    w: ExtractedAwardedNumber,
    bet: Amount,
    reason: DerivedAwardReason,
) -> spec_fn(int) -> int {
    |p: int| reason_pay(w, played_with(p, bet), reason)
}

/// For each played number `p`, what it earns against `w` under the first `k` reasons.
pub open spec fn pay_column(w: ExtractedAwardedNumber, bet: Amount, k: nat) -> spec_fn(int) -> int {
    |p: int| pay_upto(w, played_with(p, bet), k)
}

proof fn lemma_number_payout_upto(w: ExtractedAwardedNumber, bet: Amount, n: nat, k: nat)
    requires
        w.number < n,
        n % 100 == 0,
        n <= u32::MAX + 1,
    ensures
        sum_below(pay_column(w, bet, k), n) == payout_upto(w, bet, n as int, k),
    decreases k,
{
    if k == 0 {
        assert forall|p: int| 0 <= p < n implies #[trigger] pay_column(w, bet, 0)(p) == 0
            * pay_column(w, bet, 0)(p) by {}
        lemma_sum_scale(pay_column(w, bet, 0), pay_column(w, bet, 0), 0, n);
    } else {
        let r = reason_at(k - 1);
        lemma_number_payout_upto(w, bet, n, (k - 1) as nat);
        lemma_sum_add(
            pay_column(w, bet, (k - 1) as nat),
            reason_column(w, bet, r),
            pay_column(w, bet, k),
            n,
        );
        let c = scaled_award(base_award(w.kind, r) * 100, bet.value as int);
        assert forall|p: int| 0 <= p < n implies #[trigger] reason_column(w, bet, r)(p) == c
            * indicator(r, w.number as int)(p) by {
            assert((p as u32) as int == p);
        }
        lemma_sum_scale(indicator(r, w.number as int), reason_column(w, bet, r), c, n);
        lemma_count_closed(r, w.number as int, n);
    }
}

/// For each extracted number of `ws` (by index), what `p` earns against it.
pub open spec fn number_totals(ws: Seq<ExtractedAwardedNumber>, p: PlayedNumber) -> spec_fn(
    int,
) -> int {
    |j: int| awards_total(award_entries(ws[j], p))
}

proof fn lemma_draw_total_by_number(ws: Seq<ExtractedAwardedNumber>, p: PlayedNumber, m: nat)
    requires
        m <= ws.len(),
    ensures
        draw_total(derived_upto(ws, p, m)) == sum_below(number_totals(ws, p), m),
    decreases m,
{
    if m > 0 {
        lemma_draw_total_by_number(ws, p, (m - 1) as nat);
        let prev = derived_upto(ws, p, (m - 1) as nat);
        let cur = derived_upto(ws, p, m);
        if cur.len() > prev.len() {
            assert(cur.drop_last() =~= prev);
        }
    }
}

/// What `p`, played with `bet`, earns against the extracted number at index `j` of `ws`.
pub open spec fn earned(ws: Seq<ExtractedAwardedNumber>, bet: Amount) -> spec_fn(int, int) -> int {
    |j: int, p: int| awards_total(award_entries(ws[j], played_with(p, bet)))
}

/// For each played number `p`, what it earns against the whole draw `ws` with `bet`.
pub open spec fn played_totals(ws: Seq<ExtractedAwardedNumber>, bet: Amount) -> spec_fn(
    int,
) -> int {
    |p: int| draw_total(derived_all(ws, played_with(p, bet)))
}

/// What the numbers below `n`, each played with `bet`, earn together against
/// the draw `ws`, computed from the prize table and from how many numbers
/// each reason links to each extracted number.
pub open spec fn draw_payout(ws: Seq<ExtractedAwardedNumber>, bet: Amount, n: int) -> int {
    sum_below(|j: int| number_payout(ws[j], bet, n), ws.len())
}

/// Playing every number below `n` with the same bet against one draw earns,
/// in all, what the prize table pays for each extracted number times how
/// many numbers each reason links to it: the draw's known total payout.
/// `n` is a whole number of blocks of 100 and lies above every extracted number.
pub proof fn lemma_all_played_numbers_total(ws: Seq<ExtractedAwardedNumber>, bet: Amount, n: nat)
    requires
        n % 100 == 0,
        n <= u32::MAX + 1,
        forall|j: int| 0 <= j < ws.len() ==> (#[trigger] ws[j]).number < n,
    ensures
        sum_below(played_totals(ws, bet), n) == draw_payout(ws, bet, n as int),
{
    let m = ws.len();
    let f = earned(ws, bet);
    assert forall|p: int| 0 <= p < n implies #[trigger] played_totals(ws, bet)(p) == column_totals(
        f,
        m,
    )(p) by {
        lemma_draw_total_by_number(ws, played_with(p, bet), m);
        lemma_sum_ext(number_totals(ws, played_with(p, bet)), column(f, p), m);
    }
    lemma_sum_ext(played_totals(ws, bet), column_totals(f, m), n);
    lemma_sum_swap(f, n, m);
    assert forall|j: int| 0 <= j < m implies #[trigger] row_totals(f, n)(j) == number_payout(
        ws[j],
        bet,
        n as int,
    ) by {
        assert forall|p: int| 0 <= p < n implies #[trigger] row(f, j)(p) == pay_column(
            ws[j],
            bet,
            5,
        )(p) by {
            lemma_awards_total_is_pay(ws[j], played_with(p, bet), 5);
        }
        lemma_sum_ext(row(f, j), pay_column(ws[j], bet, 5), n);
        lemma_number_payout_upto(ws[j], bet, n, 5);
    }
    lemma_sum_ext(row_totals(f, n), |j: int| number_payout(ws[j], bet, n as int), m);
}

} // verus!
