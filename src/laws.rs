use crate::award_spec::base_award;
use crate::awards::{
    award_entries, awards_total, awards_upto, derived_all, derived_upto, reason_at,
    reason_holds, scaled_award, DerivedAwardReason, ExtractedAwardKind, ExtractedAwardedNumber,
    NOMINAL_STAKE_CENTS,
};
use crate::currency::trunc_div;
use crate::PlayedNumber;
use vstd::arithmetic::div_mod::{lemma_fundamental_div_mod, lemma_fundamental_div_mod_converse};
use vstd::prelude::*;

verus! {

/// The sum of the totals of a list of results: what a played number earns
/// against a whole draw.
pub open spec fn draw_total(
    results: Seq<(ExtractedAwardedNumber, PlayedNumber, Seq<(DerivedAwardReason, int)>)>,
) -> int
    decreases results.len(),
{
    if results.len() == 0 {
        0
    } else {
        draw_total(results.drop_last()) + awards_total(results.last().2)
    }
}

/// `b` holds the awards of `a` with each amount doubled, give or take the
/// one cent that truncation may lose, and exactly doubled where `exact`.
pub open spec fn doubled_entries(
    a: Seq<(DerivedAwardReason, int)>,
    b: Seq<(DerivedAwardReason, int)>,
    exact: bool,
) -> bool {
    &&& b.len() == a.len()
    &&& forall|i: int|
        0 <= i < a.len() ==> {
            &&& (#[trigger] b[i]).0 == a[i].0
            &&& -1 <= b[i].1 - 2 * a[i].1 <= 1
            &&& exact ==> b[i].1 == 2 * a[i].1
        }
}

proof fn lemma_double_div_nonneg(x: int, d: int)
    requires
        x >= 0,
        d > 0,
    ensures
        2 * (x / d) <= (2 * x) / d <= 2 * (x / d) + 1,
{
    lemma_fundamental_div_mod(x, d);
    let q = x / d;
    let r = x % d;
    assert(0 <= r < d);
    assert(2 * x == (2 * q) * d + 2 * r) by (nonlinear_arith)
        requires
            x == d * q + r,
    ;
    if 2 * r < d {
        lemma_fundamental_div_mod_converse(2 * x, d, 2 * q, 2 * r);
    } else {
        assert(2 * x == (2 * q + 1) * d + (2 * r - d)) by (nonlinear_arith)
            requires
                2 * x == (2 * q) * d + 2 * r,
        ;
        lemma_fundamental_div_mod_converse(2 * x, d, 2 * q + 1, 2 * r - d);
    }
}

proof fn lemma_double_trunc_div(x: int, d: int)
    requires
        d > 0,
    ensures
        -1 <= trunc_div(2 * x, d) - 2 * trunc_div(x, d) <= 1,
{
    if x >= 0 {
        lemma_double_div_nonneg(x, d);
    } else {
        lemma_double_div_nonneg(-x, d);
        assert(-(2 * x) == 2 * (-x));
    }
}

proof fn lemma_trunc_div_exact(k: int, d: int)
    requires
        d > 0,
    ensures
        trunc_div(d * k, d) == k,
{
    if k >= 0 {
        assert(d * k >= 0) by (nonlinear_arith)
            requires
                d > 0,
                k >= 0,
        ;
        lemma_fundamental_div_mod_converse(d * k, d, k, 0);
    } else {
        assert(d * k < 0) by (nonlinear_arith)
            requires
                d > 0,
                k < 0,
        ;
        assert(-(d * k) == (-k) * d) by (nonlinear_arith);
        lemma_fundamental_div_mod_converse(-(d * k), d, -k, 0);
    }
}

proof fn lemma_base_award_whole_hundreds(kind: ExtractedAwardKind, reason: DerivedAwardReason)
    ensures
        base_award(kind, reason) % 100 == 0,
{
}

/// Scaling one award to twice the stake doubles it, up to one cent of
/// truncation, and exactly for an even stake.
proof fn lemma_scaled_award_doubles(kind: ExtractedAwardKind, reason: DerivedAwardReason, s: int)
    ensures
        -1 <= scaled_award(base_award(kind, reason) * 100, 2 * s) - 2 * scaled_award(
            base_award(kind, reason) * 100,
            s,
        ) <= 1,
        s % 2 == 0 ==> scaled_award(base_award(kind, reason) * 100, 2 * s) == 2 * scaled_award(
            base_award(kind, reason) * 100,
            s,
        ),
{
    let b = base_award(kind, reason) * 100;
    let d = NOMINAL_STAKE_CENTS as int;
    assert(b * (2 * s) == 2 * (b * s)) by (nonlinear_arith);
    lemma_double_trunc_div(b * s, d);
    if s % 2 == 0 {
        lemma_base_award_whole_hundreds(kind, reason);
        let e = base_award(kind, reason) / 100;
        let m = s / 2;
        assert(b * s == d * (e * m)) by (nonlinear_arith)
            requires
                b == base_award(kind, reason) * 100,
                base_award(kind, reason) == 100 * e,
                s == 2 * m,
                d == 20000,
        ;
        assert(2 * (b * s) == d * (2 * (e * m))) by (nonlinear_arith)
            requires
                b * s == d * (e * m),
        ;
        lemma_trunc_div_exact(e * m, d);
        lemma_trunc_div_exact(2 * (e * m), d);
    }
}

proof fn lemma_doubling_upto(w: ExtractedAwardedNumber, p: PlayedNumber, q: PlayedNumber, n: nat)
    requires
        q.number == p.number,
        q.bet.value == 2 * p.bet.value,
    ensures
        doubled_entries(awards_upto(w, p, n), awards_upto(w, q, n), p.bet.value % 2 == 0),
    decreases n,
{
    if n > 0 {
        lemma_doubling_upto(w, p, q, (n - 1) as nat);
        lemma_scaled_award_doubles(w.kind, reason_at(n - 1), p.bet.value as int);
        let a = awards_upto(w, p, n);
        let b = awards_upto(w, q, n);
        let a0 = awards_upto(w, p, (n - 1) as nat);
        let b0 = awards_upto(w, q, (n - 1) as nat);
        assert forall|i: int| 0 <= i < a.len() implies {
            &&& (#[trigger] b[i]).0 == a[i].0
            &&& -1 <= b[i].1 - 2 * a[i].1 <= 1
            &&& p.bet.value % 2 == 0 ==> b[i].1 == 2 * a[i].1
        } by {
            if i < a0.len() {
                assert(a[i] == a0[i]);
                assert(b[i] == b0[i]);
            }
        }
    }
}

/// Doubling the stake of a played number keeps which awards it earns against
/// a draw, and in which order, and doubles each amount: exactly where the
/// stake is a whole even number of cents, and otherwise up to the one cent
/// that truncating toward zero may lose.
pub proof fn lemma_doubling_stake_doubles_awards(
    ws: Seq<ExtractedAwardedNumber>,
    p: PlayedNumber,
    q: PlayedNumber,
)
    requires
        q.number == p.number,
        q.bet.value == 2 * p.bet.value,
    ensures
        derived_all(ws, q).len() == derived_all(ws, p).len(),
        forall|i: int|
            0 <= i < derived_all(ws, p).len() ==> {
                &&& (#[trigger] derived_all(ws, q)[i]).0 == derived_all(ws, p)[i].0
                &&& derived_all(ws, q)[i].1 == q
                &&& doubled_entries(
                    derived_all(ws, p)[i].2,
                    derived_all(ws, q)[i].2,
                    p.bet.value % 2 == 0,
                )
            },
{
    lemma_doubling_derived_upto(ws, p, q, ws.len());
}

proof fn lemma_doubling_derived_upto(
    ws: Seq<ExtractedAwardedNumber>,
    p: PlayedNumber,
    q: PlayedNumber,
    n: nat,
)
    requires
        q.number == p.number,
        q.bet.value == 2 * p.bet.value,
        n <= ws.len(),
    ensures
        derived_upto(ws, q, n).len() == derived_upto(ws, p, n).len(),
        forall|i: int|
            0 <= i < derived_upto(ws, p, n).len() ==> {
                &&& (#[trigger] derived_upto(ws, q, n)[i]).0 == derived_upto(ws, p, n)[i].0
                &&& derived_upto(ws, q, n)[i].1 == q
                &&& doubled_entries(
                    derived_upto(ws, p, n)[i].2,
                    derived_upto(ws, q, n)[i].2,
                    p.bet.value % 2 == 0,
                )
            },
    decreases n,
{
    if n > 0 {
        lemma_doubling_derived_upto(ws, p, q, (n - 1) as nat);
        lemma_doubling_upto(ws[n - 1], p, q, 5);
        let a = derived_upto(ws, p, n);
        let b = derived_upto(ws, q, n);
        let a0 = derived_upto(ws, p, (n - 1) as nat);
        let b0 = derived_upto(ws, q, (n - 1) as nat);
        assert forall|i: int| 0 <= i < a.len() implies {
            &&& (#[trigger] b[i]).0 == a[i].0
            &&& b[i].1 == q
            &&& doubled_entries(a[i].2, b[i].2, p.bet.value % 2 == 0)
        } by {
            if i < a0.len() {
                assert(a[i] == a0[i]);
                assert(b[i] == b0[i]);
            }
        }
    }
}

proof fn lemma_no_reason_no_awards(w: ExtractedAwardedNumber, p: PlayedNumber, n: nat)
    requires
        forall|r: DerivedAwardReason| !reason_holds(r, w.number as int, p.number as int),
    ensures
        awards_upto(w, p, n).len() == 0,
    decreases n,
{
    if n > 0 {
        lemma_no_reason_no_awards(w, p, (n - 1) as nat);
        assert(!reason_holds(reason_at(n - 1), w.number as int, p.number as int));
    }
}

proof fn lemma_no_match_upto(ws: Seq<ExtractedAwardedNumber>, p: PlayedNumber, n: nat)
    requires
        n <= ws.len(),
        forall|j: int, r: DerivedAwardReason|
            0 <= j < ws.len() ==> !#[trigger] reason_holds(r, ws[j].number as int, p.number as int),
    ensures
        derived_upto(ws, p, n).len() == 0,
    decreases n,
{
    if n > 0 {
        lemma_no_match_upto(ws, p, (n - 1) as nat);
        let w = ws[n - 1];
        assert forall|r: DerivedAwardReason| !reason_holds(r, w.number as int, p.number as int) by {
            assert(!reason_holds(r, ws[n - 1].number as int, p.number as int));
        }
        lemma_no_reason_no_awards(w, p, 5);
    }
}

/// A played number that no reason links to any extracted number of a draw
/// gets no result against it, and earns nothing in total.
pub proof fn lemma_no_match_no_awards(ws: Seq<ExtractedAwardedNumber>, p: PlayedNumber)
    requires
        forall|j: int, r: DerivedAwardReason|
            0 <= j < ws.len() ==> !#[trigger] reason_holds(r, ws[j].number as int, p.number as int),
    ensures
        derived_all(ws, p).len() == 0,
        draw_total(derived_all(ws, p)) == 0,
{
    lemma_no_match_upto(ws, p, ws.len());
}

/// Playing the number extracted with the first award, at the full nominal
/// stake, earns exactly one award: the exact match's 4,000,000 euros.
pub proof fn lemma_first_award_exact_full_share(w: ExtractedAwardedNumber, p: PlayedNumber)
    requires
        w.kind == ExtractedAwardKind::First,
        p.number == w.number,
        p.bet.value == NOMINAL_STAKE_CENTS,
    ensures
        award_entries(w, p) == seq![(DerivedAwardReason::ExactMatch, 400_000_000int)],
        awards_total(award_entries(w, p)) == 400_000_000,
{
    assert(scaled_award(400_000_000, 20000) == 400_000_000) by (nonlinear_arith);
    reveal_with_fuel(awards_upto, 6);
    assert(award_entries(w, p) =~= seq![(DerivedAwardReason::ExactMatch, 400_000_000int)]);
    let s = award_entries(w, p);
    assert(s.drop_last() =~= seq![]);
    reveal_with_fuel(awards_total, 2);
}

/// The position of `reason` in the order in which reasons are checked.
pub open spec fn reason_index(reason: DerivedAwardReason) -> int {
    match reason {
        DerivedAwardReason::ExactMatch => 0,
        DerivedAwardReason::NextToThePrizedNum => 1,
        DerivedAwardReason::SameHundred => 2,
        DerivedAwardReason::MatchesLastTwoDigits => 3,
        DerivedAwardReason::MatchesLastDigit => 4,
    }
}

/// Whether `p` is paid against `w` under `reason`: the reason holds and its
/// base award for the kind of `w` is not zero.
pub open spec fn reason_pays(
    w: ExtractedAwardedNumber,
    p: PlayedNumber,
    reason: DerivedAwardReason,
) -> bool {
    reason_holds(reason, w.number as int, p.number as int) && base_award(w.kind, reason) != 0
}

proof fn lemma_awards_by_reason_upto(w: ExtractedAwardedNumber, p: PlayedNumber, k: nat)
    requires
        k <= 5,
    ensures
        forall|r: DerivedAwardReason|
            (exists|i: int|
                0 <= i < awards_upto(w, p, k).len() && (#[trigger] awards_upto(w, p, k)[i]).0 == r)
                <==> (reason_index(r) < k && reason_pays(w, p, r)),
        forall|i: int|
            0 <= i < awards_upto(w, p, k).len() ==> (#[trigger] awards_upto(w, p, k)[i]).1
                == scaled_award(
                base_award(w.kind, awards_upto(w, p, k)[i].0) * 100,
                p.bet.value as int,
            ),
        forall|i: int, j: int|
            0 <= i < j < awards_upto(w, p, k).len() ==> reason_index(
                (#[trigger] awards_upto(w, p, k)[i]).0,
            ) < reason_index((#[trigger] awards_upto(w, p, k)[j]).0) < k,
        forall|i: int|
            0 <= i < awards_upto(w, p, k).len() ==> reason_index(
                (#[trigger] awards_upto(w, p, k)[i]).0,
            ) < k,
    decreases k,
{
    if k > 0 {
        lemma_awards_by_reason_upto(w, p, (k - 1) as nat);
        let prev = awards_upto(w, p, (k - 1) as nat);
        let cur = awards_upto(w, p, k);
        let r0 = reason_at(k - 1);
        assert(reason_index(r0) == k - 1);
        assert forall|r: DerivedAwardReason|
            (exists|i: int| 0 <= i < cur.len() && (#[trigger] cur[i]).0 == r) <==> (reason_index(r)
                < k && reason_pays(w, p, r)) by {
            if reason_index(r) < k - 1 || r != r0 {
                if exists|i: int| 0 <= i < cur.len() && (#[trigger] cur[i]).0 == r {
                    let i = choose|i: int| 0 <= i < cur.len() && (#[trigger] cur[i]).0 == r;
                    if i < prev.len() {
                        assert(cur[i] == prev[i]);
                    }
                }
                if reason_index(r) < k - 1 && reason_pays(w, p, r) {
                    let i = choose|i: int| 0 <= i < prev.len() && (#[trigger] prev[i]).0 == r;
                    assert(cur[i] == prev[i]);
                }
            } else {
                if reason_pays(w, p, r) {
                    assert(cur[cur.len() - 1].0 == r);
                }
                if exists|i: int| 0 <= i < cur.len() && (#[trigger] cur[i]).0 == r {
                    let i = choose|i: int| 0 <= i < cur.len() && (#[trigger] cur[i]).0 == r;
                    if i < prev.len() {
                        assert(cur[i] == prev[i]);
                    }
                }
            }
        }
        assert forall|i: int| 0 <= i < cur.len() implies (#[trigger] cur[i]).1 == scaled_award(
            base_award(w.kind, cur[i].0) * 100,
            p.bet.value as int,
        ) && reason_index(cur[i].0) < k by {
            if i < prev.len() {
                assert(cur[i] == prev[i]);
            }
        }
        assert forall|i: int, j: int| 0 <= i < j < cur.len() implies reason_index(
            (#[trigger] cur[i]).0,
        ) < reason_index((#[trigger] cur[j]).0) < k by {
            assert(cur[i] == prev[i]);
            if j < prev.len() {
                assert(cur[j] == prev[j]);
            }
        }
    }
}

/// Against one extracted number, a played number earns one award for each
/// reason that holds and that the number's award kind pays, and no other:
/// where several such reasons hold, their awards add up. The awards come in
/// the order in which reasons are checked, each reason at most once, each
/// with its base award scaled to the stake.
pub proof fn lemma_one_award_per_paying_reason(w: ExtractedAwardedNumber, p: PlayedNumber)
    ensures
        forall|r: DerivedAwardReason|
            (exists|i: int|
                0 <= i < award_entries(w, p).len() && (#[trigger] award_entries(w, p)[i]).0 == r)
                <==> reason_pays(w, p, r),
        forall|i: int|
            0 <= i < award_entries(w, p).len() ==> (#[trigger] award_entries(w, p)[i]).1
                == scaled_award(
                base_award(w.kind, award_entries(w, p)[i].0) * 100,
                p.bet.value as int,
            ),
        forall|i: int, j: int|
            0 <= i < j < award_entries(w, p).len() ==> reason_index(
                (#[trigger] award_entries(w, p)[i]).0,
            ) < reason_index((#[trigger] award_entries(w, p)[j]).0),
{
    lemma_awards_by_reason_upto(w, p, 5);
    let s = award_entries(w, p);
    assert(s == awards_upto(w, p, 5));
    assert forall|r: DerivedAwardReason|
        (exists|i: int| 0 <= i < s.len() && (#[trigger] s[i]).0 == r) <==> reason_pays(w, p, r) by {
        assert(reason_index(r) < 5);
    }
}

/// The derivation depends on its inputs alone: the same draw and the same
/// played number give the same results.
pub proof fn lemma_derivation_deterministic(
    draw_a: Seq<ExtractedAwardedNumber>,
    draw_b: Seq<ExtractedAwardedNumber>,
    played_a: PlayedNumber,
    played_b: PlayedNumber,
)
    requires
        draw_a == draw_b,
        played_a == played_b,
    ensures
        derived_all(draw_a, played_a) == derived_all(draw_b, played_b),
{
}

} // verus!
