//! The month from which the market makes more than the savings do: the first of three
//! consecutive months in which the net worth's growth beyond the new savings exceeds the new
//! savings, over a run with no planned flows and no debt payments.
use crate::assembly::EngineLiability;
use crate::decimal::{abs, dec_le, dec_lt, dec_sub, one_unit, safe_units, Dec};
use crate::plan::difference;
use crate::whatif::LiabilityTerms;
use vstd::prelude::*;

verus! {

/// Consecutive months the crossover must hold.
pub const REQUIRED_CONSECUTIVE_MONTHS: u32 = 3;

/// A liability as the crossover run takes it: its terms kept, its monthly payment zero.
pub open spec fn neutral_liability(l: EngineLiability) -> EngineLiability {
    EngineLiability { terms: LiabilityTerms { monthly_payment: Dec::of(0, 0), ..l.terms }, ..l }
}

/// Two liabilities that differ at most in their monthly payment.
pub open spec fn same_but_payment(a: EngineLiability, b: EngineLiability) -> bool {
    a == EngineLiability {
        terms: LiabilityTerms { monthly_payment: a.terms.monthly_payment, ..b.terms },
        ..b
    }
}

/// Law: the crossover run sees neither the planned flows nor the debt payments. Its adjustments
/// are zero whatever the input's, and two lists of liabilities that differ only in their monthly
/// payments give the same liabilities to the run; the crossover month is then read from the
/// same run.
pub proof fn law_crossover_ignores_flows_and_payments(a: Seq<EngineLiability>, b: Seq<EngineLiability>)
    requires
        a.len() == b.len(),
        forall|i: int| 0 <= i < a.len() ==> same_but_payment(#[trigger] a[i], b[i]),
    ensures
        Seq::new(a.len(), |i: int| neutral_liability(a[i])) == Seq::new(
            b.len(),
            |i: int| neutral_liability(b[i]),
        ),
{
    assert(Seq::new(a.len(), |i: int| neutral_liability(a[i])) =~= Seq::new(
        b.len(),
        |i: int| neutral_liability(b[i]),
    ));
}

/// The inputs of the crossover run: no planned flow (every month's adjustment is zero) and no
/// debt payment (every liability keeps its terms but pays nothing), so that only the savings and
/// the market move the net worth.
pub fn neutral_crossover_inputs(horizon_months: u32, liabilities: &Vec<EngineLiability>) -> (r: (
    Vec<Dec>,
    Vec<EngineLiability>,
))
    ensures
        r.0@ == Seq::new(horizon_months as nat, |i: int| Dec::of(0, 0)),
        r.1@.len() == liabilities@.len(),
        r.1@ == Seq::new(liabilities@.len(), |i: int| neutral_liability(liabilities@[i])),
{
    let mut adj: Vec<Dec> = Vec::new();
    let mut k: u32 = 0;
    while k < horizon_months
        invariant
            k <= horizon_months,
            adj@ == Seq::new(k as nat, |i: int| Dec::of(0, 0)),
        decreases horizon_months - k,
    {
        adj.push(Dec::zero());
        k = k + 1;
        assert(adj@ =~= Seq::new(k as nat, |i: int| Dec::of(0, 0)));
    }
    let mut out: Vec<EngineLiability> = Vec::new();
    let mut i: usize = 0;
    while i < liabilities.len()
        invariant
            0 <= i <= liabilities@.len(),
            out@.len() == i,
            forall|j: int|
                0 <= j < i ==> #[trigger] out@[j] == (EngineLiability {
                    terms: LiabilityTerms { monthly_payment: Dec::of(0, 0), ..liabilities@[j].terms },
                    ..liabilities@[j]
                }),
        decreases liabilities@.len() - i,
    {
        let l = liabilities[i];
        out.push(
            EngineLiability { terms: LiabilityTerms { monthly_payment: Dec::zero(), ..l.terms }, ..l },
        );
        i = i + 1;
    }
    assert(out@ =~= Seq::new(liabilities@.len(), |i: int| neutral_liability(liabilities@[i])));
    (adj, out)
}

/// Every step of the scan stays within the range of a decimal: the month's growth of the net
/// worth, of the contributed capital, and the difference of the two.
pub open spec fn crossover_fits(nw: Seq<Dec>, cc: Seq<Dec>) -> bool {
    forall|k: int|
        1 <= k < nw.len() ==> {
            &&& abs((#[trigger] nw[k]).units() - nw[k - 1].units()) <= safe_units()
            &&& abs(cc[k].units() - cc[k - 1].units()) <= safe_units()
            &&& abs(difference(nw[k], nw[k - 1]).units() - difference(cc[k], cc[k - 1]).units())
                <= safe_units()
        }
}

/// The scan from month `k` with `run` consecutive months already seen.
pub open spec fn crossover_from(nw: Seq<Dec>, cc: Seq<Dec>, k: int, run: int) -> Option<int>
    decreases nw.len() - k,
{
    if k < 1 || k >= nw.len() {
        None
    } else {
        let nw_delta = difference(nw[k], nw[k - 1]);
        let savings_delta = difference(cc[k], cc[k - 1]);
        if savings_delta.units() <= 0 {
            crossover_from(nw, cc, k + 1, 0)
        } else {
            let market = difference(nw_delta, savings_delta);
            if market.units() > savings_delta.units() {
                if run + 1 >= REQUIRED_CONSECUTIVE_MONTHS {
                    Some(k + 1 - REQUIRED_CONSECUTIVE_MONTHS)
                } else {
                    crossover_from(nw, cc, k + 1, run + 1)
                }
            } else {
                crossover_from(nw, cc, k + 1, 0)
            }
        }
    }
}

/// Month `i` beats the savings: the contributed capital grew, and the net worth grew by more than
/// twice that (the market's part exceeds the new savings).
pub open spec fn beats(nw: Seq<Dec>, cc: Seq<Dec>, i: int) -> bool {
    let savings_delta = difference(cc[i], cc[i - 1]);
    &&& savings_delta.units() > 0
    &&& difference(difference(nw[i], nw[i - 1]), savings_delta).units() > savings_delta.units()
}

/// Months `j`, `j + 1` and `j + 2` all beat the savings.
pub open spec fn run_of_three(nw: Seq<Dec>, cc: Seq<Dec>, j: int) -> bool {
    &&& 1 <= j
    &&& j + 2 < nw.len()
    &&& beats(nw, cc, j)
    &&& beats(nw, cc, j + 1)
    &&& beats(nw, cc, j + 2)
}

proof fn lemma_crossover_scan(nw: Seq<Dec>, cc: Seq<Dec>, k: int, run: int)
    requires
        1 <= k,
        0 <= run < REQUIRED_CONSECUTIVE_MONTHS,
        run <= k - 1,
        forall|i: int| k - run <= i < k ==> #[trigger] beats(nw, cc, i),
        k - run - 1 >= 1 ==> !beats(nw, cc, k - run - 1),
        forall|j: int| 1 <= j && j + 2 <= k - 1 ==> !#[trigger] run_of_three(nw, cc, j),
    ensures
        crossover_from(nw, cc, k, run) matches Some(m) ==> run_of_three(nw, cc, m) && forall|j: int|
            1 <= j < m ==> !#[trigger] run_of_three(nw, cc, j),
        crossover_from(nw, cc, k, run) is None ==> forall|j: int|
            !#[trigger] run_of_three(nw, cc, j),
    decreases nw.len() - k,
{
    if k >= nw.len() {
        assert forall|j: int| !#[trigger] run_of_three(nw, cc, j) by {
            if run_of_three(nw, cc, j) {
                assert(j + 2 <= k - 1);
            }
        }
    } else if !beats(nw, cc, k) {
        assert forall|j: int| 1 <= j && j + 2 <= k implies !#[trigger] run_of_three(nw, cc, j) by {
            if j + 2 == k {
                assert(!beats(nw, cc, j + 2));
            }
        }
        lemma_crossover_scan(nw, cc, k + 1, 0);
    } else if run + 1 >= REQUIRED_CONSECUTIVE_MONTHS {
        assert(beats(nw, cc, k - 2) && beats(nw, cc, k - 1));
        assert(run_of_three(nw, cc, k - 2));
    } else {
        assert forall|j: int| 1 <= j && j + 2 <= k implies !#[trigger] run_of_three(nw, cc, j) by {
            if j + 2 == k {
                if run == 0 {
                    assert(!beats(nw, cc, k - 1));
                } else {
                    assert(!beats(nw, cc, k - 2));
                }
            }
        }
        lemma_crossover_scan(nw, cc, k + 1, run + 1);
    }
}

/// Law: the crossover month is the first month of the first run of three consecutive months in
/// which the contributed capital grows and the market's part of the net worth's growth exceeds
/// it; when the scan finds none, there is no such run.
pub proof fn law_crossover_is_the_first_run(nw: Seq<Dec>, cc: Seq<Dec>)
    ensures
        crossover_from(nw, cc, 1, 0) matches Some(m) ==> run_of_three(nw, cc, m) && forall|j: int|
            1 <= j < m ==> !#[trigger] run_of_three(nw, cc, j),
        crossover_from(nw, cc, 1, 0) is None ==> forall|j: int| !#[trigger] run_of_three(nw, cc, j),
{
    lemma_crossover_scan(nw, cc, 1, 0);
}

/// The first month of a run of three in which the market's part of the growth beats the new
/// savings; none when the assumed monthly savings are not positive or no such run exists.
pub fn compound_outpaces_true_savings_month(
    monthly_delta_assumption: Dec,
    net_worth: &Vec<Dec>,
    contributed_capital: &Vec<Dec>,
) -> (r: Option<u32>)
    requires
        net_worth@.len() <= contributed_capital@.len(),
        net_worth@.len() <= u32::MAX,
        crossover_fits(net_worth@, contributed_capital@),
    ensures
        r == (if monthly_delta_assumption.units() <= 0 {
            None
        } else {
            match crossover_from(net_worth@, contributed_capital@, 1, 0) {
                Some(m) => Some(m as u32),
                None => None,
            }
        }),
{
    proof {
        crate::decimal::lemma_int_units(0);
    }
    if dec_le(monthly_delta_assumption, Dec::zero()) {
        return None;
    }
    let mut consecutive: u32 = 0;
    let mut k: usize = 1;
    while k < net_worth.len()
        invariant
            1 <= k,
            net_worth@.len() <= contributed_capital@.len(),
            net_worth@.len() <= u32::MAX,
            consecutive < REQUIRED_CONSECUTIVE_MONTHS,
            consecutive as int <= k - 1,
            monthly_delta_assumption.units() > 0,
            crossover_fits(net_worth@, contributed_capital@),
            crossover_from(net_worth@, contributed_capital@, 1, 0) == crossover_from(
                net_worth@,
                contributed_capital@,
                k as int,
                consecutive as int,
            ),
        decreases net_worth@.len() - k,
    {
        let nw_delta = dec_sub(net_worth[k], net_worth[k - 1]);
        let savings_delta = dec_sub(contributed_capital[k], contributed_capital[k - 1]);
        nw_delta.bounds();
        savings_delta.bounds();
        proof {
            crate::decimal::lemma_dec_of(nw_delta.mantissa(), nw_delta.scale());
            crate::decimal::lemma_dec_of(savings_delta.mantissa(), savings_delta.scale());
        }
        if dec_le(savings_delta, Dec::zero()) {
            consecutive = 0;
            k = k + 1;
            continue;
        }
        let market = dec_sub(nw_delta, savings_delta);
        market.bounds();
        proof {
            crate::decimal::lemma_dec_of(market.mantissa(), market.scale());
        }
        if dec_lt(savings_delta, market) {
            let ghost old_run = consecutive;
            consecutive = consecutive + 1;
            if consecutive >= REQUIRED_CONSECUTIVE_MONTHS {
                proof {
                    assert(crossover_from(
                        net_worth@,
                        contributed_capital@,
                        k as int,
                        old_run as int,
                    ) == Some(k + 1 - REQUIRED_CONSECUTIVE_MONTHS));
                }
                return Some(k as u32 + 1 - REQUIRED_CONSECUTIVE_MONTHS);
            }
        } else {
            consecutive = 0;
        }
        k = k + 1;
    }
    None
}

} // verus!
