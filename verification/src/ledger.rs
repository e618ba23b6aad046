//! Small readings of the liabilities and assets fed to the engine: the monthly equivalent of a
//! payment, whether a liability is still active, why savings stay unallocated, which gain basis
//! governs the drawdown and today's taxable gain ratio.
use crate::date::{date_le, Date};
use crate::decimal::{abs, dec_add, dec_div, dec_lt, dec_max, dec_mul, dec_sub, one_unit, safe_units, Dec};
use crate::plan::{difference, money_of, money_out, product};
use crate::planning::{quotient_of, sum_of};
use crate::text::str_eq;
use vstd::prelude::*;

verus! {

/// The bound on the amounts these readings take (10^20 whole units).
pub open spec fn ledger_bound() -> int {
    100_000_000_000_000_000_000 * one_unit()
}

/// The monthly equivalent of a periodic amount: weekly amounts times 52/12, any other
/// frequency (monthly included) as is.
pub open spec fn monthly_equivalent(amount: Dec, frequency: Option<Seq<char>>) -> Dec {
    if frequency == Some("weekly"@) {
        quotient_of(product(amount, Dec::of(52, 0)), Dec::of(12, 0))
    } else {
        amount
    }
}

pub fn monthly_payment_from(amount: Dec, frequency: Option<&str>) -> (r: Dec)
    requires
        abs(amount.units()) <= ledger_bound(),
    ensures
        r == monthly_equivalent(
            amount,
            match frequency {
                Some(f) => Some(f@),
                None => None,
            },
        ),
        abs(r.units()) <= 5 * ledger_bound(),
        // A weekly amount is 52 weeks spread over 12 months (up to the rounding of the two
        // steps); any other frequency is taken as monthly.
        frequency matches Some(f) && f@ == "weekly"@ ==> abs(12 * r.units() - 52 * amount.units())
            <= 13 * one_unit(),
        !(frequency matches Some(f) && f@ == "weekly"@) ==> r == amount,
{
    let weekly = match frequency {
        Some(f) => str_eq(f, "weekly"),
        None => false,
    };
    if weekly {
        let fifty_two = Dec::from_u32(52);
        let twelve = Dec::from_u32(12);
        proof {
            crate::decimal::lemma_int_units(52);
            crate::decimal::lemma_int_units(12);
            assert(abs(amount.units() * fifty_two.units()) <= safe_units() * one_unit())
                by (nonlinear_arith)
                requires
                    abs(amount.units()) <= ledger_bound(),
                    fifty_two.units() == 52 * one_unit(),
                    ledger_bound() == 100_000_000_000_000_000_000 * one_unit(),
                    safe_units() == 7 * one_unit() * one_unit(),
                    one_unit() == 10000000000000000000000000000,
            ;
        }
        let yearly = dec_mul(amount, fifty_two);
        yearly.bounds();
        proof {
            crate::decimal::lemma_dec_of(yearly.mantissa(), yearly.scale());
            assert(abs(yearly.units() * one_unit()) <= safe_units() * abs(twelve.units()))
                by (nonlinear_arith)
                requires
                    abs(yearly.units() * one_unit() - amount.units() * fifty_two.units())
                        <= one_unit() * one_unit(),
                    abs(amount.units()) <= ledger_bound(),
                    fifty_two.units() == 52 * one_unit(),
                    twelve.units() == 12 * one_unit(),
                    ledger_bound() == 100_000_000_000_000_000_000 * one_unit(),
                    safe_units() == 7 * one_unit() * one_unit(),
                    one_unit() == 10000000000000000000000000000,
            ;
        }
        let r = dec_div(yearly, twelve);
        r.bounds();
        proof {
            crate::decimal::lemma_dec_of(r.mantissa(), r.scale());
            assert(abs(yearly.units()) <= 52 * ledger_bound() + one_unit()) by (nonlinear_arith)
                requires
                    abs(yearly.units() * one_unit() - amount.units() * fifty_two.units())
                        <= one_unit() * one_unit(),
                    abs(amount.units()) <= ledger_bound(),
                    fifty_two.units() == 52 * one_unit(),
                    one_unit() > 0,
            ;
            assert(abs(12 * r.units() - 52 * amount.units()) <= 13 * one_unit()) by (nonlinear_arith)
                requires
                    abs(r.units() * twelve.units() - yearly.units() * one_unit()) <= one_unit()
                        * abs(twelve.units()),
                    abs(yearly.units() * one_unit() - amount.units() * fifty_two.units())
                        <= one_unit() * one_unit(),
                    twelve.units() == 12 * one_unit(),
                    fifty_two.units() == 52 * one_unit(),
                    one_unit() == 10000000000000000000000000000,
            ;
            assert(abs(r.units()) <= 5 * ledger_bound()) by (nonlinear_arith)
                requires
                    abs(r.units() * twelve.units() - yearly.units() * one_unit()) <= one_unit()
                        * abs(twelve.units()),
                    abs(yearly.units()) <= 52 * ledger_bound() + one_unit(),
                    twelve.units() == 12 * one_unit(),
                    ledger_bound() == 100_000_000_000_000_000_000 * one_unit(),
                    one_unit() == 10000000000000000000000000000,
            ;
        }
        r
    } else {
        amount
    }
}

/// The monthly payment of a liability from its raw fields; no amount, no payment.
pub fn liability_monthly_payment(amount: Option<Dec>, frequency: Option<&str>) -> (r: Dec)
    requires
        amount matches Some(a) ==> abs(a.units()) <= ledger_bound(),
    ensures
        r == (match amount {
            Some(a) => monthly_equivalent(
                a,
                match frequency {
                    Some(f) => Some(f@),
                    None => None,
                },
            ),
            None => Dec::of(0, 0),
        }),
        abs(r.units()) <= 5 * ledger_bound(),
{
    match amount {
        Some(a) => monthly_payment_from(a, frequency),
        None => Dec::zero(),
    }
}

/// A liability is active when it has no payment end date or the date has not passed.
pub fn liability_is_active(payment_end_date: Option<Date>, today: Date) -> (r: bool)
    ensures
        r == (match payment_end_date {
            Some(d) => today.le(d),
            None => true,
        }),
{
    match payment_end_date {
        Some(d) => date_le(today, d),
        None => true,
    }
}

/// An asset as the drawdown readings see it: its value and, when declared, its purchase price.
#[derive(Clone, Copy, Debug, PartialEq, Eq)]
pub struct SimAsset {
    pub value: Dec,
    pub purchase_price: Option<Dec>,
}

/// Why savings stay unallocated: none when there is nothing left over, `no_assets` without
/// assets, `no_sink` otherwise.
pub fn unallocated_reason_of(assets: &Vec<SimAsset>, total: Dec) -> (r: Option<&'static str>)
    ensures
        total.units() <= 0 ==> r is None,
        total.units() > 0 && assets@.len() == 0 ==> (r matches Some(s) && s@ == "no_assets"@),
        total.units() > 0 && assets@.len() > 0 ==> (r matches Some(s) && s@ == "no_sink"@),
{
    proof {
        crate::decimal::lemma_int_units(0);
    }
    if !dec_lt(Dec::zero(), total) {
        None
    } else if assets.len() == 0 {
        Some("no_assets")
    } else {
        Some("no_sink")
    }
}

/// How many of the assets declare a purchase price.
pub open spec fn declared_count(assets: Seq<SimAsset>) -> nat
    decreases assets.len(),
{
    if assets.len() == 0 {
        0
    } else {
        declared_count(assets.drop_last()) + if assets.last().purchase_price is Some {
            1nat
        } else {
            0nat
        }
    }
}

/// Law: the count of assets that declare their cost is at most the number of assets; it is 0
/// exactly when none declares one, and the number of assets exactly when all do.
pub proof fn law_declared_count_counts_the_declared(assets: Seq<SimAsset>)
    ensures
        declared_count(assets) <= assets.len(),
        declared_count(assets) == 0 <==> forall|i: int|
            0 <= i < assets.len() ==> (#[trigger] assets[i]).purchase_price is None,
        declared_count(assets) == assets.len() <==> forall|i: int|
            0 <= i < assets.len() ==> (#[trigger] assets[i]).purchase_price is Some,
    decreases assets.len(),
{
    if assets.len() > 0 {
        let init = assets.drop_last();
        law_declared_count_counts_the_declared(init);
        assert forall|i: int| #![trigger assets[i]] 0 <= i < init.len() implies init[i] == assets[i] by {}
        assert(assets[assets.len() - 1] == assets.last());
        if forall|i: int| 0 <= i < assets.len() ==> (#[trigger] assets[i]).purchase_price is None {
            assert forall|i: int| 0 <= i < init.len() implies (#[trigger] init[i]).purchase_price
                is None by {
                assert(init[i] == assets[i]);
            }
        }
        if forall|i: int| 0 <= i < assets.len() ==> (#[trigger] assets[i]).purchase_price is Some {
            assert forall|i: int| 0 <= i < init.len() implies (#[trigger] init[i]).purchase_price
                is Some by {
                assert(init[i] == assets[i]);
            }
        }
    }
}

/// The tax regime of the drawdown: `declared_ratio` when no asset declares its cost,
/// `cost_basis` when all do, `mixed` otherwise.
pub fn drawdown_gain_basis_of(assets: &Vec<SimAsset>) -> (r: &'static str)
    ensures
        declared_count(assets@) == 0 ==> r@ == "declared_ratio"@,
        declared_count(assets@) > 0 && declared_count(assets@) == assets@.len() ==> r@
            == "cost_basis"@,
        declared_count(assets@) > 0 && declared_count(assets@) != assets@.len() ==> r@
            == "mixed"@,
{
    let mut declared: usize = 0;
    let mut i: usize = 0;
    while i < assets.len()
        invariant
            0 <= i <= assets@.len(),
            declared == declared_count(assets@.take(i as int)),
            declared <= i,
        decreases assets@.len() - i,
    {
        proof {
            assert(assets@.take(i + 1).drop_last() =~= assets@.take(i as int));
        }
        if assets[i].purchase_price.is_some() {
            declared = declared + 1;
        }
        i = i + 1;
    }
    proof {
        assert(assets@.take(assets@.len() as int) =~= assets@);
    }
    if declared == 0 {
        "declared_ratio"
    } else if declared == assets.len() {
        "cost_basis"
    } else {
        "mixed"
    }
}

/// Value and gains of the assets with a declared cost and a positive value: `(total, gains)`,
/// summed in order, each gain at least 0.
pub open spec fn declared_totals(assets: Seq<SimAsset>) -> (Dec, Dec)
    decreases assets.len(),
{
    if assets.len() == 0 {
        (Dec::of(0, 0), Dec::of(0, 0))
    } else {
        let (total, gains) = declared_totals(assets.drop_last());
        let a = assets.last();
        match a.purchase_price {
            Some(pp) => if a.value.units() > 0 {
                let g = difference(a.value, pp);
                (
                    sum_of(total, a.value),
                    sum_of(gains, if Dec::of(0, 0).units() < g.units() { g } else { Dec::of(0, 0) }),
                )
            } else {
                (total, gains)
            },
            None => (total, gains),
        }
    }
}

/// An amount of money as stored: at most 4 decimal places and at most `10^20` in magnitude.
pub open spec fn stored_amount(d: Dec) -> bool {
    d.scale() <= 4 && abs(d.units()) <= ledger_bound()
}

/// Today's taxable gain ratio of the portfolio, over the assets that declare their cost only:
/// gains over value, as money; none when no such asset has a positive value. The amounts are
/// stored ones (4 decimal places) and the costs are not negative, so the sums are exact and the
/// ratio is at most one.
pub fn taxable_gain_ratio_today_of(assets: &Vec<SimAsset>) -> (r: Option<Dec>)
    requires
        assets@.len() <= 10_000,
        forall|i: int|
            0 <= i < assets@.len() ==> stored_amount((#[trigger] assets@[i]).value) && (
            assets@[i].purchase_price matches Some(pp) ==> stored_amount(pp) && pp.units() >= 0),
    ensures
        ({
            let (total, gains) = declared_totals(assets@);
            if total.units() > 0 {
                r == Some(money_of(quotient_of(gains, total)))
            } else {
                r is None
            }
        }),
{
    let mut total = Dec::zero();
    let mut gains = Dec::zero();
    proof {
        crate::decimal::lemma_int_units(0);
        crate::decimal::lemma_dec_of(0, 0);
        assert(assets@.take(0) =~= Seq::<SimAsset>::empty());
    }
    let mut i: usize = 0;
    while i < assets.len()
        invariant
            0 <= i <= assets@.len(),
            assets@.len() <= 10_000,
            forall|j: int|
                0 <= j < assets@.len() ==> stored_amount((#[trigger] assets@[j]).value) && (
                assets@[j].purchase_price matches Some(pp) ==> stored_amount(pp) && pp.units()
                    >= 0),
            (total, gains) == declared_totals(assets@.take(i as int)),
            total.scale() <= 4,
            gains.scale() <= 4,
            0 <= gains.units() <= total.units() <= i * ledger_bound(),
        decreases assets@.len() - i,
    {
        proof {
            assert(assets@.take(i + 1).drop_last() =~= assets@.take(i as int));
        }
        let a = assets[i];
        a.value.bounds();
        if let Some(pp) = a.purchase_price {
            if dec_lt(Dec::zero(), a.value) {
                pp.bounds();
                total.bounds();
                gains.bounds();
                proof {
                    assert(total.units() + a.value.units() <= (i + 1) * ledger_bound()) by (nonlinear_arith)
                        requires
                            total.units() <= i * ledger_bound(),
                            a.value.units() <= ledger_bound(),
                    ;
                    assert((i + 1) * ledger_bound() <= 10_000 * ledger_bound()) by (nonlinear_arith)
                        requires
                            i < 10_000,
                            ledger_bound() >= 0,
                    ;
                    crate::decimal::lemma_small_scale_exact(total, a.value, total.units() + a.value.units());
                    crate::decimal::lemma_small_scale_exact(a.value, pp, a.value.units() - pp.units());
                }
                let t = dec_add(total, a.value);
                let g = dec_sub(a.value, pp);
                g.bounds();
                t.bounds();
                let g0 = dec_max(g, Dec::zero());
                g0.bounds();
                proof {
                    crate::decimal::lemma_dec_of(t.mantissa(), t.scale());
                    crate::decimal::lemma_dec_of(g.mantissa(), g.scale());
                    assert(0 <= g0.units() <= a.value.units());
                    assert(g0.scale() <= 4);
                    crate::decimal::lemma_small_scale_exact(gains, g0, gains.units() + g0.units());
                }
                let gs = dec_add(gains, g0);
                gs.bounds();
                proof {
                    crate::decimal::lemma_dec_of(gs.mantissa(), gs.scale());
                }
                total = t;
                gains = gs;
            }
        }
        proof {
            assert(i * ledger_bound() <= (i + 1) * ledger_bound()) by (nonlinear_arith)
                requires
                    ledger_bound() >= 0,
            ;
        }
        i = i + 1;
    }
    proof {
        assert(assets@.take(assets@.len() as int) =~= assets@);
    }
    if dec_lt(Dec::zero(), total) {
        proof {
            assert(abs(gains.units() * one_unit()) <= safe_units() * abs(total.units()))
                by (nonlinear_arith)
                requires
                    0 <= gains.units() <= total.units(),
                    total.units() >= 1,
                    safe_units() == 7 * one_unit() * one_unit(),
                    one_unit() == 10000000000000000000000000000,
            ;
        }
        let q = dec_div(gains, total);
        q.bounds();
        proof {
            crate::decimal::lemma_dec_of(q.mantissa(), q.scale());
        }
        Some(money_out(q))
    } else {
        None
    }
}

} // verus!
