//! What the assembly of a projection decides from the profile before any simulation: the
//! retirement month the age dictates, the need behind the FIRE figure, the engine's withdrawal
//! rule, and the small delta and sign rules of the what-if.
use crate::calendar::{age_at, months_until_target_age};
use crate::date::{max_year, Date};
use crate::decimal::{
    abs, dec_le, dec_lt, dec_mul, dec_round_dp, dec_sub, decimal_difference, decimal_product,
    decimal_round_dp, one_unit, Dec,
};
use crate::profile::{
    needs_target_age, requires_target_age, resolve_withdrawal_rule, resolved_rule, FireNumberMode,
    RetirementProfile, RetirementStrategy, WithdrawalRule, WithdrawalRuleKind,
};
use crate::series::{push_warning, texts};
use vstd::prelude::*;
use vstd::string::StringExecFns;

verus! {

/// No birth date: no age can become a month, so there is no plan.
pub const WARN_BIRTH_DATE_MISSING: &'static str = "birth_date_missing";

/// An age-driven plan without a target age (only reachable with a profile written before
/// validation): it degrades to the threshold search.
pub const WARN_TARGET_AGE_MISSING: &'static str = "target_retirement_age_missing";

/// The retired `pension_bridge` literal arrived and was migrated.
pub const WARN_STRATEGY_PENSION_BRIDGE_MIGRATED: &'static str = "strategy_pension_bridge_migrated";

/// The dated pension starts inside the half-time phase and is not collected there.
pub const WARN_PENSION_UNPAID_DURING_PARTIAL: &'static str = "pension_unpaid_during_partial";

/// No liquid asset declares a volatility.
pub const WARN_NO_VOLATILITY_DECLARED: &'static str = "no_volatility_declared";

/// Why there is no plan: no birth date.
pub const PLAN_ABSENT_BIRTH_DATE_MISSING: &'static str = "birth_date_missing";

/// Why there is no plan: a custom horizon was asked.
pub const PLAN_ABSENT_MONTHS_OVERRIDE: &'static str = "months_override";

/// Why there is no plan: the household view does not solve members.
pub const PLAN_ABSENT_HOUSEHOLD_NOT_SOLVED: &'static str = "household_not_solved";

/// What the assembly knows of the retirement month before the draw.
#[derive(Clone, Copy, Debug, PartialEq, Eq)]
pub enum ForcedMonth {
    /// The 1-based loop month the age dictates.
    Known(u32),
    /// The success threshold decides the date.
    NeedsSolve,
    /// No plan, with its reason.
    Absent(&'static str),
}

/// The age arithmetic of the plan: no birth date, no plan (and a warning); an age-driven plan
/// with its age is `Known` at the loop month after the grid month the age is reached; an
/// age-driven plan without an age degrades to the threshold search (and a warning); anything
/// else is solved by the threshold.
pub fn resolve_forced_month(
    profile: &RetirementProfile,
    birth_date: Option<Date>,
    today: Date,
    warnings: &mut Vec<String>,
) -> (r: ForcedMonth)
    requires
        profile.target_retirement_age matches Some(a) ==> today.year() + a + 2 <= max_year(),
        profile.target_retirement_age matches Some(a) ==> (birth_date matches Some(b)
            ==> b.year() + a + 2 <= max_year()),
    ensures
        birth_date is None ==> r == ForcedMonth::Absent(PLAN_ABSENT_BIRTH_DATE_MISSING) && texts(
            final(warnings)@,
        ) == crate::series::merged(texts(old(warnings)@), seq![WARN_BIRTH_DATE_MISSING@]),
        birth_date is Some && !needs_target_age(profile.strategy, profile.coast_mode) ==> r
            == ForcedMonth::NeedsSolve && final(warnings)@ == old(warnings)@,
        birth_date is Some && needs_target_age(profile.strategy, profile.coast_mode)
            && profile.target_retirement_age is None ==> r == ForcedMonth::NeedsSolve && texts(
            final(warnings)@,
        ) == crate::series::merged(texts(old(warnings)@), seq![WARN_TARGET_AGE_MISSING@]),
        (birth_date matches Some(b) && needs_target_age(profile.strategy, profile.coast_mode)
            && profile.target_retirement_age matches Some(a)) ==> final(warnings)@ == old(
            warnings,
        )@ && (r matches ForcedMonth::Known(k) && k >= 1 && age_at(
            today,
            birth_date.unwrap(),
            k - 1,
        ) >= profile.target_retirement_age.unwrap() && (forall|m: int|
            0 <= m < k - 1 ==> #[trigger] age_at(today, birth_date.unwrap(), m)
                < profile.target_retirement_age.unwrap())),
{
    let b = match birth_date {
        None => {
            push_warning(warnings, WARN_BIRTH_DATE_MISSING);
            proof {
                reveal_with_fuel(crate::series::merged, 2);
            }
            return ForcedMonth::Absent(PLAN_ABSENT_BIRTH_DATE_MISSING);
        },
        Some(b) => b,
    };
    if !requires_target_age(profile.strategy, profile.coast_mode) {
        return ForcedMonth::NeedsSolve;
    }
    match profile.target_retirement_age {
        Some(age) => {
            let m = months_until_target_age(today, b, age);
            let k = if m < u32::MAX {
                m + 1
            } else {
                u32::MAX
            };
            ForcedMonth::Known(k)
        },
        None => {
            push_warning(warnings, WARN_TARGET_AGE_MISSING);
            proof {
                reveal_with_fuel(crate::series::merged, 2);
            }
            ForcedMonth::NeedsSolve
        },
    }
}

/// Why there is no FIRE figure.
pub const FIRE_ABSENT_MANUAL_AMOUNT_MISSING: &'static str = "manual_amount_missing";

pub const FIRE_ABSENT_NET_NEED_NOT_POSITIVE: &'static str = "net_need_not_positive";

pub const FIRE_ABSENT_SWR_NOT_POSITIVE: &'static str = "swr_not_positive";

/// The need behind the FIRE figure, as the engine evaluates it month by month.
#[derive(Clone, Copy, Debug, PartialEq, Eq)]
pub enum FireNeed {
    /// A yearly net amount in today's money, indexed whole.
    Indexed { annual_net_today: Dec },
    /// The monthly expense (indexed) minus the monthly pension (flat).
    ExpenseMinusPension { expense_monthly: Dec, pension_monthly: Dec },
}

/// `a - b` as `rust_decimal` computes it.
pub open spec fn difference(a: Dec, b: Dec) -> Dec {
    let p = decimal_difference(a.mantissa(), a.scale(), b.mantissa(), b.scale());
    Dec::of(p.0, p.1)
}

/// `a * b` as `rust_decimal` computes it.
pub open spec fn product(a: Dec, b: Dec) -> Dec {
    let p = decimal_product(a.mantissa(), a.scale(), b.mantissa(), b.scale());
    Dec::of(p.0, p.1)
}

/// The need by FIRE-number mode, or why there is none: a manual amount must be present and
/// positive; the expense or the income must exceed the retirement income; and the SWR must be
/// positive (checked last).
pub open spec fn fire_need_of(
    profile: RetirementProfile,
    income_monthly: Dec,
    income_retirement_monthly: Dec,
    expense_monthly: Dec,
) -> Result<FireNeed, &'static str> {
    let need: Result<FireNeed, &'static str> = match profile.fire_number_mode {
        FireNumberMode::Manual => match profile.fire_number_manual_amount {
            None => Err(FIRE_ABSENT_MANUAL_AMOUNT_MISSING),
            Some(amt) => if amt.units() <= 0 {
                Err(FIRE_ABSENT_MANUAL_AMOUNT_MISSING)
            } else {
                Ok(FireNeed::Indexed { annual_net_today: amt })
            },
        },
        FireNumberMode::AnnualExpense => if difference(
            expense_monthly,
            income_retirement_monthly,
        ).units() <= 0 {
            Err(FIRE_ABSENT_NET_NEED_NOT_POSITIVE)
        } else {
            Ok(
                FireNeed::ExpenseMinusPension {
                    expense_monthly,
                    pension_monthly: income_retirement_monthly,
                },
            )
        },
        FireNumberMode::CurrentIncome => {
            let net = difference(income_monthly, income_retirement_monthly);
            if net.units() <= 0 {
                Err(FIRE_ABSENT_NET_NEED_NOT_POSITIVE)
            } else {
                Ok(FireNeed::Indexed { annual_net_today: product(net, Dec::of(12, 0)) })
            }
        },
    };
    match need {
        Err(e) => Err(e),
        Ok(n) => if profile.swr_pct.units() <= 0 {
            Err(FIRE_ABSENT_SWR_NOT_POSITIVE)
        } else {
            Ok(n)
        },
    }
}

/// A bound on the monthly amounts the FIRE need is computed from (10^27 whole units).
pub open spec fn amount_bound() -> int {
    1_000_000_000_000_000_000_000_000_000 * one_unit()
}

/// The need of the FIRE figure by the profile's mode, or the reason there is none.
pub fn compute_fire_need(
    profile: &RetirementProfile,
    income_monthly: Dec,
    income_retirement_monthly: Dec,
    expense_monthly: Dec,
) -> (r: Result<FireNeed, &'static str>)
    requires
        abs(income_monthly.units()) <= amount_bound(),
        abs(income_retirement_monthly.units()) <= amount_bound(),
        abs(expense_monthly.units()) <= amount_bound(),
    ensures
        r == fire_need_of(*profile, income_monthly, income_retirement_monthly, expense_monthly),
        // No positive SWR, no FIRE figure.
        r is Ok ==> profile.swr_pct.units() > 0,
        // Manual: the positive amount given, indexed whole.
        profile.fire_number_mode == FireNumberMode::Manual ==> (r is Ok <==> (
        profile.fire_number_manual_amount matches Some(a) && a.units() > 0
            && profile.swr_pct.units() > 0)),
        profile.fire_number_mode == FireNumberMode::Manual && r is Ok ==> r == Ok::<
            FireNeed,
            &'static str,
        >(FireNeed::Indexed { annual_net_today: profile.fire_number_manual_amount.unwrap() }),
        // Annual expense: the expense net of the retirement income, when the expense exceeds it.
        profile.fire_number_mode == FireNumberMode::AnnualExpense && r is Ok ==> r == Ok::<
            FireNeed,
            &'static str,
        >(
            FireNeed::ExpenseMinusPension {
                expense_monthly,
                pension_monthly: income_retirement_monthly,
            },
        ),
        profile.fire_number_mode == FireNumberMode::AnnualExpense
            && crate::whatif::exact_at_money_scale(expense_monthly, income_retirement_monthly)
            ==> (r is Ok <==> (expense_monthly.units() > income_retirement_monthly.units()
            && profile.swr_pct.units() > 0)),
        // Current income: the income net of the retirement income, when the income exceeds it.
        profile.fire_number_mode == FireNumberMode::CurrentIncome
            && crate::whatif::exact_at_money_scale(income_monthly, income_retirement_monthly)
            ==> (r is Ok <==> (income_monthly.units() > income_retirement_monthly.units()
            && profile.swr_pct.units() > 0)),
        // ... and then twelve months of that net income, up to the rounding of the product.
        profile.fire_number_mode == FireNumberMode::CurrentIncome
            && crate::whatif::exact_at_money_scale(income_monthly, income_retirement_monthly)
            && r is Ok ==> (r.unwrap() matches FireNeed::Indexed { annual_net_today: x } && abs(
            x.units() - 12 * (income_monthly.units() - income_retirement_monthly.units()),
        ) <= one_unit()),
{
    let zero = Dec::zero();
    proof {
        crate::decimal::lemma_int_units(12);
        crate::decimal::lemma_dec_of(12, 0);
    }
    let need = match profile.fire_number_mode {
        FireNumberMode::Manual => {
            match profile.fire_number_manual_amount {
                None => {
                    return Err(FIRE_ABSENT_MANUAL_AMOUNT_MISSING);
                },
                Some(amt) => {
                    if dec_le(amt, zero) {
                        return Err(FIRE_ABSENT_MANUAL_AMOUNT_MISSING);
                    }
                    FireNeed::Indexed { annual_net_today: amt }
                },
            }
        },
        FireNumberMode::AnnualExpense => {
            let net = dec_sub(expense_monthly, income_retirement_monthly);
            net.bounds();
            proof {
                crate::decimal::lemma_dec_of(net.mantissa(), net.scale());
                if crate::whatif::exact_at_money_scale(expense_monthly, income_retirement_monthly) {
                    crate::decimal::lemma_small_scale_exact(
                        expense_monthly,
                        income_retirement_monthly,
                        expense_monthly.units() - income_retirement_monthly.units(),
                    );
                }
            }
            if dec_le(net, zero) {
                return Err(FIRE_ABSENT_NET_NEED_NOT_POSITIVE);
            }
            FireNeed::ExpenseMinusPension {
                expense_monthly,
                pension_monthly: income_retirement_monthly,
            }
        },
        FireNumberMode::CurrentIncome => {
            let net = dec_sub(income_monthly, income_retirement_monthly);
            net.bounds();
            proof {
                crate::decimal::lemma_dec_of(net.mantissa(), net.scale());
                if crate::whatif::exact_at_money_scale(income_monthly, income_retirement_monthly) {
                    crate::decimal::lemma_small_scale_exact(
                        income_monthly,
                        income_retirement_monthly,
                        income_monthly.units() - income_retirement_monthly.units(),
                    );
                }
            }
            if dec_le(net, zero) {
                return Err(FIRE_ABSENT_NET_NEED_NOT_POSITIVE);
            }
            let twelve = Dec::from_u32(12);
            proof {
                assert(abs(net.units()) <= 3 * amount_bound());
                assert(abs(net.units() * twelve.units()) <= crate::decimal::safe_units() * one_unit())
                    by (nonlinear_arith)
                    requires
                        abs(net.units()) <= 3 * amount_bound(),
                        twelve.units() == 12 * one_unit(),
                        amount_bound() == 1_000_000_000_000_000_000_000_000_000 * one_unit(),
                        crate::decimal::safe_units() == 7 * one_unit() * one_unit(),
                        one_unit() == 10000000000000000000000000000,
                ;
            }
            let annual = dec_mul(net, twelve);
            annual.bounds();
            proof {
                crate::decimal::lemma_dec_of(annual.mantissa(), annual.scale());
                assert(abs(annual.units() - 12 * net.units()) <= one_unit()) by (nonlinear_arith)
                    requires
                        abs(annual.units() * one_unit() - net.units() * twelve.units()) <= one_unit()
                            * one_unit(),
                        twelve.units() == 12 * one_unit(),
                        one_unit() == 10000000000000000000000000000,
                ;
            }
            FireNeed::Indexed { annual_net_today: annual }
        },
    };
    if dec_le(profile.swr_pct, zero) {
        return Err(FIRE_ABSENT_SWR_NOT_POSITIVE);
    }
    Ok(need)
}

/// The engine's withdrawal rule.
#[derive(Clone, Copy, Debug, PartialEq, Eq)]
pub enum EngineWithdrawalRule {
    FixedReal,
    PercentOfBalance { pct: Dec },
    Hybrid { start_pct: Dec, end_pct: Dec },
    Guardrails { pct: Dec, band_pct: Dec, adjust_pct: Dec },
}

pub open spec fn or_zero(v: Option<Dec>) -> Dec {
    match v {
        Some(x) => x,
        None => Dec::of(0, 0),
    }
}

/// The profile's rule, resolved against the SWR, in the engine's terms; a percentage still
/// missing becomes 0 (the engine then withdraws nothing, visibly).
pub open spec fn engine_rule_of(rule: WithdrawalRule, swr: Dec) -> EngineWithdrawalRule {
    let r = resolved_rule(rule, swr);
    match r.kind {
        WithdrawalRuleKind::FixedReal => EngineWithdrawalRule::FixedReal,
        WithdrawalRuleKind::PercentOfBalance => EngineWithdrawalRule::PercentOfBalance {
            pct: or_zero(r.pct),
        },
        WithdrawalRuleKind::Hybrid => EngineWithdrawalRule::Hybrid {
            start_pct: or_zero(r.start_pct),
            end_pct: or_zero(r.end_pct),
        },
        WithdrawalRuleKind::Guardrails => EngineWithdrawalRule::Guardrails {
            pct: or_zero(r.pct),
            band_pct: or_zero(r.band_pct),
            adjust_pct: or_zero(r.adjust_pct),
        },
    }
}

fn value_or_zero(v: Option<Dec>) -> (r: Dec)
    ensures
        r == or_zero(v),
{
    match v {
        Some(x) => x,
        None => Dec::zero(),
    }
}

/// The profile's withdrawal rule as the engine runs it, through the single resolver.
pub fn withdrawal_rule_to_engine(rule: &WithdrawalRule, swr_pct: Dec) -> (r: EngineWithdrawalRule)
    ensures
        r == engine_rule_of(*rule, swr_pct),
        // The kind is kept; the percentage a kind draws is the SWR unless the user wrote their
        // own; the other percentages pass as written (0 when missing).
        rule.kind == WithdrawalRuleKind::FixedReal ==> r == EngineWithdrawalRule::FixedReal,
        rule.kind == WithdrawalRuleKind::PercentOfBalance ==> r == (EngineWithdrawalRule::PercentOfBalance {
            pct: if rule.pct is None || rule.pct_source == Some(crate::profile::PctSource::Swr) {
                swr_pct
            } else {
                rule.pct.unwrap()
            },
        }),
        rule.kind == WithdrawalRuleKind::Hybrid ==> r == (EngineWithdrawalRule::Hybrid {
            start_pct: if rule.start_pct is None || rule.pct_source == Some(crate::profile::PctSource::Swr) {
                swr_pct
            } else {
                rule.start_pct.unwrap()
            },
            end_pct: or_zero(rule.end_pct),
        }),
        rule.kind == WithdrawalRuleKind::Guardrails ==> r == (EngineWithdrawalRule::Guardrails {
            pct: if rule.pct is None || rule.pct_source == Some(crate::profile::PctSource::Swr) {
                swr_pct
            } else {
                rule.pct.unwrap()
            },
            band_pct: or_zero(rule.band_pct),
            adjust_pct: or_zero(rule.adjust_pct),
        }),
{
    let rule = resolve_withdrawal_rule(rule, swr_pct);
    match rule.kind {
        WithdrawalRuleKind::FixedReal => EngineWithdrawalRule::FixedReal,
        WithdrawalRuleKind::PercentOfBalance => EngineWithdrawalRule::PercentOfBalance {
            pct: value_or_zero(rule.pct),
        },
        WithdrawalRuleKind::Hybrid => EngineWithdrawalRule::Hybrid {
            start_pct: value_or_zero(rule.start_pct),
            end_pct: value_or_zero(rule.end_pct),
        },
        WithdrawalRuleKind::Guardrails => EngineWithdrawalRule::Guardrails {
            pct: value_or_zero(rule.pct),
            band_pct: value_or_zero(rule.band_pct),
            adjust_pct: value_or_zero(rule.adjust_pct),
        },
    }
}

/// The public literal of a strategy.
pub fn strategy_label(s: RetirementStrategy) -> (r: String)
    ensures
        r@ == (match s {
            RetirementStrategy::Asap => "asap"@,
            RetirementStrategy::RetireAtAge => "retire_at_age"@,
            RetirementStrategy::Coast => "coast"@,
            RetirementStrategy::Partial => "partial"@,
        }),
{
    String::from_str(s.as_str())
}

/// An amount as the API publishes it: rounded to 4 decimal places.
pub open spec fn money_of(d: Dec) -> Dec {
    let p = decimal_round_dp(d.mantissa(), d.scale(), 4);
    Dec::of(p.0, p.1)
}

pub fn money_out(d: Dec) -> (r: Dec)
    ensures
        r == money_of(d),
        d.scale() <= 4 ==> r == d,
{
    let r = dec_round_dp(d, 4);
    r.bounds();
    proof {
        crate::decimal::lemma_dec_of(r.mantissa(), r.scale());
    }
    r
}

/// Both amounts present, of at most 4 places, and not too far apart for their difference to be
/// exact.
pub open spec fn exact_pair(baseline: Option<Dec>, scenario: Option<Dec>) -> bool {
    &&& baseline is Some
    &&& scenario is Some
    &&& baseline.unwrap().scale() <= 4
    &&& scenario.unwrap().scale() <= 4
    &&& abs(scenario.unwrap().units() - baseline.unwrap().units())
        <= 7_000_000_000_000_000_000_000_000 * crate::decimal::one_unit()
}

/// `scenario - baseline`, published as money; absent as soon as either side is.
pub fn pair_delta(baseline: Option<Dec>, scenario: Option<Dec>) -> (r: Option<Dec>)
    requires
        baseline is Some && scenario is Some ==> abs(
            scenario.unwrap().units() - baseline.unwrap().units(),
        ) <= crate::decimal::safe_units(),
    ensures
        r == (match (baseline, scenario) {
            (Some(b), Some(s)) => Some(money_of(difference(s, b))),
            _ => None,
        }),
        // Two amounts of at most 4 places, not too far apart: the delta is exactly
        // scenario minus baseline.
        exact_pair(baseline, scenario) ==> (r matches Some(d) && d.units()
            == scenario.unwrap().units() - baseline.unwrap().units()),
{
    match (baseline, scenario) {
        (Some(b), Some(s)) => {
            let d = dec_sub(s, b);
            d.bounds();
            proof {
                crate::decimal::lemma_dec_of(d.mantissa(), d.scale());
                if exact_pair(baseline, scenario) {
                    crate::decimal::lemma_small_scale_exact(s, b, s.units() - b.units());
                }
            }
            Some(money_out(d))
        },
        _ => None,
    }
}

/// A what-if amount that must not be negative, naming its field.
#[derive(Clone, Debug, PartialEq, Eq)]
pub struct AmountNegative {
    pub name: String,
}

impl AmountNegative {
    pub fn code(&self) -> (r: &'static str)
        ensures
            r@ == "amount_negative"@,
    {
        "amount_negative"
    }
}

/// An optional what-if amount: absent is 0, negative is refused.
pub fn require_non_negative(name: &str, v: Option<Dec>) -> (r: Result<Dec, AmountNegative>)
    ensures
        match v {
            None => r == Ok::<Dec, AmountNegative>(Dec::of(0, 0)),
            Some(x) => if x.units() < 0 {
                r matches Err(e) && e.name@ == name@
            } else {
                r == Ok::<Dec, AmountNegative>(x)
            },
        },
{
    proof {
        crate::decimal::lemma_int_units(0);
    }
    let v = match v {
        Some(x) => x,
        None => Dec::zero(),
    };
    if dec_lt(v, Dec::zero()) {
        return Err(AmountNegative { name: String::from_str(name) });
    }
    Ok(v)
}

} // verus!
