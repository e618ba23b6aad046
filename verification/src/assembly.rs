//! The assembly of one member's projection: how the retirement profile becomes a phase plan (the
//! forced month, the dated pension, the half-time phase, the coast stop, the spending the loop
//! drains and the initial-rate gate), the profile the threshold search sees, and the warnings
//! the assembly raises.
//!
//! The date itself is not decided here: an age-driven plan places its month because it is a
//! datum; every other plan starts with no retirement inside the horizon and the search places it.
use crate::calendar::{age_at, months_until_target_age};
use crate::date::{max_year, Date};
use crate::decimal::{abs, dec_div, dec_le, dec_max, one_unit, Dec};
use crate::plan::{
    engine_rule_of, resolve_forced_month, withdrawal_rule_to_engine, EngineWithdrawalRule,
    ForcedMonth, PLAN_ABSENT_BIRTH_DATE_MISSING, WARN_BIRTH_DATE_MISSING,
    WARN_STRATEGY_PENSION_BRIDGE_MIGRATED,
};
use crate::ledger::{ledger_bound, liability_is_active, liability_monthly_payment, monthly_equivalent};
use crate::planning::{quotient_of, sum_of};
use crate::text::str_eq;
use crate::whatif::{EarlyRepaymentEffect, LiabilityTerms, RepaymentModel};
use crate::plan::difference;
use crate::profile::{
    max_dec, needs_target_age, profile_in_range, CoastMode, FireNumberMode, PartialExpenseBasis,
    PartialStartMode, RetirementProfile, RetirementStrategy, SpendMode,
};
use crate::series::{merged, push_warning, texts};
use vstd::prelude::*;

verus! {

/// Why the pension did not enter the plan: without a birth date its starting age is no month.
pub const PENSION_ABSENT_BIRTH_DATE_MISSING: &'static str = "birth_date_missing";

/// The dated pension in the plan. `start_index` is 0-based (the grid of the target).
#[derive(Clone, Copy, Debug, PartialEq, Eq)]
pub struct PensionSchedule {
    pub start_index: u32,
    pub monthly_today: Dec,
    pub indexed: bool,
    pub fraction_while_partial: Dec,
}

/// The half-time phase in the plan. `start_month` is 1-based (the loop).
#[derive(Clone, Copy, Debug, PartialEq, Eq)]
pub struct PartialPhase {
    pub start_month: u32,
    pub income_monthly: Dec,
    pub expense_basis: PartialExpenseBasis,
}

/// The bridge's cap on the initial rate while the pension has not started.
#[derive(Clone, Copy, Debug, PartialEq, Eq)]
pub struct BridgeCap {
    pub max_pct: Dec,
    pub max_years: u32,
}

/// The initial withdrawal-rate gate: the SWR, or the bridge's rate when the pension is near.
#[derive(Clone, Copy, Debug, PartialEq, Eq)]
pub struct InitialRateGate {
    pub swr_pct: Dec,
    pub bridge: Option<BridgeCap>,
}

/// The phases of one member's plan as the engine runs them.
#[derive(Clone, Copy, Debug, PartialEq, Eq)]
pub struct PhasePlan {
    /// The 1-based loop month of retirement; one past the horizon means none inside it.
    pub retirement_month: u32,
    pub income_retirement_monthly: Dec,
    pub expense_retirement_monthly: Dec,
    pub withdrawal: EngineWithdrawalRule,
    pub spend_mode: SpendMode,
    pub partial: Option<PartialPhase>,
    pub pension: Option<PensionSchedule>,
    /// Coast with a fixed stop age: the 1-based month from which nothing is contributed.
    pub contributions_stop_month: Option<u32>,
    pub initial_rate: Option<InitialRateGate>,
}

/// The profile as the threshold search sees it; every month is 1-based (the loop).
#[derive(Clone, Copy, Debug, PartialEq, Eq)]
pub struct PlanSolveProfile {
    pub strategy: RetirementStrategy,
    pub threshold_pct: u32,
    pub target_month: Option<u32>,
    pub coast_mode: CoastMode,
    pub coast_stop_month: Option<u32>,
    pub partial_mode: PartialStartMode,
    /// The half-time start when it is a datum (at-age mode, inside the horizon).
    pub partial_start_month: Option<u32>,
    /// The pension's first loop month and the bridge's maximum years, when the bridge is on.
    pub bridge: Option<(u32, u32)>,
}

/// What the assembly decides from the profile.
#[derive(Clone, Debug)]
pub struct PlanAssembly {
    pub phase_plan: PhasePlan,
    pub solve_profile: PlanSolveProfile,
    pub warnings: Vec<String>,
    pub plan_absent_reason: Option<&'static str>,
    pub pension_absent_reason: Option<&'static str>,
}

/// The grid month at which `birth` reaches `age` (specified by its least-month property in
/// `months_until_target_age`; here named for the statements below).
pub open spec fn reaches(today: Date, birth: Date, age: int, m: int) -> bool {
    &&& 0 <= m
    &&& age_at(today, birth, m) >= age
    &&& forall|j: int| 0 <= j < m ==> #[trigger] age_at(today, birth, j) < age
}

/// The spending the loop drains once retired, by the FIRE-number mode: an explicit override
/// wins; `manual` is a twelfth of the manual amount when it is positive; `current_income` is
/// today's income (at least 0); `annual_expense` is the ledger's retirement spending.
pub open spec fn retirement_expense_of(
    profile: RetirementProfile,
    override_monthly: Option<Dec>,
    income_regular: Dec,
    ledger_retirement_expense: Dec,
) -> Dec {
    match override_monthly {
        Some(v) => v,
        None => match profile.fire_number_mode {
            FireNumberMode::Manual => match profile.fire_number_manual_amount {
                Some(a) => if a.units() > 0 {
                    quotient_of(a, Dec::of(12, 0))
                } else {
                    ledger_retirement_expense
                },
                None => ledger_retirement_expense,
            },
            FireNumberMode::CurrentIncome => max_dec(income_regular, Dec::of(0, 0)),
            FireNumberMode::AnnualExpense => ledger_retirement_expense,
        },
    }
}

/// The bound on the monthly amounts the assembly takes (10^20 whole units).
pub open spec fn assembly_bound() -> int {
    100_000_000_000_000_000_000 * one_unit()
}

/// The retirement spending the loop drains (see `retirement_expense_of`).
pub fn retirement_expense(
    profile: &RetirementProfile,
    override_monthly: Option<Dec>,
    income_regular: Dec,
    ledger_retirement_expense: Dec,
) -> (r: Dec)
    requires
        profile.fire_number_manual_amount matches Some(a) ==> abs(a.units()) <= assembly_bound(),
    ensures
        r == retirement_expense_of(*profile, override_monthly, income_regular, ledger_retirement_expense),
        // An explicit override wins whatever the mode.
        override_monthly matches Some(v) ==> r == v,
        // Without one: today's income (never below zero), or the ledger's retirement spending.
        override_monthly is None && profile.fire_number_mode == FireNumberMode::CurrentIncome
            ==> r.units() == (if income_regular.units() > 0 {
            income_regular.units()
        } else {
            0
        }),
        override_monthly is None && profile.fire_number_mode == FireNumberMode::AnnualExpense ==> r
            == ledger_retirement_expense,
        override_monthly is None && profile.fire_number_mode == FireNumberMode::Manual && !(
        profile.fire_number_manual_amount matches Some(a) && a.units() > 0) ==> r
            == ledger_retirement_expense,
        // A positive manual amount is yearly: a twelfth of it each month (up to the division's
        // rounding).
        override_monthly is None && profile.fire_number_mode == FireNumberMode::Manual
            && profile.fire_number_manual_amount is Some
            && profile.fire_number_manual_amount.unwrap().units() > 0 ==> abs(12 * r.units()
            - profile.fire_number_manual_amount.unwrap().units()) <= 12 * one_unit(),
{
    proof {
        crate::decimal::lemma_int_units(0);
        crate::decimal::lemma_int_units(12);
    }
    match override_monthly {
        Some(v) => v,
        None => match profile.fire_number_mode {
            FireNumberMode::Manual => match profile.fire_number_manual_amount {
                Some(a) => {
                    if !dec_le(a, Dec::zero()) {
                        let twelve = Dec::from_u32(12);
                        proof {
                            assert(abs(a.units() * one_unit()) <= crate::decimal::safe_units()
                                * abs(twelve.units())) by (nonlinear_arith)
                                requires
                                    abs(a.units()) <= assembly_bound(),
                                    twelve.units() == 12 * one_unit(),
                                    assembly_bound() == 100_000_000_000_000_000_000 * one_unit(),
                                    crate::decimal::safe_units() == 7 * one_unit() * one_unit(),
                                    one_unit() == 10000000000000000000000000000,
                            ;
                        }
                        let q = dec_div(a, twelve);
                        q.bounds();
                        proof {
                            crate::decimal::lemma_dec_of(q.mantissa(), q.scale());
                            assert(abs(12 * q.units() - a.units()) <= 12 * one_unit())
                                by (nonlinear_arith)
                                requires
                                    abs(q.units() * twelve.units() - a.units() * one_unit())
                                        <= one_unit() * abs(twelve.units()),
                                    twelve.units() == 12 * one_unit(),
                                    one_unit() == 10000000000000000000000000000,
                            ;
                        }
                        q
                    } else {
                        ledger_retirement_expense
                    }
                },
                None => ledger_retirement_expense,
            },
            FireNumberMode::CurrentIncome => dec_max(income_regular, Dec::zero()),
            FireNumberMode::AnnualExpense => ledger_retirement_expense,
        },
    }
}

/// The calendar room the age arithmetic of the plan needs.
pub open spec fn calendar_room(today: Date, birth_date: Option<Date>) -> bool {
    &&& today.year() + 110 <= max_year()
    &&& (birth_date matches Some(b) ==> b.year() + 110 <= max_year())
}

/// The warnings of the plan's assembly, in order (each once): the migrated strategy literal; a
/// missing birth date or a missing target age; a pension or a half-time phase that needs the
/// birth date.
pub open spec fn plan_warning_codes(profile: RetirementProfile, birth_date: Option<Date>) -> Seq<
    Seq<char>,
> {
    let migrated = if profile.migrated_from_pension_bridge {
        seq![WARN_STRATEGY_PENSION_BRIDGE_MIGRATED@]
    } else {
        Seq::empty()
    };
    let forced = if birth_date is None {
        seq![WARN_BIRTH_DATE_MISSING@]
    } else if needs_target_age(profile.strategy, profile.coast_mode)
        && profile.target_retirement_age is None {
        seq![crate::plan::WARN_TARGET_AGE_MISSING@]
    } else {
        Seq::empty()
    };
    let pension = if profile.pension is Some && birth_date is None {
        seq![WARN_BIRTH_DATE_MISSING@]
    } else {
        Seq::empty()
    };
    let partial = if profile.strategy == RetirementStrategy::Partial && profile.partial_retirement
        is Some && birth_date is None {
        seq![WARN_BIRTH_DATE_MISSING@]
    } else {
        Seq::empty()
    };
    migrated + forced + pension + partial
}


/// Adding codes in two batches is adding them in one.
pub proof fn lemma_merged_concat(acc: Seq<Seq<char>>, a: Seq<Seq<char>>, b: Seq<Seq<char>>)
    ensures
        merged(acc, a + b) == merged(merged(acc, a), b),
    decreases b.len(),
{
    if b.len() == 0 {
        assert(a + b =~= a);
    } else {
        lemma_merged_concat(acc, a, b.drop_last());
        assert((a + b).drop_last() =~= a + b.drop_last());
        assert((a + b).last() == b.last());
    }
}

proof fn lemma_merged_one(acc: Seq<Seq<char>>, w: Seq<char>)
    ensures
        merged(acc, seq![w]) == (if acc.contains(w) {
            acc
        } else {
            acc.push(w)
        }),
{
    assert(seq![w].drop_last() =~= Seq::<Seq<char>>::empty());
    assert(merged(acc, Seq::<Seq<char>>::empty()) == acc);
}

fn warn(warnings: &mut Vec<String>, w: &str, Ghost(before): Ghost<Seq<Seq<char>>>)
    requires
        texts(old(warnings)@) == merged(Seq::empty(), before),
    ensures
        texts(final(warnings)@) == merged(Seq::empty(), before + seq![w@]),
{
    push_warning(warnings, w);
    proof {
        lemma_merged_concat(Seq::empty(), before, seq![w@]);
        lemma_merged_one(texts(old(warnings)@), w@);
    }
}

/// The phase plan and the search profile of one member, from the resolved profile: the month the
/// age dictates (or none inside the horizon), the dated pension, the half-time phase (only under
/// the partial strategy), the coast stop, the retirement spending by the FIRE-number mode, the
/// engine's withdrawal rule, and the initial-rate gate (with the bridge when it is on and the
/// pension is in the plan). Without a birth date nothing age-dependent enters the plan, and it
/// says so.
pub fn assemble_phase_plan(
    profile: &RetirementProfile,
    birth_date: Option<Date>,
    today: Date,
    horizon_months: u32,
    override_monthly: Option<Dec>,
    income_regular: Dec,
    income_retirement: Dec,
    ledger_retirement_expense: Dec,
) -> (r: PlanAssembly)
    requires
        profile_in_range(*profile),
        calendar_room(today, birth_date),
        horizon_months <= crate::series::MAX_PROJECTION_MONTHS,
        profile.fire_number_manual_amount matches Some(a) ==> abs(a.units()) <= assembly_bound(),
    ensures
        texts(r.warnings@) == merged(Seq::empty(), plan_warning_codes(*profile, birth_date)),
        r.plan_absent_reason == (if birth_date is None {
            Some(PLAN_ABSENT_BIRTH_DATE_MISSING)
        } else {
            None::<&'static str>
        }),
        // The retirement month: the month after the one the age is reached, for an age-driven
        // plan with its age; one past the horizon otherwise.
        (birth_date is Some && needs_target_age(profile.strategy, profile.coast_mode)
            && profile.target_retirement_age is Some) ==> (r.phase_plan.retirement_month >= 1
            && reaches(
            today,
            birth_date.unwrap(),
            profile.target_retirement_age.unwrap() as int,
            r.phase_plan.retirement_month - 1,
        ) && r.solve_profile.target_month == Some(r.phase_plan.retirement_month)),
        !(birth_date is Some && needs_target_age(profile.strategy, profile.coast_mode)
            && profile.target_retirement_age is Some) ==> (r.phase_plan.retirement_month
            == horizon_months + 1 && r.solve_profile.target_month is None),
        // The dated pension.
        profile.pension is None ==> (r.phase_plan.pension is None && r.pension_absent_reason
            is None),
        (profile.pension is Some && birth_date is None) ==> (r.phase_plan.pension is None
            && r.pension_absent_reason == Some(PENSION_ABSENT_BIRTH_DATE_MISSING)),
        (profile.pension is Some && birth_date is Some) ==> (r.pension_absent_reason is None
            && r.phase_plan.pension is Some && reaches(
            today,
            birth_date.unwrap(),
            profile.pension.unwrap().starts_at_age as int,
            r.phase_plan.pension.unwrap().start_index as int,
        ) && r.phase_plan.pension.unwrap().monthly_today
            == profile.pension.unwrap().monthly_amount_today
            && r.phase_plan.pension.unwrap().indexed == profile.pension.unwrap().indexed
            && r.phase_plan.pension.unwrap().fraction_while_partial
            == profile.pension.unwrap().fraction_while_partial),
        // The half-time phase: only under the partial strategy, with a birth date.
        !(profile.strategy == RetirementStrategy::Partial && profile.partial_retirement is Some
            && birth_date is Some) ==> r.phase_plan.partial is None,
        (profile.strategy == RetirementStrategy::Partial && profile.partial_retirement is Some
            && birth_date is Some) ==> (r.phase_plan.partial is Some
            && r.phase_plan.partial.unwrap().income_monthly
            == profile.partial_retirement.unwrap().income_monthly_today
            && r.phase_plan.partial.unwrap().expense_basis
            == profile.partial_retirement.unwrap().expense_basis && (if profile.partial_retirement.unwrap().mode
            == PartialStartMode::AtAge && profile.partial_retirement.unwrap().starts_at_age is Some {
            r.phase_plan.partial.unwrap().start_month >= 1 && reaches(
                today,
                birth_date.unwrap(),
                profile.partial_retirement.unwrap().starts_at_age.unwrap() as int,
                r.phase_plan.partial.unwrap().start_month - 1,
            )
        } else {
            r.phase_plan.partial.unwrap().start_month == horizon_months + 1
        })),
        // The coast stop.
        (profile.strategy == RetirementStrategy::Coast && profile.coast_mode
            == CoastMode::FixedStopAge && profile.coast_stop_age is Some && birth_date is Some)
            ==> (r.phase_plan.contributions_stop_month is Some
            && r.phase_plan.contributions_stop_month.unwrap() >= 1 && reaches(
            today,
            birth_date.unwrap(),
            profile.coast_stop_age.unwrap() as int,
            r.phase_plan.contributions_stop_month.unwrap() - 1,
        )),
        !(profile.strategy == RetirementStrategy::Coast && profile.coast_mode
            == CoastMode::FixedStopAge && profile.coast_stop_age is Some && birth_date is Some)
            ==> r.phase_plan.contributions_stop_month is None,
        // Spending, incomes and the rule.
        r.phase_plan.expense_retirement_monthly == retirement_expense_of(
            *profile,
            override_monthly,
            income_regular,
            ledger_retirement_expense,
        ),
        r.phase_plan.income_retirement_monthly == income_retirement,
        r.phase_plan.withdrawal == engine_rule_of(profile.withdrawal_rule, profile.swr_pct),
        r.phase_plan.spend_mode == profile.withdrawal_rule.spend_mode,
        // The initial-rate gate.
        profile.swr_pct.units() <= 0 ==> r.phase_plan.initial_rate is None,
        profile.swr_pct.units() > 0 ==> (r.phase_plan.initial_rate is Some
            && r.phase_plan.initial_rate.unwrap().swr_pct == profile.swr_pct
            && r.phase_plan.initial_rate.unwrap().bridge == (match profile.pension {
            Some(p) => if p.bridge_enabled && r.phase_plan.pension is Some && p.bridge_max_pct is Some
                && p.bridge_max_years is Some {
                Some(BridgeCap { max_pct: p.bridge_max_pct.unwrap(), max_years: p.bridge_max_years.unwrap() })
            } else {
                None
            },
            None => None,
        })),
        // The profile of the search.
        r.solve_profile.strategy == profile.strategy,
        r.solve_profile.threshold_pct == profile.success_threshold_pct,
        r.solve_profile.coast_mode == profile.coast_mode,
        r.solve_profile.coast_stop_month == r.phase_plan.contributions_stop_month,
        r.solve_profile.partial_mode == (match profile.partial_retirement {
            Some(x) => x.mode,
            None => PartialStartMode::AtAge,
        }),
        r.solve_profile.partial_start_month == (match r.phase_plan.partial {
            Some(ph) => if !(profile.partial_retirement matches Some(x) && x.mode
                == PartialStartMode::AsSoonAsPossible) && ph.start_month <= horizon_months {
                Some(ph.start_month)
            } else {
                None
            },
            None => None,
        }),
        r.solve_profile.bridge == (match (r.phase_plan.pension, profile.pension) {
            (Some(ps), Some(p)) => if p.bridge_enabled && p.bridge_max_years is Some {
                Some(((ps.start_index + 1) as u32, p.bridge_max_years.unwrap()))
            } else {
                None
            },
            _ => None,
        }),
{
    let ghost codes = plan_warning_codes(*profile, birth_date);
    let mut warnings: Vec<String> = Vec::new();
    let ghost done: Seq<Seq<char>> = Seq::empty();
    assert(texts(warnings@) =~= merged(Seq::empty(), done));
    if profile.migrated_from_pension_bridge {
        warn(&mut warnings, WARN_STRATEGY_PENSION_BRIDGE_MIGRATED, Ghost(done));
        proof {
            done = done + seq![WARN_STRATEGY_PENSION_BRIDGE_MIGRATED@];
        }
    }
    let ghost before_forced = warnings@;
    let forced = resolve_forced_month(profile, birth_date, today, &mut warnings);
    proof {
        let f = if birth_date is None {
            seq![WARN_BIRTH_DATE_MISSING@]
        } else if needs_target_age(profile.strategy, profile.coast_mode)
            && profile.target_retirement_age is None {
            seq![crate::plan::WARN_TARGET_AGE_MISSING@]
        } else {
            Seq::empty()
        };
        lemma_merged_concat(Seq::empty(), done, f);
        assert(merged(texts(before_forced), Seq::<Seq<char>>::empty()) == texts(before_forced));
        done = done + f;
    }
    let mut pension_absent_reason: Option<&'static str> = None;
    let pension: Option<PensionSchedule> = match profile.pension {
        None => None,
        Some(p) => match birth_date {
            Some(b) => Some(
                PensionSchedule {
                    start_index: months_until_target_age(today, b, p.starts_at_age),
                    monthly_today: p.monthly_amount_today,
                    indexed: p.indexed,
                    fraction_while_partial: p.fraction_while_partial,
                },
            ),
            None => {
                warn(&mut warnings, WARN_BIRTH_DATE_MISSING, Ghost(done));
                proof {
                    done = done + seq![WARN_BIRTH_DATE_MISSING@];
                }
                pension_absent_reason = Some(PENSION_ABSENT_BIRTH_DATE_MISSING);
                None
            },
        },
    };
    let uses_partial = match profile.strategy {
        RetirementStrategy::Partial => true,
        _ => false,
    };
    let partial: Option<PartialPhase> = if uses_partial {
        match profile.partial_retirement {
            None => None,
            Some(x) => match birth_date {
                Some(b) => Some(
                    PartialPhase {
                        start_month: match (x.mode, x.starts_at_age) {
                            (PartialStartMode::AtAge, Some(age)) => months_until_target_age(
                                today,
                                b,
                                age,
                            ) + 1,
                            _ => horizon_months + 1,
                        },
                        income_monthly: x.income_monthly_today,
                        expense_basis: x.expense_basis,
                    },
                ),
                None => {
                    warn(&mut warnings, WARN_BIRTH_DATE_MISSING, Ghost(done));
                    proof {
                        done = done + seq![WARN_BIRTH_DATE_MISSING@];
                    }
                    None
                },
            },
        }
    } else {
        None
    };
    proof {
        assert(done =~= codes);
    }
    let coast_stop_month: Option<u32> = match (
        profile.strategy,
        profile.coast_mode,
        profile.coast_stop_age,
        birth_date,
    ) {
        (RetirementStrategy::Coast, CoastMode::FixedStopAge, Some(age), Some(b)) => Some(
            months_until_target_age(today, b, age) + 1,
        ),
        _ => None,
    };
    let expense_retirement = retirement_expense(
        profile,
        override_monthly,
        income_regular,
        ledger_retirement_expense,
    );
    let retirement_month = match forced {
        ForcedMonth::Known(k) => k,
        _ => horizon_months + 1,
    };
    proof {
        crate::decimal::lemma_int_units(0);
    }
    let initial_rate = if !dec_le(profile.swr_pct, Dec::zero()) {
        let bridge = match profile.pension {
            Some(p) => if p.bridge_enabled && pension.is_some() {
                match (p.bridge_max_pct, p.bridge_max_years) {
                    (Some(max_pct), Some(max_years)) => Some(BridgeCap { max_pct, max_years }),
                    _ => None,
                }
            } else {
                None
            },
            None => None,
        };
        Some(InitialRateGate { swr_pct: profile.swr_pct, bridge })
    } else {
        None
    };
    let phase_plan = PhasePlan {
        retirement_month,
        income_retirement_monthly: income_retirement,
        expense_retirement_monthly: expense_retirement,
        withdrawal: withdrawal_rule_to_engine(&profile.withdrawal_rule, profile.swr_pct),
        spend_mode: profile.withdrawal_rule.spend_mode,
        partial,
        pension,
        contributions_stop_month: coast_stop_month,
        initial_rate,
    };
    let asap_partial = match profile.partial_retirement {
        Some(x) => match x.mode {
            PartialStartMode::AsSoonAsPossible => true,
            PartialStartMode::AtAge => false,
        },
        None => false,
    };
    let partial_start_month = match partial {
        Some(ph) => if !asap_partial && ph.start_month <= horizon_months {
            Some(ph.start_month)
        } else {
            None
        },
        None => None,
    };
    let bridge = match (pension, profile.pension) {
        (Some(ps), Some(p)) => if p.bridge_enabled {
            match p.bridge_max_years {
                Some(y) => Some((ps.start_index + 1, y)),
                None => None,
            }
        } else {
            None
        },
        _ => None,
    };
    let solve_profile = PlanSolveProfile {
        strategy: profile.strategy,
        threshold_pct: profile.success_threshold_pct,
        target_month: match forced {
            ForcedMonth::Known(k) => Some(k),
            _ => None,
        },
        coast_mode: profile.coast_mode,
        coast_stop_month,
        partial_mode: match profile.partial_retirement {
            Some(x) => x.mode,
            None => PartialStartMode::AtAge,
        },
        partial_start_month,
        bridge,
    };
    PlanAssembly {
        phase_plan,
        solve_profile,
        warnings,
        plan_absent_reason: match forced {
            ForcedMonth::Absent(reason) => Some(reason),
            _ => None,
        },
        pension_absent_reason,
    }
}


// ---------------------------------------------------------------------------------------------
// The spending bases, the debt service and the monthly cash of the upcoming flows
// ---------------------------------------------------------------------------------------------

/// The regular and retirement spending after the what-if's pre-target overrides: the extra
/// expense is added to both (the explicit retirement spending, when given, replaces the second);
/// a cut that goes past zero stops at zero (the explicit retirement spending is never clamped).
pub open spec fn expense_bases_of(
    expense: Dec,
    expense_retirement: Dec,
    extra: Dec,
    retirement_override: Option<Dec>,
) -> (Dec, Dec) {
    let e = sum_of(expense, extra);
    let re = match retirement_override {
        Some(v) => v,
        None => sum_of(expense_retirement, extra),
    };
    if extra.units() < 0 {
        (
            max_dec(e, Dec::of(0, 0)),
            if retirement_override is None {
                max_dec(re, Dec::of(0, 0))
            } else {
                re
            },
        )
    } else {
        (e, re)
    }
}

fn plus(a: Dec, b: Dec) -> (r: Dec)
    requires
        abs(a.units() + b.units()) <= crate::decimal::safe_units(),
    ensures
        r == sum_of(a, b),
        abs(r.units() - (a.units() + b.units())) <= one_unit(),
        a.scale() <= 4 && b.scale() <= 4 && abs(a.units() + b.units()) <= 7_000_000_000_000_000_000_000_000
            * one_unit() ==> r.units() == a.units() + b.units(),
{
    let s = crate::decimal::dec_add(a, b);
    s.bounds();
    proof {
        crate::decimal::lemma_dec_of(s.mantissa(), s.scale());
        if a.scale() <= 4 && b.scale() <= 4 && abs(a.units() + b.units())
            <= 7_000_000_000_000_000_000_000_000 * one_unit() {
            crate::decimal::lemma_small_scale_exact(a, b, a.units() + b.units());
        }
    }
    s
}

/// The spending bases after the what-if's pre-target overrides (see `expense_bases_of`).
pub fn expense_bases(
    expense: Dec,
    expense_retirement: Dec,
    extra: Dec,
    retirement_override: Option<Dec>,
) -> (r: (Dec, Dec))
    requires
        abs(expense.units()) <= assembly_bound(),
        abs(expense_retirement.units()) <= assembly_bound(),
        abs(extra.units()) <= assembly_bound(),
    ensures
        r == expense_bases_of(expense, expense_retirement, extra, retirement_override),
        // At money scale: the extra is added to the spending, a cut past zero stops at zero.
        expense.scale() <= 4 && extra.scale() <= 4 ==> r.0.units() == (if extra.units() < 0
            && expense.units() + extra.units() < 0 {
            0
        } else {
            expense.units() + extra.units()
        }),
        // The explicit retirement spending replaces the retirement base as it is.
        retirement_override matches Some(v) ==> r.1 == v,
        retirement_override is None && expense_retirement.scale() <= 4 && extra.scale() <= 4
            ==> r.1.units() == (if extra.units() < 0 && expense_retirement.units() + extra.units()
            < 0 {
            0
        } else {
            expense_retirement.units() + extra.units()
        }),
{
    proof {
        crate::decimal::lemma_int_units(0);
    }
    let zero = Dec::zero();
    let mut e = plus(expense, extra);
    let mut re = match retirement_override {
        Some(v) => v,
        None => plus(expense_retirement, extra),
    };
    if crate::decimal::dec_lt(extra, zero) {
        e = dec_max(e, zero);
        if retirement_override.is_none() {
            re = dec_max(re, zero);
        }
    }
    (e, re)
}

/// A liability as read from the store.
#[derive(Clone, Debug)]
pub struct LiabilityRow {
    pub id: u128,
    pub principal: Dec,
    pub payment_amount: Option<Dec>,
    pub payment_frequency: Option<String>,
    pub payment_end_date: Option<Date>,
    pub apr_percent: Option<Dec>,
    pub repayment_model: String,
    pub min_payment_pct: Option<Dec>,
    pub min_payment_eur: Option<Dec>,
}

/// The monthly payment of a row (none without an amount).
pub open spec fn row_payment(l: LiabilityRow) -> Dec {
    match l.payment_amount {
        Some(a) => monthly_equivalent(
            a,
            match l.payment_frequency {
                Some(f) => Some(f@),
                None => None,
            },
        ),
        None => Dec::of(0, 0),
    }
}

/// The row's plan is still paying today.
pub open spec fn row_active(l: LiabilityRow, today: Date) -> bool {
    match l.payment_end_date {
        Some(d) => today.le(d),
        None => true,
    }
}

/// The monthly debt service: the positive payments of the active liabilities, summed in order.
pub open spec fn debt_service_after(liabs: Seq<LiabilityRow>, today: Date) -> Dec
    decreases liabs.len(),
{
    if liabs.len() == 0 {
        Dec::of(0, 0)
    } else {
        let prev = debt_service_after(liabs.drop_last(), today);
        let l = liabs.last();
        if row_active(l, today) && row_payment(l).units() > 0 {
            sum_of(prev, row_payment(l))
        } else {
            prev
        }
    }
}

/// The rows within the bounds the sums take.
pub open spec fn rows_ok(liabs: Seq<LiabilityRow>) -> bool {
    &&& liabs.len() <= 1_000_000
    &&& forall|i: int|
        0 <= i < liabs.len() ==> ((#[trigger] liabs[i]).payment_amount matches Some(a) ==> abs(
            a.units(),
        ) <= ledger_bound())
}

fn row_frequency(l: &LiabilityRow) -> (r: Option<&str>)
    ensures
        match r {
            Some(f) => l.payment_frequency matches Some(s) && f@ == s@,
            None => l.payment_frequency is None,
        },
{
    match &l.payment_frequency {
        Some(s) => Some(s.as_str()),
        None => None,
    }
}

/// The monthly debt service of the active liabilities (their positive payments).
pub fn active_debt_service(liabs: &Vec<LiabilityRow>, today: Date) -> (r: Dec)
    requires
        rows_ok(liabs@),
    ensures
        r == debt_service_after(liabs@, today),
        abs(r.units()) <= liabs@.len() * (5 * ledger_bound() + one_unit()),
{
    let mut total = Dec::zero();
    proof {
        crate::decimal::lemma_int_units(0);
    }
    let mut i: usize = 0;
    while i < liabs.len()
        invariant
            0 <= i <= liabs@.len(),
            rows_ok(liabs@),
            total == debt_service_after(liabs@.take(i as int), today),
            abs(total.units()) <= i * (5 * ledger_bound() + one_unit()),
        decreases liabs@.len() - i,
    {
        assert(liabs@.take(i + 1).drop_last() =~= liabs@.take(i as int));
        let l = &liabs[i];
        let p = liability_monthly_payment(l.payment_amount, row_frequency(l));
        if liability_is_active(l.payment_end_date, today) && !dec_le(p, Dec::zero()) {
            proof {
                assert(i * (5 * ledger_bound() + one_unit()) <= 1_000_000 * (5 * ledger_bound()
                    + one_unit())) by (nonlinear_arith)
                    requires
                        i <= 1_000_000,
                        ledger_bound() > 0,
                        one_unit() > 0,
                ;
            }
            total = plus(total, p);
        }
        proof {
            assert((i + 1) * (5 * ledger_bound() + one_unit()) == i * (5 * ledger_bound()
                + one_unit()) + (5 * ledger_bound() + one_unit())) by (nonlinear_arith);
        }
        i = i + 1;
    }
    assert(liabs@.take(liabs@.len() as int) =~= liabs@);
    total
}

/// In real-expense mode the instalments already live inside the average: they come out of it
/// (never below zero), and the engine charges them with their own plans.
pub fn real_mode_expense(expense: Dec, quotas: Dec) -> (r: Dec)
    requires
        abs(expense.units()) <= assembly_bound(),
        abs(quotas.units()) <= assembly_bound(),
    ensures
        r == max_dec(difference(expense, quotas), Dec::of(0, 0)),
        // At money scale: the spending net of the instalments, never below zero.
        expense.scale() <= 4 && quotas.scale() <= 4 ==> r.units() == (if expense.units()
            > quotas.units() {
            expense.units() - quotas.units()
        } else {
            0
        }),
{
    proof {
        crate::decimal::lemma_int_units(0);
        if expense.scale() <= 4 && quotas.scale() <= 4 {
            crate::decimal::lemma_small_scale_exact(expense, quotas, expense.units() - quotas.units());
        }
    }
    let d = crate::decimal::dec_sub(expense, quotas);
    d.bounds();
    proof {
        crate::decimal::lemma_dec_of(d.mantissa(), d.scale());
    }
    dec_max(d, Dec::zero())
}

/// The spending the FIRE figure is sized on: the explicit retirement spending when given; the
/// effective spending in real-expense mode; the retirement spending otherwise.
pub fn fire_expense_base(
    retirement_override: Option<Dec>,
    expense_from_avg: bool,
    expense: Dec,
    expense_retirement: Dec,
) -> (r: Dec)
    ensures
        r == (match retirement_override {
            Some(v) => v,
            None => if expense_from_avg {
                expense
            } else {
                expense_retirement
            },
        }),
{
    match retirement_override {
        Some(v) => v,
        None => if expense_from_avg {
            expense
        } else {
            expense_retirement
        },
    }
}

/// The monthly cash adjustments of the engine: the upcoming flows plus the ending budget
/// expenses, month by month (the latter are none in real-expense mode).
pub fn combined_cash_adjustments(flow_adj: &Vec<Dec>, end_adj: &Vec<Dec>, expense_from_avg: bool) -> (r: Vec<Dec>)
    requires
        forall|i: int| 0 <= i < flow_adj@.len() ==> abs((#[trigger] flow_adj@[i]).units()) <= crate::whatif::cash_slot_bound(),
        forall|i: int| 0 <= i < end_adj@.len() ==> abs((#[trigger] end_adj@[i]).units()) <= crate::whatif::cash_slot_bound(),
    ensures
        !expense_from_avg ==> r@.len() == (if flow_adj@.len() < end_adj@.len() {
            flow_adj@.len()
        } else {
            end_adj@.len()
        }),
        expense_from_avg ==> r@.len() == flow_adj@.len(),
        forall|i: int|
            0 <= i < r@.len() ==> #[trigger] r@[i] == sum_of(
                flow_adj@[i],
                if expense_from_avg {
                    Dec::of(0, 0)
                } else {
                    end_adj@[i]
                },
            ),
{
    proof {
        crate::decimal::lemma_int_units(0);
    }
    let zero = Dec::zero();
    let n = if expense_from_avg || flow_adj.len() < end_adj.len() {
        flow_adj.len()
    } else {
        end_adj.len()
    };
    let mut out: Vec<Dec> = Vec::new();
    let mut i: usize = 0;
    while i < n
        invariant
            0 <= i <= n,
            n <= flow_adj@.len(),
            !expense_from_avg ==> n <= end_adj@.len(),
            zero == Dec::of(0, 0),
            zero.units() == 0,
            out@.len() == i,
            forall|j: int| 0 <= j < flow_adj@.len() ==> abs((#[trigger] flow_adj@[j]).units()) <= crate::whatif::cash_slot_bound(),
            forall|j: int| 0 <= j < end_adj@.len() ==> abs((#[trigger] end_adj@[j]).units()) <= crate::whatif::cash_slot_bound(),
            forall|j: int|
                0 <= j < i ==> #[trigger] out@[j] == sum_of(
                    flow_adj@[j],
                    if expense_from_avg {
                        Dec::of(0, 0)
                    } else {
                        end_adj@[j]
                    },
                ),
        decreases n - i,
    {
        let e = if expense_from_avg {
            zero
        } else {
            end_adj[i]
        };
        let v = plus(flow_adj[i], e);
        out.push(v);
        i = i + 1;
    }
    out
}

// ---------------------------------------------------------------------------------------------
// Allocation rules, liabilities and assets as the engine takes them
// ---------------------------------------------------------------------------------------------

/// How a rule allocates the month's surplus.
#[derive(Clone, Copy, Debug, PartialEq, Eq, Structural)]
pub enum AllocationKind {
    Fixed,
    Percent,
    Remainder,
}

/// The ceiling of a rule (never negative).
#[derive(Clone, Copy, Debug)]
pub enum AllocationCap {
    Amount(Dec),
    MonthsExpense(Dec),
    IncomeMultiple(Dec),
}

/// An enabled allocation rule as read from the store, in priority order.
#[derive(Clone, Debug)]
pub struct AllocationRuleRow {
    pub id: u128,
    pub target_asset_id: u128,
    pub kind: String,
    pub amount: Option<Dec>,
    pub cap_kind: Option<String>,
    pub cap_value: Option<Dec>,
}

/// A rule as the engine runs it: the position of its target among the assets.
#[derive(Clone, Copy, Debug)]
pub struct AllocationRule {
    pub target_index: usize,
    pub kind: AllocationKind,
    pub amount: Option<Dec>,
    pub cap: Option<AllocationCap>,
}

/// The kind a literal names.
pub open spec fn allocation_kind_of(s: Seq<char>) -> Option<AllocationKind> {
    if s == "fixed"@ {
        Some(AllocationKind::Fixed)
    } else if s == "percent"@ {
        Some(AllocationKind::Percent)
    } else if s == "remainder"@ {
        Some(AllocationKind::Remainder)
    } else {
        None
    }
}

/// The cap a kind and a value name (a negative value counts as zero); none otherwise.
pub open spec fn allocation_cap_of(kind: Option<Seq<char>>, value: Option<Dec>) -> Option<AllocationCap> {
    match (kind, value) {
        (Some(k), Some(v)) => if k == "amount"@ {
            Some(AllocationCap::Amount(max_dec(v, Dec::of(0, 0))))
        } else if k == "months_expense"@ {
            Some(AllocationCap::MonthsExpense(max_dec(v, Dec::of(0, 0))))
        } else if k == "income_multiple"@ {
            Some(AllocationCap::IncomeMultiple(max_dec(v, Dec::of(0, 0))))
        } else {
            None
        },
        _ => None,
    }
}

/// The last position whose id is `id` among the first `n` (the index a map built in order keeps).
pub open spec fn last_position(ids: Seq<u128>, id: u128, n: int) -> Option<int>
    decreases n,
{
    if n <= 0 {
        None
    } else if ids[n - 1] == id {
        Some(n - 1)
    } else {
        last_position(ids, id, n - 1)
    }
}

/// The rule a row becomes, when its target is among the assets and its kind is known.
pub open spec fn rule_of_row(r: AllocationRuleRow, asset_ids: Seq<u128>) -> Option<(int, AllocationKind, Option<Dec>, Option<AllocationCap>)> {
    match last_position(asset_ids, r.target_asset_id, asset_ids.len() as int) {
        None => None,
        Some(idx) => match allocation_kind_of(r.kind@) {
            None => None,
            Some(kind) => Some(
                (
                    idx,
                    kind,
                    r.amount,
                    allocation_cap_of(
                        match r.cap_kind {
                            Some(k) => Some(k@),
                            None => None,
                        },
                        r.cap_value,
                    ),
                ),
            ),
        },
    }
}

/// The rows that become rules, in order.
pub open spec fn kept_rules(rows: Seq<AllocationRuleRow>, asset_ids: Seq<u128>) -> Seq<AllocationRuleRow>
    decreases rows.len(),
{
    if rows.len() == 0 {
        Seq::empty()
    } else {
        let prev = kept_rules(rows.drop_last(), asset_ids);
        if rule_of_row(rows.last(), asset_ids) is Some {
            prev.push(rows.last())
        } else {
            prev
        }
    }
}

/// Does the rule say what the row says?
pub open spec fn rule_matches(rule: AllocationRule, row: AllocationRuleRow, asset_ids: Seq<u128>) -> bool {
    rule_of_row(row, asset_ids) matches Some((idx, kind, amount, cap)) && rule.target_index == idx
        && rule.kind == kind && rule.amount == amount && match (rule.cap, cap) {
        (None, None) => true,
        (Some(AllocationCap::Amount(x)), Some(AllocationCap::Amount(y))) => x == y,
        (Some(AllocationCap::MonthsExpense(x)), Some(AllocationCap::MonthsExpense(y))) => x == y,
        (Some(AllocationCap::IncomeMultiple(x)), Some(AllocationCap::IncomeMultiple(y))) => x == y,
        _ => false,
    }
}

fn last_position_of(ids: &Vec<u128>, id: u128) -> (r: Option<usize>)
    ensures
        r matches Some(i) ==> last_position(ids@, id, ids@.len() as int) == Some(i as int) && i
            < ids@.len(),
        r is None ==> last_position(ids@, id, ids@.len() as int) is None,
{
    let mut n: usize = ids.len();
    while n > 0
        invariant
            0 <= n <= ids@.len(),
            last_position(ids@, id, ids@.len() as int) == last_position(ids@, id, n as int),
        decreases n,
    {
        if ids[n - 1] == id {
            assert(last_position(ids@, id, n as int) == Some(n - 1));
            return Some(n - 1);
        }
        n = n - 1;
    }
    None
}

fn kind_of(s: &str) -> (r: Option<AllocationKind>)
    ensures
        r == allocation_kind_of(s@),
{
    if str_eq(s, "fixed") {
        Some(AllocationKind::Fixed)
    } else if str_eq(s, "percent") {
        Some(AllocationKind::Percent)
    } else if str_eq(s, "remainder") {
        Some(AllocationKind::Remainder)
    } else {
        None
    }
}

fn cap_of(kind: &Option<String>, value: Option<Dec>) -> (r: Option<AllocationCap>)
    ensures
        match (r, allocation_cap_of(
            match kind {
                Some(k) => Some(k@),
                None => None,
            },
            value,
        )) {
            (None, None) => true,
            (Some(AllocationCap::Amount(x)), Some(AllocationCap::Amount(y))) => x == y,
            (Some(AllocationCap::MonthsExpense(x)), Some(AllocationCap::MonthsExpense(y))) => x == y,
            (Some(AllocationCap::IncomeMultiple(x)), Some(AllocationCap::IncomeMultiple(y))) => x == y,
            _ => false,
        },
{
    proof {
        crate::decimal::lemma_int_units(0);
    }
    match (kind, value) {
        (Some(k), Some(v)) => {
            let floor = dec_max(v, Dec::zero());
            if str_eq(k.as_str(), "amount") {
                Some(AllocationCap::Amount(floor))
            } else if str_eq(k.as_str(), "months_expense") {
                Some(AllocationCap::MonthsExpense(floor))
            } else if str_eq(k.as_str(), "income_multiple") {
                Some(AllocationCap::IncomeMultiple(floor))
            } else {
                None
            }
        },
        _ => None,
    }
}

/// The enabled rules as the engine takes them, with the ids of the rules kept (parallel): a rule
/// whose target is not among the assets, or whose kind is unknown, is left out.
#[verifier::spinoff_prover]
pub fn allocation_rules_of(rows: &Vec<AllocationRuleRow>, asset_ids: &Vec<u128>) -> (r: (
    Vec<AllocationRule>,
    Vec<u128>,
))
    ensures
        r.0@.len() == kept_rules(rows@, asset_ids@).len(),
        r.1@.len() == r.0@.len(),
        forall|i: int|
            0 <= i < r.0@.len() ==> rule_matches(
                #[trigger] r.0@[i],
                kept_rules(rows@, asset_ids@)[i],
                asset_ids@,
            ) && r.1@[i] == kept_rules(rows@, asset_ids@)[i].id,
{
    let mut rules: Vec<AllocationRule> = Vec::new();
    let mut ids: Vec<u128> = Vec::new();
    let mut n: usize = 0;
    while n < rows.len()
        invariant
            0 <= n <= rows@.len(),
            rules@.len() == kept_rules(rows@.take(n as int), asset_ids@).len(),
            ids@.len() == rules@.len(),
            forall|i: int|
                0 <= i < rules@.len() ==> rule_matches(
                    #[trigger] rules@[i],
                    kept_rules(rows@.take(n as int), asset_ids@)[i],
                    asset_ids@,
                ) && ids@[i] == kept_rules(rows@.take(n as int), asset_ids@)[i].id,
        decreases rows@.len() - n,
    {
        assert(rows@.take(n + 1).drop_last() =~= rows@.take(n as int));
        let row = &rows[n];
        assert(rows@.take(n + 1).last() == *row);
        let target = last_position_of(asset_ids, row.target_asset_id);
        let kind = kind_of(row.kind.as_str());
        match (target, kind) {
            (Some(idx), Some(kind)) => {
                let cap = cap_of(&row.cap_kind, row.cap_value);
                let rule = AllocationRule { target_index: idx, kind, amount: row.amount, cap };
                assert(rule_of_row(*row, asset_ids@) is Some);
                assert(kept_rules(rows@.take(n + 1), asset_ids@) == kept_rules(
                    rows@.take(n as int),
                    asset_ids@,
                ).push(*row));
                assert(rule_matches(rule, *row, asset_ids@));
                let ghost old_rules = rules@;
                let ghost old_ids = ids@;
                rules.push(rule);
                ids.push(row.id);
                proof {
                    let k_old = kept_rules(rows@.take(n as int), asset_ids@);
                    let k_new = kept_rules(rows@.take(n + 1), asset_ids@);
                    assert forall|i: int| 0 <= i < rules@.len() implies rule_matches(
                        #[trigger] rules@[i],
                        k_new[i],
                        asset_ids@,
                    ) && ids@[i] == k_new[i].id by {
                        if i < old_rules.len() {
                            assert(rules@[i] == old_rules[i]);
                            assert(ids@[i] == old_ids[i]);
                            assert(k_new[i] == k_old[i]);
                        }
                    }
                }
            },
            _ => {
                assert(rule_of_row(*row, asset_ids@) is None);
                assert(kept_rules(rows@.take(n + 1), asset_ids@) == kept_rules(
                    rows@.take(n as int),
                    asset_ids@,
                ));
            },
        }
        assert(rules@.len() == kept_rules(rows@.take(n + 1), asset_ids@).len());
        assert(forall|i: int|
            0 <= i < rules@.len() ==> rule_matches(
                #[trigger] rules@[i],
                kept_rules(rows@.take(n + 1), asset_ids@)[i],
                asset_ids@,
            ) && ids@[i] == kept_rules(rows@.take(n + 1), asset_ids@)[i].id);
        n = n + 1;
    }
    assert(rows@.take(rows@.len() as int) =~= rows@);
    (rules, ids)
}

/// The model a stored literal names; an unknown literal (never written by the API) reads as
/// fixed payments, so that a corrupt row degrades instead of failing the whole reading.
pub open spec fn repayment_model_of(s: Seq<char>) -> RepaymentModel {
    if s == "french"@ {
        RepaymentModel::French
    } else if s == "interest_only"@ {
        RepaymentModel::InterestOnly
    } else if s == "revolving"@ {
        RepaymentModel::Revolving
    } else {
        RepaymentModel::FixedPayments
    }
}

pub fn parse_repayment_model(s: &str) -> (r: RepaymentModel)
    ensures
        r == repayment_model_of(s@),
{
    if str_eq(s, "french") {
        RepaymentModel::French
    } else if str_eq(s, "interest_only") {
        RepaymentModel::InterestOnly
    } else if str_eq(s, "revolving") {
        RepaymentModel::Revolving
    } else {
        RepaymentModel::FixedPayments
    }
}

/// A liability as the engine takes it: its principal (never negative), its payment end, and its
/// terms with no what-if amortization.
#[derive(Clone, Copy, Debug)]
pub struct EngineLiability {
    pub principal: Dec,
    pub payment_end: Option<Date>,
    pub terms: LiabilityTerms,
}

pub fn engine_liability_of(row: &LiabilityRow) -> (r: EngineLiability)
    requires
        row.payment_amount matches Some(a) ==> abs(a.units()) <= ledger_bound(),
    ensures
        r.principal == max_dec(row.principal, Dec::of(0, 0)),
        r.payment_end == row.payment_end_date,
        r.terms == (LiabilityTerms {
            repayment_model: repayment_model_of(row.repayment_model@),
            apr_percent: row.apr_percent,
            monthly_payment: row_payment(*row),
            min_payment_pct: row.min_payment_pct,
            min_payment_eur: row.min_payment_eur,
            early_repayment_fee_pct: None,
            early_repayment_effect: EarlyRepaymentEffect::ReduceTerm,
            extra_principal_monthly: Dec::of(0, 0),
        }),
{
    proof {
        crate::decimal::lemma_int_units(0);
    }
    EngineLiability {
        principal: dec_max(row.principal, Dec::zero()),
        payment_end: row.payment_end_date,
        terms: LiabilityTerms {
            repayment_model: parse_repayment_model(row.repayment_model.as_str()),
            apr_percent: row.apr_percent,
            monthly_payment: liability_monthly_payment(row.payment_amount, row_frequency(row)),
            min_payment_pct: row.min_payment_pct,
            min_payment_eur: row.min_payment_eur,
            early_repayment_fee_pct: None,
            early_repayment_effect: EarlyRepaymentEffect::ReduceTerm,
            extra_principal_monthly: Dec::zero(),
        },
    }
}

/// An asset as read from the store (in display order).
#[derive(Clone, Copy, Debug)]
pub struct AssetRow {
    pub id: u128,
    pub value: Dec,
    pub purchase_price: Option<Dec>,
    pub is_liquid: bool,
    pub expected_annual_return_percent: Option<Dec>,
    pub annual_volatility_percent: Option<Dec>,
}

/// Some liquid asset has value and none of the liquid assets declares a volatility: the draw
/// degenerates and the success can only be 0 or 1.
pub open spec fn volatility_missing(assets: Seq<AssetRow>) -> bool {
    &&& exists|i: int| 0 <= i < assets.len() && #[trigger] assets[i].is_liquid && assets[i].value.units() > 0
    &&& !exists|i: int|
        0 <= i < assets.len() && #[trigger] assets[i].is_liquid
            && (assets[i].annual_volatility_percent matches Some(v) && v.units() > 0)
}

/// Does the plan need the `no_volatility_declared` warning?
pub fn needs_volatility_warning(assets: &Vec<AssetRow>) -> (r: bool)
    ensures
        r == volatility_missing(assets@),
{
    proof {
        crate::decimal::lemma_int_units(0);
    }
    let mut has_liquid_value = false;
    let mut any_volatility = false;
    let mut i: usize = 0;
    while i < assets.len()
        invariant
            0 <= i <= assets@.len(),
            has_liquid_value == exists|j: int|
                0 <= j < i && #[trigger] assets@[j].is_liquid && assets@[j].value.units() > 0,
            any_volatility == exists|j: int|
                0 <= j < i && #[trigger] assets@[j].is_liquid
                    && (assets@[j].annual_volatility_percent matches Some(v) && v.units() > 0),
        decreases assets@.len() - i,
    {
        let a = assets[i];
        if a.is_liquid && !dec_le(a.value, Dec::zero()) {
            has_liquid_value = true;
        }
        let declared = match a.annual_volatility_percent {
            Some(v) => !dec_le(v, Dec::zero()),
            None => false,
        };
        if a.is_liquid && declared {
            any_volatility = true;
        }
        i = i + 1;
    }
    has_liquid_value && !any_volatility
}

} // verus!
