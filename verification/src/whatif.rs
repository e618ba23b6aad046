//! The what-if of a projection: the axes a scenario may move, the bounds each axis must respect
//! before anything is assembled, and the errors that name the first broken rule.
//!
//! Every axis that could not move anything is refused rather than accepted in silence: a scenario
//! identical to the baseline with nothing to say why is the failure these rules exist to prevent.
use crate::date::Date;
use crate::calendar::{month_index_of, ymd};
use crate::decimal::{abs, dec_add, dec_le, dec_lt, dec_max, dec_sub, one_unit, Dec};
use crate::deflate::month_diff;
use crate::plan::{difference, money_of, money_out, pair_delta};
use crate::planning::{product_of, quotient_of, sum_of};
use crate::deflate::{growth_of, real_growth_factor_at_month_index};
use crate::profile::{profile_error_code, 
    max_dec, patch_is_empty, patched, profile_violation, resolve_retirement_profile,
    resolved_profile, validate_retirement_profile, PartialRetirement, PensionPlan, ProfileError,
    RetirementProfile, RetirementProfilePatch, WithdrawalRule,
};
use crate::series::{engine_month_to_grid, request_error_code, validate_months_override, RequestError, MAX_PROJECTION_MONTHS, MIN_PROJECTION_MONTHS};
use vstd::prelude::*;

verus! {

/// Bounds of the real yearly income growth axis, in percent: a sustained raise above inflation,
/// year after year, over the whole horizon.
pub const MIN_INCOME_GROWTH_PCT: i64 = -10;

pub const MAX_INCOME_GROWTH_PCT: i64 = 20;

/// Bounds of a scenario's yearly inflation, in percent (those of the installation's own
/// assumption): a mild deflation up to a very high inflation.
pub const MIN_INFLATION_PCT: i64 = -2;

pub const MAX_INFLATION_PCT: i64 = 50;

/// At most this many income steps; beyond that the user is describing a series.
pub const MAX_INCOME_STEPS: usize = 24;

/// The legal ceiling (percent of the amount repaid early) of the early-repayment fee.
pub const MAX_EARLY_REPAYMENT_FEE_PCT: i64 = 2;

/// The fee charged when an amortizing override does not name one.
pub const DEFAULT_EARLY_REPAYMENT_FEE_PCT: i64 = 2;

/// How a liability is repaid.
#[derive(Clone, Copy, Debug, PartialEq, Eq, Structural)]
pub enum RepaymentModel {
    /// A declared instalment and no interest.
    FixedPayments,
    /// French amortization: constant instalment, interest on the balance.
    French,
    /// The instalment is the period's interest.
    InterestOnly,
    /// A revolving credit: the instalment is `max(pct x balance, floor)`.
    Revolving,
}

/// What an early repayment does to the plan.
#[derive(Clone, Copy, Debug, PartialEq, Eq, Structural)]
pub enum EarlyRepaymentEffect {
    /// The loan ends earlier (the default).
    ReduceTerm,
    /// Same end, lower instalment.
    ReducePayment,
}

impl RepaymentModel {
    /// Interest accrues under this model.
    pub open spec fn spec_accrues(self) -> bool {
        self == RepaymentModel::French || self == RepaymentModel::Revolving || self
            == RepaymentModel::InterestOnly
    }

    pub fn accrues(&self) -> (r: bool)
        ensures
            r == self.spec_accrues(),
    {
        match self {
            RepaymentModel::FixedPayments => false,
            _ => true,
        }
    }
}

/// The Monte Carlo axis: paths to draw and an optional seed.
#[derive(Clone, Copy, Debug, PartialEq, Eq, Structural)]
pub struct MonteCarloSpec {
    pub paths: u32,
    pub seed: Option<u64>,
}

/// A pause of the earned income: from a 1-based month of the anchor (exactly one of a month and
/// a date), for `months` months, earning `income_fraction` of the income.
#[derive(Clone, Copy, Debug)]
pub struct IncomePauseSpec {
    pub from_month_index: Option<u32>,
    pub from_date: Option<Date>,
    pub months: u32,
    pub income_fraction: Dec,
}

/// A step of the income from a 1-based month of the anchor (exactly one of a month and a date)
/// to the end of the horizon.
#[derive(Clone, Copy, Debug)]
pub struct IncomeStepSpec {
    pub month_index: Option<u32>,
    pub date: Option<Date>,
    pub delta_monthly: Dec,
}

/// An override of one liability in the scenario.
#[derive(Clone, Copy, Debug)]
pub struct LiabilityOverrideSpec {
    pub liability_id: u128,
    /// Extra monthly principal (>= 0) while the debt lasts.
    pub extra_monthly_principal: Option<Dec>,
    /// A one-off amortization: amount > 0 and exactly one of a 1-based month and a date.
    pub lump_sum_amount: Option<Dec>,
    pub lump_sum_month_index: Option<u32>,
    pub lump_sum_date: Option<Date>,
    /// Nominal yearly rate (>= 0).
    pub apr_percent: Option<Dec>,
    pub repayment_model: Option<RepaymentModel>,
    /// Fee of an early repayment, percent of the amount, in `[0, 2]`.
    pub early_repayment_fee_pct: Option<Dec>,
    pub early_repayment_effect: Option<EarlyRepaymentEffect>,
}

/// The axes of a what-if, already parsed.
#[derive(Clone, Debug)]
pub struct SimulationSpec {
    pub months: Option<u32>,
    pub one_off_amount: Option<Dec>,
    pub one_off_month_index: Option<u32>,
    pub one_off_date: Option<Date>,
    pub extra_monthly_expense: Option<Dec>,
    pub extra_monthly_cash_adjustment: Option<Dec>,
    pub extra_monthly_savings: Option<Dec>,
    pub swr_pct: Option<Dec>,
    pub annual_inflation_percent: Option<Dec>,
    pub retirement_annual_expense: Option<Dec>,
    pub asset_return_overrides: Vec<(u128, Dec)>,
    pub liability_overrides: Vec<LiabilityOverrideSpec>,
    pub income_growth_real_pct_annual: Option<Dec>,
    pub income_steps: Vec<IncomeStepSpec>,
    pub profile_overrides: Option<RetirementProfilePatch>,
    pub income_pause: Option<IncomePauseSpec>,
    pub solve_extra_monthly_expense_keeping_date: Option<bool>,
    pub monte_carlo: Option<MonteCarloSpec>,
    pub include_series: bool,
}

/// The cash axis a sign error names.
#[derive(Clone, Copy, Debug, PartialEq, Eq, Structural)]
pub enum CashAxis {
    ExtraMonthlyCashAdjustment,
    ExtraMonthlySavings,
}

impl CashAxis {
    pub fn name(&self) -> (r: &'static str)
        ensures
            r@ == (match *self {
                CashAxis::ExtraMonthlyCashAdjustment => "extra_monthly_cash_adjustment"@,
                CashAxis::ExtraMonthlySavings => "extra_monthly_savings"@,
            }),
    {
        match self {
            CashAxis::ExtraMonthlyCashAdjustment => "extra_monthly_cash_adjustment",
            CashAxis::ExtraMonthlySavings => "extra_monthly_savings",
        }
    }
}

/// Why a what-if was refused. `code` gives the stable code; the numbers a message quotes travel
/// with the variant.
#[derive(Clone, Debug, PartialEq, Eq)]
pub enum SimError {
    HouseholdNotSimulable,
    Request(RequestError),
    AmountNegative { axis: CashAxis },
    RetirementExpenseNotPositive,
    /// The scenario's yearly inflation outside `[MIN_INFLATION_PCT, MAX_INFLATION_PCT]`.
    InflationOutOfRange,
    ReturnPercentTooLow { asset_id: u128 },
    LiabilityOverrideDuplicate,
    LiabilityExtraPrincipalNegative,
    LiabilityAprNegative,
    EarlyRepaymentFeeOutOfRange,
    LiabilityLumpSumNotPositive,
    LiabilityLumpSumTimingAmbiguous,
    LiabilityLumpSumAmountRequired,
    LiabilityOverrideEmpty,
    IncomeGrowthNoOp,
    IncomeGrowthOutOfRange,
    IncomeStepsTooMany,
    IncomeStepDeltaZero,
    IncomeStepTimingAmbiguous,
    IncomePauseTimingAmbiguous,
    IncomePauseMonthsZero,
    IncomePauseFractionOutOfRange,
    OneOffAmountNotPositive,
    OneOffTimingAmbiguous,
    OneOffAmountRequired,
    ProfileOverridesEmpty,
    SwrPctSetTwice,
    Profile(ProfileError),
    ProfileOverridesNoOp,
    OneOffMonthOutOfRange { months: u32 },
    OneOffDateOutOfHorizon,
    LiabilityOverridesUnavailableInRealExpenseMode,
    LiabilityNotInScope { liability_id: u128 },
    LiabilityAprIgnoredByRepaymentModel,
    LiabilityRepaymentModelNeedsApr,
    LiabilityOverrideNeedsPaymentPlan,
    LiabilityEarlyRepaymentAxisNeedsAmortization,
    LiabilityOverrideRevolvingNeedsMinimums,
    ReducePaymentIgnoredByRepaymentModel,
    LiabilityLumpSumDateOutOfHorizon,
    LiabilityLumpSumMonthOutOfRange,
    AssetNotInScope { asset_id: u128 },
    IncomeStepDateOutOfHorizon,
    IncomeStepMonthOutOfRange { months: u32 },
    IncomePauseDateOutOfHorizon,
    IncomePauseMonthOutOfRange { months: u32 },
    SolveNoOp,
}

/// The stable code of a what-if error; a wrapped request or profile error keeps its own code.
pub open spec fn sim_error_code(e: SimError) -> Seq<char> {
    match e {
        SimError::HouseholdNotSimulable => "household_not_simulable"@,
        SimError::Request(e) => request_error_code(e),
        SimError::AmountNegative { .. } => "amount_negative"@,
        SimError::RetirementExpenseNotPositive => "retirement_expense_not_positive"@,
        SimError::InflationOutOfRange => "annual_inflation_out_of_range"@,
        SimError::ReturnPercentTooLow { .. } => "return_percent_too_low"@,
        SimError::LiabilityOverrideDuplicate => "liability_override_duplicate"@,
        SimError::LiabilityExtraPrincipalNegative => "liability_extra_principal_negative"@,
        SimError::LiabilityAprNegative => "liability_apr_negative"@,
        SimError::EarlyRepaymentFeeOutOfRange => "early_repayment_fee_out_of_range"@,
        SimError::LiabilityLumpSumNotPositive => "liability_lump_sum_not_positive"@,
        SimError::LiabilityLumpSumTimingAmbiguous => "liability_lump_sum_timing_ambiguous"@,
        SimError::LiabilityLumpSumAmountRequired => "liability_lump_sum_amount_required"@,
        SimError::LiabilityOverrideEmpty => "liability_override_empty"@,
        SimError::IncomeGrowthNoOp => "income_growth_no_op"@,
        SimError::IncomeGrowthOutOfRange => "income_growth_out_of_range"@,
        SimError::IncomeStepsTooMany => "income_steps_too_many"@,
        SimError::IncomeStepDeltaZero => "income_step_delta_zero"@,
        SimError::IncomeStepTimingAmbiguous => "income_step_timing_ambiguous"@,
        SimError::IncomePauseTimingAmbiguous => "income_pause_timing_ambiguous"@,
        SimError::IncomePauseMonthsZero => "income_pause_months_zero"@,
        SimError::IncomePauseFractionOutOfRange => "income_pause_fraction_out_of_range"@,
        SimError::OneOffAmountNotPositive => "one_off_amount_not_positive"@,
        SimError::OneOffTimingAmbiguous => "one_off_timing_ambiguous"@,
        SimError::OneOffAmountRequired => "one_off_amount_required"@,
        SimError::ProfileOverridesEmpty => "profile_overrides_empty"@,
        SimError::SwrPctSetTwice => "swr_pct_set_twice"@,
        SimError::Profile(e) => profile_error_code(e),
        SimError::ProfileOverridesNoOp => "profile_overrides_no_op"@,
        SimError::OneOffMonthOutOfRange { .. } => "one_off_month_out_of_range"@,
        SimError::OneOffDateOutOfHorizon => "one_off_date_out_of_horizon"@,
        SimError::LiabilityOverridesUnavailableInRealExpenseMode => "liability_overrides_unavailable_in_real_expense_mode"@,
        SimError::LiabilityNotInScope { .. } => "liability_not_in_scope"@,
        SimError::LiabilityAprIgnoredByRepaymentModel => "liability_apr_ignored_by_repayment_model"@,
        SimError::LiabilityRepaymentModelNeedsApr => "liability_repayment_model_needs_apr"@,
        SimError::LiabilityOverrideNeedsPaymentPlan => "liability_override_needs_payment_plan"@,
        SimError::LiabilityEarlyRepaymentAxisNeedsAmortization => "liability_early_repayment_axis_needs_amortization"@,
        SimError::LiabilityOverrideRevolvingNeedsMinimums => "liability_override_revolving_needs_minimums"@,
        SimError::ReducePaymentIgnoredByRepaymentModel => "reduce_payment_ignored_by_repayment_model"@,
        SimError::LiabilityLumpSumDateOutOfHorizon => "liability_lump_sum_date_out_of_horizon"@,
        SimError::LiabilityLumpSumMonthOutOfRange => "liability_lump_sum_month_out_of_range"@,
        SimError::AssetNotInScope { .. } => "asset_not_in_scope"@,
        SimError::IncomeStepDateOutOfHorizon => "income_step_date_out_of_horizon"@,
        SimError::IncomeStepMonthOutOfRange { .. } => "income_step_month_out_of_range"@,
        SimError::IncomePauseDateOutOfHorizon => "income_pause_date_out_of_horizon"@,
        SimError::IncomePauseMonthOutOfRange { .. } => "income_pause_month_out_of_range"@,
        SimError::SolveNoOp => "solve_no_op"@,
    }
}

impl SimError {
    /// The stable `snake_case` code of the error.
    pub fn code(&self) -> (r: &'static str)
        ensures
            r@ == sim_error_code(*self),
    {
        match self {
            SimError::HouseholdNotSimulable => "household_not_simulable",
            SimError::Request(e) => e.code(),
            SimError::AmountNegative { .. } => "amount_negative",
            SimError::RetirementExpenseNotPositive => "retirement_expense_not_positive",
            SimError::InflationOutOfRange => "annual_inflation_out_of_range",
            SimError::ReturnPercentTooLow { .. } => "return_percent_too_low",
            SimError::LiabilityOverrideDuplicate => "liability_override_duplicate",
            SimError::LiabilityExtraPrincipalNegative => "liability_extra_principal_negative",
            SimError::LiabilityAprNegative => "liability_apr_negative",
            SimError::EarlyRepaymentFeeOutOfRange => "early_repayment_fee_out_of_range",
            SimError::LiabilityLumpSumNotPositive => "liability_lump_sum_not_positive",
            SimError::LiabilityLumpSumTimingAmbiguous => "liability_lump_sum_timing_ambiguous",
            SimError::LiabilityLumpSumAmountRequired => "liability_lump_sum_amount_required",
            SimError::LiabilityOverrideEmpty => "liability_override_empty",
            SimError::IncomeGrowthNoOp => "income_growth_no_op",
            SimError::IncomeGrowthOutOfRange => "income_growth_out_of_range",
            SimError::IncomeStepsTooMany => "income_steps_too_many",
            SimError::IncomeStepDeltaZero => "income_step_delta_zero",
            SimError::IncomeStepTimingAmbiguous => "income_step_timing_ambiguous",
            SimError::IncomePauseTimingAmbiguous => "income_pause_timing_ambiguous",
            SimError::IncomePauseMonthsZero => "income_pause_months_zero",
            SimError::IncomePauseFractionOutOfRange => "income_pause_fraction_out_of_range",
            SimError::OneOffAmountNotPositive => "one_off_amount_not_positive",
            SimError::OneOffTimingAmbiguous => "one_off_timing_ambiguous",
            SimError::OneOffAmountRequired => "one_off_amount_required",
            SimError::ProfileOverridesEmpty => "profile_overrides_empty",
            SimError::SwrPctSetTwice => "swr_pct_set_twice",
            SimError::Profile(e) => e.code(),
            SimError::ProfileOverridesNoOp => "profile_overrides_no_op",
            SimError::OneOffMonthOutOfRange { .. } => "one_off_month_out_of_range",
            SimError::OneOffDateOutOfHorizon => "one_off_date_out_of_horizon",
            SimError::LiabilityOverridesUnavailableInRealExpenseMode => {
                "liability_overrides_unavailable_in_real_expense_mode"
            },
            SimError::LiabilityNotInScope { .. } => "liability_not_in_scope",
            SimError::LiabilityAprIgnoredByRepaymentModel => {
                "liability_apr_ignored_by_repayment_model"
            },
            SimError::LiabilityRepaymentModelNeedsApr => "liability_repayment_model_needs_apr",
            SimError::LiabilityOverrideNeedsPaymentPlan => "liability_override_needs_payment_plan",
            SimError::LiabilityEarlyRepaymentAxisNeedsAmortization => {
                "liability_early_repayment_axis_needs_amortization"
            },
            SimError::LiabilityOverrideRevolvingNeedsMinimums => {
                "liability_override_revolving_needs_minimums"
            },
            SimError::ReducePaymentIgnoredByRepaymentModel => {
                "reduce_payment_ignored_by_repayment_model"
            },
            SimError::LiabilityLumpSumDateOutOfHorizon => "liability_lump_sum_date_out_of_horizon",
            SimError::LiabilityLumpSumMonthOutOfRange => "liability_lump_sum_month_out_of_range",
            SimError::AssetNotInScope { .. } => "asset_not_in_scope",
            SimError::IncomeStepDateOutOfHorizon => "income_step_date_out_of_horizon",
            SimError::IncomeStepMonthOutOfRange { .. } => "income_step_month_out_of_range",
            SimError::IncomePauseDateOutOfHorizon => "income_pause_date_out_of_horizon",
            SimError::IncomePauseMonthOutOfRange { .. } => "income_pause_month_out_of_range",
            SimError::SolveNoOp => "solve_no_op",
        }
    }
}


// ---------------------------------------------------------------------------------------------
// The bounds of the axes, before anything is assembled
// ---------------------------------------------------------------------------------------------

/// An optional amount that is present and negative.
pub open spec fn is_negative(v: Option<Dec>) -> bool {
    v matches Some(x) && x.units() < 0
}

/// The one-off amortization of an override: an amount > 0 with exactly one of a month and a
/// date, or nothing at all.
pub open spec fn lump_sum_violation(ov: LiabilityOverrideSpec) -> Option<SimError> {
    match (ov.lump_sum_amount, ov.lump_sum_month_index, ov.lump_sum_date) {
        (None, None, None) => None,
        (Some(a), mi, d) => if a.units() <= 0 {
            Some(SimError::LiabilityLumpSumNotPositive)
        } else if (mi is Some) == (d is Some) {
            Some(SimError::LiabilityLumpSumTimingAmbiguous)
        } else {
            None
        },
        _ => Some(SimError::LiabilityLumpSumAmountRequired),
    }
}

/// The shape of one liability override: signs, the fee's legal range, the lump sum, and at least
/// one axis that moves something.
pub open spec fn override_shape_violation(ov: LiabilityOverrideSpec) -> Option<SimError> {
    if is_negative(ov.extra_monthly_principal) {
        Some(SimError::LiabilityExtraPrincipalNegative)
    } else if is_negative(ov.apr_percent) {
        Some(SimError::LiabilityAprNegative)
    } else if ov.early_repayment_fee_pct matches Some(f) && (f.units() < 0 || f.units()
        > MAX_EARLY_REPAYMENT_FEE_PCT * one_unit()) {
        Some(SimError::EarlyRepaymentFeeOutOfRange)
    } else if lump_sum_violation(ov) is Some {
        lump_sum_violation(ov)
    } else if ov.extra_monthly_principal is None && ov.lump_sum_amount is None && ov.apr_percent
        is None && ov.repayment_model is None {
        Some(SimError::LiabilityOverrideEmpty)
    } else {
        None
    }
}

/// The override at `i` names a liability an earlier one already named.
pub open spec fn repeats_earlier(ovs: Seq<LiabilityOverrideSpec>, i: int) -> bool {
    exists|j: int| 0 <= j < i && #[trigger] ovs[j].liability_id == ovs[i].liability_id
}

/// The first broken rule among the first `n` overrides, in order.
pub open spec fn overrides_violation(ovs: Seq<LiabilityOverrideSpec>, n: int) -> Option<SimError>
    decreases n,
{
    if n <= 0 {
        None
    } else {
        match overrides_violation(ovs, n - 1) {
            Some(e) => Some(e),
            None => if repeats_earlier(ovs, n - 1) {
                Some(SimError::LiabilityOverrideDuplicate)
            } else {
                override_shape_violation(ovs[n - 1])
            },
        }
    }
}

/// The first asset rate among the first `n` at or below -100 % (it has no real twelfth root).
pub open spec fn assets_violation(v: Seq<(u128, Dec)>, n: int) -> Option<SimError>
    decreases n,
{
    if n <= 0 {
        None
    } else {
        match assets_violation(v, n - 1) {
            Some(e) => Some(e),
            None => if v[n - 1].1.units() <= -100 * one_unit() {
                Some(SimError::ReturnPercentTooLow { asset_id: v[n - 1].0 })
            } else {
                None
            },
        }
    }
}

/// The first broken rule among the first `n` income steps: a zero step, or not exactly one of a
/// month and a date.
pub open spec fn steps_violation(steps: Seq<IncomeStepSpec>, n: int) -> Option<SimError>
    decreases n,
{
    if n <= 0 {
        None
    } else {
        match steps_violation(steps, n - 1) {
            Some(e) => Some(e),
            None => if steps[n - 1].delta_monthly.units() == 0 {
                Some(SimError::IncomeStepDeltaZero)
            } else if (steps[n - 1].month_index is Some) == (steps[n - 1].date is Some) {
                Some(SimError::IncomeStepTimingAmbiguous)
            } else {
                None
            },
        }
    }
}

/// The income growth axis: not zero (that is the baseline) and within `[-10, 20]` % a year.
pub open spec fn growth_violation(g: Option<Dec>) -> Option<SimError> {
    match g {
        None => None,
        Some(g) => if g.units() == 0 {
            Some(SimError::IncomeGrowthNoOp)
        } else if g.units() < MIN_INCOME_GROWTH_PCT * one_unit() || g.units()
            > MAX_INCOME_GROWTH_PCT * one_unit() {
            Some(SimError::IncomeGrowthOutOfRange)
        } else {
            None
        },
    }
}

/// The income pause: exactly one start, at least one month, and a fraction in `[0, 1)`.
pub open spec fn pause_violation(p: Option<IncomePauseSpec>) -> Option<SimError> {
    match p {
        None => None,
        Some(p) => if (p.from_month_index is Some) == (p.from_date is Some) {
            Some(SimError::IncomePauseTimingAmbiguous)
        } else if p.months == 0 {
            Some(SimError::IncomePauseMonthsZero)
        } else if p.income_fraction.units() < 0 || p.income_fraction.units() >= one_unit() {
            Some(SimError::IncomePauseFractionOutOfRange)
        } else {
            None
        },
    }
}

/// The one-off expense: an amount > 0 with exactly one of a month and a date, or nothing.
pub open spec fn one_off_violation(s: SimulationSpec) -> Option<SimError> {
    match (s.one_off_amount, s.one_off_month_index, s.one_off_date) {
        (None, None, None) => None,
        (Some(a), mi, d) => if a.units() <= 0 {
            Some(SimError::OneOffAmountNotPositive)
        } else if (mi is Some) == (d is Some) {
            Some(SimError::OneOffTimingAmbiguous)
        } else {
            None
        },
        _ => Some(SimError::OneOffAmountRequired),
    }
}

/// The first rule a what-if breaks before anything is assembled, in the order they are checked:
/// the horizon, the signs of the two cash axes, the retirement expense, the asset rates, the
/// liability overrides, the income growth, the income steps, the pause and the one-off expense.
pub open spec fn spec_violation(s: SimulationSpec) -> Option<SimError> {
    if s.months matches Some(m) && (m < MIN_PROJECTION_MONTHS || m > MAX_PROJECTION_MONTHS) {
        Some(SimError::Request(RequestError::MonthsOutOfRange))
    } else if is_negative(s.extra_monthly_cash_adjustment) {
        Some(SimError::AmountNegative { axis: CashAxis::ExtraMonthlyCashAdjustment })
    } else if is_negative(s.extra_monthly_savings) {
        Some(SimError::AmountNegative { axis: CashAxis::ExtraMonthlySavings })
    } else if s.annual_inflation_percent matches Some(p) && (p.units() < MIN_INFLATION_PCT
        * one_unit() || p.units() > MAX_INFLATION_PCT * one_unit()) {
        Some(SimError::InflationOutOfRange)
    } else if s.retirement_annual_expense matches Some(v) && v.units() <= 0 {
        Some(SimError::RetirementExpenseNotPositive)
    } else if assets_violation(
        s.asset_return_overrides@,
        s.asset_return_overrides@.len() as int,
    ) is Some {
        assets_violation(s.asset_return_overrides@, s.asset_return_overrides@.len() as int)
    } else if overrides_violation(
        s.liability_overrides@,
        s.liability_overrides@.len() as int,
    ) is Some {
        overrides_violation(s.liability_overrides@, s.liability_overrides@.len() as int)
    } else if growth_violation(s.income_growth_real_pct_annual) is Some {
        growth_violation(s.income_growth_real_pct_annual)
    } else if s.income_steps@.len() > MAX_INCOME_STEPS {
        Some(SimError::IncomeStepsTooMany)
    } else if steps_violation(s.income_steps@, s.income_steps@.len() as int) is Some {
        steps_violation(s.income_steps@, s.income_steps@.len() as int)
    } else if pause_violation(s.income_pause) is Some {
        pause_violation(s.income_pause)
    } else {
        one_off_violation(s)
    }
}

/// An optional amount, zero when absent.
pub open spec fn amount_or_zero(v: Option<Dec>) -> Dec {
    match v {
        Some(x) => x,
        None => Dec::of(0, 0),
    }
}

/// The three constant cash amounts of a what-if that passed its bounds.
#[derive(Clone, Copy, Debug)]
pub struct ScenarioCash {
    /// Extra regular expense (signed; absent is 0).
    pub extra_expense: Dec,
    /// Extra monthly cash adjustment (>= 0; absent is 0).
    pub extra_cash_adjustment: Dec,
    /// Extra monthly savings (>= 0; absent is 0).
    pub extra_savings: Dec,
}

fn zero_when_absent(v: Option<Dec>) -> (r: Dec)
    ensures
        r == amount_or_zero(v),
{
    match v {
        Some(x) => x,
        None => Dec::zero(),
    }
}

fn is_below(v: Dec, k: i64) -> (r: bool)
    requires
        -1000 <= k <= 1000,
    ensures
        r == (v.units() < k * one_unit()),
{
    proof {
        crate::decimal::lemma_int_units(k as int);
    }
    dec_lt(v, Dec::from_i64(k))
}

fn is_at_most(v: Dec, k: i64) -> (r: bool)
    requires
        -1000 <= k <= 1000,
    ensures
        r == (v.units() <= k * one_unit()),
{
    proof {
        crate::decimal::lemma_int_units(k as int);
    }
    dec_le(v, Dec::from_i64(k))
}

proof fn lemma_assets_violation_stays(v: Seq<(u128, Dec)>, k: int, n: int)
    requires
        0 <= k <= n,
        assets_violation(v, k) is Some,
    ensures
        assets_violation(v, n) == assets_violation(v, k),
    decreases n - k,
{
    if n > k {
        lemma_assets_violation_stays(v, k, n - 1);
    }
}

proof fn lemma_overrides_violation_stays(v: Seq<LiabilityOverrideSpec>, k: int, n: int)
    requires
        0 <= k <= n,
        overrides_violation(v, k) is Some,
    ensures
        overrides_violation(v, n) == overrides_violation(v, k),
    decreases n - k,
{
    if n > k {
        lemma_overrides_violation_stays(v, k, n - 1);
    }
}

proof fn lemma_steps_violation_stays(v: Seq<IncomeStepSpec>, k: int, n: int)
    requires
        0 <= k <= n,
        steps_violation(v, k) is Some,
    ensures
        steps_violation(v, n) == steps_violation(v, k),
    decreases n - k,
{
    if n > k {
        lemma_steps_violation_stays(v, k, n - 1);
    }
}

fn check_assets(v: &Vec<(u128, Dec)>) -> (r: Result<(), SimError>)
    ensures
        match assets_violation(v@, v@.len() as int) {
            Some(e) => r == Err::<(), SimError>(e),
            None => r is Ok,
        },
{
    let mut i: usize = 0;
    while i < v.len()
        invariant
            0 <= i <= v@.len(),
            assets_violation(v@, i as int) is None,
        decreases v@.len() - i,
    {
        if is_at_most(v[i].1, -100) {
            proof {
                lemma_assets_violation_stays(v@, i + 1, v@.len() as int);
            }
            return Err(SimError::ReturnPercentTooLow { asset_id: v[i].0 });
        }
        i = i + 1;
    }
    Ok(())
}

fn check_override_shape(ov: &LiabilityOverrideSpec) -> (r: Result<(), SimError>)
    ensures
        match override_shape_violation(*ov) {
            Some(e) => r == Err::<(), SimError>(e),
            None => r is Ok,
        },
{
    if let Some(v) = ov.extra_monthly_principal {
        if is_below(v, 0) {
            return Err(SimError::LiabilityExtraPrincipalNegative);
        }
    }
    if let Some(v) = ov.apr_percent {
        if is_below(v, 0) {
            return Err(SimError::LiabilityAprNegative);
        }
    }
    if let Some(f) = ov.early_repayment_fee_pct {
        if is_below(f, 0) || !is_at_most(f, MAX_EARLY_REPAYMENT_FEE_PCT) {
            return Err(SimError::EarlyRepaymentFeeOutOfRange);
        }
    }
    match (ov.lump_sum_amount, ov.lump_sum_month_index, ov.lump_sum_date) {
        (None, None, None) => {},
        (Some(a), mi, d) => {
            if is_at_most(a, 0) {
                return Err(SimError::LiabilityLumpSumNotPositive);
            }
            if mi.is_some() == d.is_some() {
                return Err(SimError::LiabilityLumpSumTimingAmbiguous);
            }
        },
        _ => {
            return Err(SimError::LiabilityLumpSumAmountRequired);
        },
    }
    if ov.extra_monthly_principal.is_none() && ov.lump_sum_amount.is_none()
        && ov.apr_percent.is_none() && ov.repayment_model.is_none() {
        return Err(SimError::LiabilityOverrideEmpty);
    }
    Ok(())
}

fn repeats_an_earlier_id(ovs: &Vec<LiabilityOverrideSpec>, i: usize) -> (r: bool)
    requires
        i < ovs@.len(),
    ensures
        r == repeats_earlier(ovs@, i as int),
{
    let mut j: usize = 0;
    while j < i
        invariant
            0 <= j <= i < ovs@.len(),
            forall|k: int| 0 <= k < j ==> ovs@[k].liability_id != ovs@[i as int].liability_id,
        decreases i - j,
    {
        if ovs[j].liability_id == ovs[i].liability_id {
            return true;
        }
        j = j + 1;
    }
    false
}

fn check_overrides(ovs: &Vec<LiabilityOverrideSpec>) -> (r: Result<(), SimError>)
    ensures
        match overrides_violation(ovs@, ovs@.len() as int) {
            Some(e) => r == Err::<(), SimError>(e),
            None => r is Ok,
        },
{
    let mut i: usize = 0;
    while i < ovs.len()
        invariant
            0 <= i <= ovs@.len(),
            overrides_violation(ovs@, i as int) is None,
        decreases ovs@.len() - i,
    {
        if repeats_an_earlier_id(ovs, i) {
            proof {
                lemma_overrides_violation_stays(ovs@, i + 1, ovs@.len() as int);
            }
            return Err(SimError::LiabilityOverrideDuplicate);
        }
        match check_override_shape(&ovs[i]) {
            Ok(()) => {},
            Err(e) => {
                proof {
                    lemma_overrides_violation_stays(ovs@, i + 1, ovs@.len() as int);
                }
                return Err(e);
            },
        }
        i = i + 1;
    }
    Ok(())
}

fn check_steps(steps: &Vec<IncomeStepSpec>) -> (r: Result<(), SimError>)
    ensures
        match steps_violation(steps@, steps@.len() as int) {
            Some(e) => r == Err::<(), SimError>(e),
            None => r is Ok,
        },
{
    let mut i: usize = 0;
    while i < steps.len()
        invariant
            0 <= i <= steps@.len(),
            steps_violation(steps@, i as int) is None,
        decreases steps@.len() - i,
    {
        let st = steps[i];
        if st.delta_monthly.is_zero() {
            proof {
                lemma_steps_violation_stays(steps@, i + 1, steps@.len() as int);
            }
            return Err(SimError::IncomeStepDeltaZero);
        }
        if st.month_index.is_some() == st.date.is_some() {
            proof {
                lemma_steps_violation_stays(steps@, i + 1, steps@.len() as int);
            }
            return Err(SimError::IncomeStepTimingAmbiguous);
        }
        i = i + 1;
    }
    Ok(())
}

/// Law: a what-if that passes its checks has its horizon override in range, no negative extra
/// cash adjustment or savings, its inflation within `[-2, 50]` %, a positive explicit retirement
/// spending and at most 24 income steps. A horizon override out of range is always the error
/// answered (it is checked first), and an inflation out of range is never accepted.
pub proof fn law_valid_simulation_in_range(s: SimulationSpec)
    ensures
        spec_violation(s) is None ==> (s.months matches Some(m) ==> MIN_PROJECTION_MONTHS <= m
            <= MAX_PROJECTION_MONTHS),
        spec_violation(s) is None ==> amount_or_zero(s.extra_monthly_cash_adjustment).units() >= 0
            && amount_or_zero(s.extra_monthly_savings).units() >= 0,
        spec_violation(s) is None ==> (s.annual_inflation_percent matches Some(p)
            ==> MIN_INFLATION_PCT * one_unit() <= p.units() <= MAX_INFLATION_PCT * one_unit()),
        spec_violation(s) is None ==> (s.retirement_annual_expense matches Some(v) ==> v.units()
            > 0),
        spec_violation(s) is None ==> s.income_steps@.len() <= MAX_INCOME_STEPS,
        s.months matches Some(m) && (m < MIN_PROJECTION_MONTHS || m > MAX_PROJECTION_MONTHS)
            ==> spec_violation(s) == Some(SimError::Request(RequestError::MonthsOutOfRange)),
        s.annual_inflation_percent matches Some(p) && (p.units() < MIN_INFLATION_PCT * one_unit()
            || p.units() > MAX_INFLATION_PCT * one_unit()) ==> spec_violation(s) is Some,
{
    crate::decimal::lemma_int_units(0);
}

/// Checks the bounds of every axis of a what-if before anything is assembled and returns the
/// three constant cash amounts; the first broken rule is the error.
pub fn validate_simulation_spec(spec: &SimulationSpec) -> (r: Result<ScenarioCash, SimError>)
    ensures
        match spec_violation(*spec) {
            Some(e) => r == Err::<ScenarioCash, SimError>(e),
            None => r matches Ok(c) && c.extra_expense == amount_or_zero(spec.extra_monthly_expense)
                && c.extra_cash_adjustment == amount_or_zero(spec.extra_monthly_cash_adjustment)
                && c.extra_savings == amount_or_zero(spec.extra_monthly_savings),
        },
{
    match validate_months_override(spec.months) {
        Ok(()) => {},
        Err(e) => {
            return Err(SimError::Request(e));
        },
    }
    let extra_expense = zero_when_absent(spec.extra_monthly_expense);
    let extra_cash_adjustment = match crate::plan::require_non_negative(
        "extra_monthly_cash_adjustment",
        spec.extra_monthly_cash_adjustment,
    ) {
        Ok(v) => v,
        Err(_) => {
            return Err(SimError::AmountNegative { axis: CashAxis::ExtraMonthlyCashAdjustment });
        },
    };
    let extra_savings = match crate::plan::require_non_negative(
        "extra_monthly_savings",
        spec.extra_monthly_savings,
    ) {
        Ok(v) => v,
        Err(_) => {
            return Err(SimError::AmountNegative { axis: CashAxis::ExtraMonthlySavings });
        },
    };
    if let Some(p) = spec.annual_inflation_percent {
        if is_below(p, MIN_INFLATION_PCT) || !is_at_most(p, MAX_INFLATION_PCT) {
            return Err(SimError::InflationOutOfRange);
        }
    }
    if let Some(v) = spec.retirement_annual_expense {
        if is_at_most(v, 0) {
            return Err(SimError::RetirementExpenseNotPositive);
        }
    }
    match check_assets(&spec.asset_return_overrides) {
        Ok(()) => {},
        Err(e) => {
            return Err(e);
        },
    }
    match check_overrides(&spec.liability_overrides) {
        Ok(()) => {},
        Err(e) => {
            return Err(e);
        },
    }
    if let Some(g) = spec.income_growth_real_pct_annual {
        if g.is_zero() {
            return Err(SimError::IncomeGrowthNoOp);
        }
        if is_below(g, MIN_INCOME_GROWTH_PCT) || !is_at_most(g, MAX_INCOME_GROWTH_PCT) {
            return Err(SimError::IncomeGrowthOutOfRange);
        }
    }
    if spec.income_steps.len() > MAX_INCOME_STEPS {
        return Err(SimError::IncomeStepsTooMany);
    }
    match check_steps(&spec.income_steps) {
        Ok(()) => {},
        Err(e) => {
            return Err(e);
        },
    }
    if let Some(p) = spec.income_pause {
        if p.from_month_index.is_some() == p.from_date.is_some() {
            return Err(SimError::IncomePauseTimingAmbiguous);
        }
        if p.months == 0 {
            return Err(SimError::IncomePauseMonthsZero);
        }
        if is_below(p.income_fraction, 0) || !is_below(p.income_fraction, 1) {
            return Err(SimError::IncomePauseFractionOutOfRange);
        }
    }
    match (spec.one_off_amount, spec.one_off_month_index, spec.one_off_date) {
        (None, None, None) => {},
        (Some(a), mi, d) => {
            if is_at_most(a, 0) {
                return Err(SimError::OneOffAmountNotPositive);
            }
            if mi.is_some() == d.is_some() {
                return Err(SimError::OneOffTimingAmbiguous);
            }
        },
        _ => {
            return Err(SimError::OneOffAmountRequired);
        },
    }
    Ok(ScenarioCash { extra_expense, extra_cash_adjustment, extra_savings })
}


// ---------------------------------------------------------------------------------------------
// Months named by a month index or a date
// ---------------------------------------------------------------------------------------------

/// The 1-based month of the anchor a timing names: the index as given, or one more than the whole
/// months from the anchor's month to the date's month; none for a date before the anchor's month.
pub open spec fn timing_month(today: Date, month_index: Option<u32>, date: Option<Date>) -> Option<int> {
    match month_index {
        Some(k) => Some(k as int),
        None => match date {
            Some(d) => {
                let diff = month_index_of(ymd(d)) - month_index_of(ymd(today));
                if diff < 0 {
                    None
                } else {
                    Some(diff + 1)
                }
            },
            None => None,
        },
    }
}

/// The 1-based month a timing names (exactly one of a month index and a date), or none when the
/// date falls before the anchor's month.
pub fn resolve_timing(today: Date, month_index: Option<u32>, date: Option<Date>) -> (r: Option<u32>)
    requires
        (month_index is Some) != (date is Some),
    ensures
        match timing_month(today, month_index, date) {
            Some(k) => r == Some(k as u32) && k == r.unwrap(),
            None => r is None,
        },
{
    match month_index {
        Some(k) => Some(k),
        None => {
            let d = date.unwrap();
            today.bounds();
            d.bounds();
            let diff = month_diff(today, d);
            if diff < 0 {
                None
            } else {
                Some(diff as u32 + 1)
            }
        },
    }
}

// ---------------------------------------------------------------------------------------------
// The cash axes of the scenario
// ---------------------------------------------------------------------------------------------

/// The bound on a slot of the monthly cash adjustments these functions take (10^24 whole units).
pub open spec fn cash_slot_bound() -> int {
    1_000_000_000_000_000_000_000_000 * one_unit()
}

/// The bound on the amount of one cash axis (10^15 whole units).
pub open spec fn cash_axis_bound() -> int {
    1_000_000_000_000_000 * one_unit()
}

/// Every slot within the bound.
pub open spec fn slots_bounded(adj: Seq<Dec>) -> bool {
    forall|i: int| 0 <= i < adj.len() ==> abs((#[trigger] adj[i]).units()) <= cash_slot_bound()
}

/// `a + b` as `rust_decimal` adds it, within one unit of the exact sum.
fn plus(a: Dec, b: Dec) -> (r: Dec)
    requires
        abs(a.units() + b.units()) <= crate::decimal::safe_units(),
    ensures
        r == sum_of(a, b),
        abs(r.units() - (a.units() + b.units())) <= one_unit(),
{
    let s = dec_add(a, b);
    s.bounds();
    proof {
        crate::decimal::lemma_dec_of(s.mantissa(), s.scale());
    }
    s
}

/// `a - b` as `rust_decimal` subtracts, within one unit of the exact difference.
fn minus(a: Dec, b: Dec) -> (r: Dec)
    requires
        abs(a.units() - b.units()) <= crate::decimal::safe_units(),
    ensures
        r == difference(a, b),
        abs(r.units() - (a.units() - b.units())) <= one_unit(),
        exact_at_money_scale(a, b) ==> r.units() == a.units() - b.units() && r.scale() <= 4,
{
    let s = dec_sub(a, b);
    s.bounds();
    proof {
        crate::decimal::lemma_dec_of(s.mantissa(), s.scale());
        if exact_at_money_scale(a, b) {
            crate::decimal::lemma_small_scale_exact(a, b, a.units() - b.units());
        }
    }
    s
}

/// A constant monthly amount added to every month of the scenario's cash (nothing when it is 0).
pub fn add_to_every_month(adj: &mut Vec<Dec>, amount: Dec)
    requires
        slots_bounded(old(adj)@),
        abs(amount.units()) <= cash_axis_bound(),
    ensures
        final(adj)@.len() == old(adj)@.len(),
        amount.units() == 0 ==> final(adj)@ == old(adj)@,
        amount.units() != 0 ==> forall|i: int|
            0 <= i < final(adj)@.len() ==> #[trigger] final(adj)@[i] == sum_of(old(adj)@[i], amount),
        forall|i: int|
            0 <= i < final(adj)@.len() ==> abs((#[trigger] final(adj)@[i]).units()) <= abs(
                old(adj)@[i].units(),
            ) + abs(amount.units()) + one_unit(),
{
    if amount.is_zero() {
        return;
    }
    let mut i: usize = 0;
    while i < adj.len()
        invariant
            0 <= i <= adj@.len(),
            adj@.len() == old(adj)@.len(),
            slots_bounded(old(adj)@),
            abs(amount.units()) <= cash_axis_bound(),
            forall|j: int| i <= j < adj@.len() ==> adj@[j] == old(adj)@[j],
            forall|j: int| 0 <= j < i ==> #[trigger] adj@[j] == sum_of(old(adj)@[j], amount),
            forall|j: int|
                0 <= j < i ==> abs((#[trigger] adj@[j]).units()) <= abs(old(adj)@[j].units())
                    + abs(amount.units()) + one_unit(),
        decreases adj@.len() - i,
    {
        let v = plus(adj[i], amount);
        adj.set(i, v);
        i = i + 1;
    }
}

/// What a one-off expense of `amount` dated `date` adds to grid month `i`: the whole expense in
/// its own month (as the dated upcoming flows do), zero elsewhere.
pub open spec fn one_off_slot(amount: Dec, today: Date, date: Date, i: int) -> Dec {
    if month_index_of(ymd(date)) - month_index_of(ymd(today)) == i {
        sum_of(Dec::of(0, 0), Dec::of(-amount.mantissa(), amount.scale()))
    } else {
        Dec::of(0, 0)
    }
}

/// The one-off expense of the scenario. By month index (1-based, within the horizon), it comes
/// out of that month. By date, it lands whole in the date's month as a dated expense does; a date
/// before the anchor's month or beyond the horizon is refused.
pub fn apply_one_off(
    adj: &mut Vec<Dec>,
    amount: Dec,
    month_index: Option<u32>,
    date: Option<Date>,
    today: Date,
    months: u32,
) -> (r: Result<(), SimError>)
    requires
        old(adj)@.len() == months,
        (month_index is Some) != (date is Some),
        0 < amount.units() <= cash_axis_bound(),
        slots_bounded(old(adj)@),
    ensures
        final(adj)@.len() == old(adj)@.len(),
        month_index matches Some(k) ==> if 1 <= k <= months {
            r is Ok && final(adj)@ == old(adj)@.update(k - 1, difference(old(adj)@[k - 1], amount))
        } else {
            r == Err::<(), SimError>(SimError::OneOffMonthOutOfRange { months })
        },
        date matches Some(d) ==> {
            let off = month_index_of(ymd(d)) - month_index_of(ymd(today));
            if off < 0 || off >= months {
                r == Err::<(), SimError>(SimError::OneOffDateOutOfHorizon)
            } else {
                r is Ok && forall|i: int|
                    0 <= i < months ==> #[trigger] final(adj)@[i] == sum_of(
                        old(adj)@[i],
                        one_off_slot(amount, today, d, i),
                    )
            }
        },
        forall|i: int|
            0 <= i < final(adj)@.len() ==> abs((#[trigger] final(adj)@[i]).units()) <= abs(
                old(adj)@[i].units(),
            ) + amount.units() + 2 * one_unit(),
{
    match month_index {
        Some(k) => {
            if k < 1 || k > months {
                return Err(SimError::OneOffMonthOutOfRange { months });
            }
            let i = (k - 1) as usize;
            let v = minus(adj[i], amount);
            adj.set(i, v);
            Ok(())
        },
        None => {
            let d = date.unwrap();
            today.bounds();
            d.bounds();
            let off = month_diff(today, d);
            if off < 0 || off as u32 >= months {
                return Err(SimError::OneOffDateOutOfHorizon);
            }
            let off = off as usize;
            let zero = Dec::zero();
            amount.bounds();
            let neg = amount.neg();
            proof {
                crate::decimal::lemma_dec_of(-amount.mantissa(), amount.scale());
            }
            let charge = plus(zero, neg);
            let mut i: usize = 0;
            while i < adj.len()
                invariant
                    0 <= i <= adj@.len(),
                    adj@.len() == old(adj)@.len() == months,
                    0 <= off < months,
                    off == month_index_of(ymd(d)) - month_index_of(ymd(today)),
                    slots_bounded(old(adj)@),
                    0 < amount.units() <= cash_axis_bound(),
                    zero == Dec::of(0, 0),
                    zero.units() == 0,
                    charge == sum_of(Dec::of(0, 0), Dec::of(-amount.mantissa(), amount.scale())),
                    abs(charge.units()) <= amount.units() + one_unit(),
                    forall|j: int| i <= j < adj@.len() ==> adj@[j] == old(adj)@[j],
                    forall|j: int|
                        0 <= j < i ==> #[trigger] adj@[j] == sum_of(
                            old(adj)@[j],
                            one_off_slot(amount, today, d, j),
                        ),
                    forall|j: int|
                        0 <= j < i ==> abs((#[trigger] adj@[j]).units()) <= abs(
                            old(adj)@[j].units(),
                        ) + amount.units() + 2 * one_unit(),
                decreases adj@.len() - i,
            {
                let slot = if i == off {
                    charge
                } else {
                    zero
                };
                let v = plus(adj[i], slot);
                adj.set(i, v);
                i = i + 1;
            }
            Ok(())
        },
    }
}


/// `a` with `delta` added to every month from the 1-based month `k` to the end.
pub open spec fn with_step(a: Seq<Dec>, k: int, delta: Dec) -> Seq<Dec> {
    Seq::new(a.len(), |j: int| if j >= k - 1 { sum_of(a[j], delta) } else { a[j] })
}

/// The month of an income step, within `[1, months]`, or why not.
pub open spec fn step_month(today: Date, st: IncomeStepSpec, months: int) -> Result<int, SimError> {
    match timing_month(today, st.month_index, st.date) {
        None => Err(SimError::IncomeStepDateOutOfHorizon),
        Some(k) => if 1 <= k <= months {
            Ok(k)
        } else {
            Err(SimError::IncomeStepMonthOutOfRange { months: months as u32 })
        },
    }
}

/// The cash after the income steps, in order; the first step that names no month of the
/// horizon is the error.
pub open spec fn steps_applied(a: Seq<Dec>, steps: Seq<IncomeStepSpec>, today: Date, months: int) -> Result<
    Seq<Dec>,
    SimError,
>
    decreases steps.len(),
{
    if steps.len() == 0 {
        Ok(a)
    } else {
        match steps_applied(a, steps.drop_last(), today, months) {
            Err(e) => Err(e),
            Ok(b) => match step_month(today, steps.last(), months) {
                Err(e) => Err(e),
                Ok(k) => Ok(with_step(b, k, steps.last().delta_monthly)),
            },
        }
    }
}

/// A step named by a month index within `[1, months]`.
pub open spec fn step_indexed_within(st: IncomeStepSpec, months: int) -> bool {
    st.month_index matches Some(k) && 1 <= k <= months
}

/// A step named by a month index outside `[1, months]`.
pub open spec fn step_indexed_outside(st: IncomeStepSpec, months: int) -> bool {
    st.month_index matches Some(k) && (k < 1 || k > months)
}

/// Law: income steps named by month index add their amount from their own month on. With every
/// step inside the horizon they all apply, the months before every step's month keep their cash,
/// and a single step at month `k` adds its amount to month `k` and each later month, and to no
/// earlier one; a step whose month index lies outside `[1, months]` is refused.
pub proof fn law_income_steps_from_their_month(
    a: Seq<Dec>,
    steps: Seq<IncomeStepSpec>,
    today: Date,
    months: int,
)
    ensures
        (forall|i: int| 0 <= i < steps.len() ==> step_indexed_within(#[trigger] steps[i], months))
            ==> (steps_applied(a, steps, today, months) is Ok && steps_applied(
            a,
            steps,
            today,
            months,
        ).unwrap().len() == a.len() && forall|j: int|
            0 <= j < a.len() && (forall|i: int|
                0 <= i < steps.len() ==> (#[trigger] steps[i]).month_index.unwrap() > j + 1)
                ==> #[trigger] steps_applied(a, steps, today, months).unwrap()[j] == a[j]),
        steps.len() == 1 && step_indexed_within(steps[0], months) ==> (steps_applied(
            a,
            steps,
            today,
            months,
        ) is Ok && forall|j: int|
            0 <= j < a.len() ==> #[trigger] steps_applied(a, steps, today, months).unwrap()[j] == if j
                >= steps[0].month_index.unwrap() - 1 {
                sum_of(a[j], steps[0].delta_monthly)
            } else {
                a[j]
            }),
        (exists|i: int| 0 <= i < steps.len() && step_indexed_outside(#[trigger] steps[i], months))
            ==> steps_applied(a, steps, today, months) is Err,
    decreases steps.len(),
{
    if steps.len() > 0 {
        let init = steps.drop_last();
        law_income_steps_from_their_month(a, init, today, months);
        if forall|i: int| 0 <= i < steps.len() ==> step_indexed_within(#[trigger] steps[i], months) {
            assert forall|i: int| 0 <= i < init.len() implies step_indexed_within(
                #[trigger] init[i],
                months,
            ) by {
                assert(init[i] == steps[i]);
            }
            assert(steps[steps.len() - 1] == steps.last());
            let b0 = steps_applied(a, init, today, months).unwrap();
            let k = steps.last().month_index.unwrap() as int;
            assert(step_month(today, steps.last(), months) == Ok::<int, SimError>(k));
            let b = steps_applied(a, steps, today, months).unwrap();
            assert(b == with_step(b0, k, steps.last().delta_monthly));
            assert forall|j: int|
                0 <= j < a.len() && (forall|i: int|
                    0 <= i < steps.len() ==> (#[trigger] steps[i]).month_index.unwrap() > j + 1)
                    implies #[trigger] b[j] == a[j] by {
                assert forall|i: int|
                    0 <= i < init.len() implies (#[trigger] init[i]).month_index.unwrap() > j + 1 by {
                    assert(init[i] == steps[i]);
                }
                assert(steps[steps.len() - 1].month_index.unwrap() > j + 1);
                assert(b0[j] == a[j]);
            }
        }
        if steps.len() == 1 && step_indexed_within(steps[0], months) {
            assert(init.len() == 0);
            assert(steps.last() == steps[0]);
            let k = steps[0].month_index.unwrap() as int;
            assert(step_month(today, steps.last(), months) == Ok::<int, SimError>(k));
            assert(steps_applied(a, init, today, months) == Ok::<Seq<Dec>, SimError>(a));
        }
        if exists|i: int| 0 <= i < steps.len() && step_indexed_outside(#[trigger] steps[i], months) {
            let i = choose|i: int|
                0 <= i < steps.len() && step_indexed_outside(#[trigger] steps[i], months);
            if i < init.len() {
                assert(init[i] == steps[i]);
            } else {
                assert(steps.last() == steps[i]);
            }
        }
    }
}

proof fn lemma_steps_error_stays(
    a: Seq<Dec>,
    steps: Seq<IncomeStepSpec>,
    today: Date,
    months: int,
    k: int,
    n: int,
)
    requires
        0 <= k <= n <= steps.len(),
        steps_applied(a, steps.take(k), today, months) is Err,
    ensures
        steps_applied(a, steps.take(n), today, months) == steps_applied(
            a,
            steps.take(k),
            today,
            months,
        ),
    decreases n - k,
{
    if n > k {
        lemma_steps_error_stays(a, steps, today, months, k, n - 1);
        assert(steps.take(n).drop_last() =~= steps.take(n - 1));
    }
}

fn add_from_month(adj: &mut Vec<Dec>, start: usize, delta: Dec)
    requires
        forall|i: int|
            0 <= i < old(adj)@.len() ==> abs((#[trigger] old(adj)@[i]).units()) <= 2
                * cash_slot_bound(),
        abs(delta.units()) <= cash_axis_bound(),
    ensures
        final(adj)@ == with_step(old(adj)@, start + 1, delta),
        forall|i: int|
            0 <= i < final(adj)@.len() ==> abs((#[trigger] final(adj)@[i]).units()) <= abs(
                old(adj)@[i].units(),
            ) + abs(delta.units()) + one_unit(),
{
    let mut j: usize = start;
    let ghost first = old(adj)@;
    while j < adj.len()
        invariant
            start <= j,
            adj@.len() == first.len(),
            first == old(adj)@,
            forall|i: int|
                0 <= i < first.len() ==> abs((#[trigger] first[i]).units()) <= 2 * cash_slot_bound(),
            abs(delta.units()) <= cash_axis_bound(),
            forall|i: int| 0 <= i < first.len() && (i < start || i >= j) ==> adj@[i] == first[i],
            forall|i: int|
                start <= i < j && i < first.len() ==> #[trigger] adj@[i] == sum_of(first[i], delta),
            forall|i: int|
                0 <= i < first.len() ==> abs((#[trigger] adj@[i]).units()) <= abs(first[i].units())
                    + abs(delta.units()) + one_unit(),
        decreases adj@.len() - j,
    {
        let v = plus(adj[j], delta);
        adj.set(j, v);
        j = j + 1;
    }
    assert(adj@ =~= with_step(first, start + 1, delta));
}

/// The income steps of the scenario: each adds its signed amount to every month from its own
/// (1-based, within the horizon) to the end; they are not cut at retirement.
pub fn apply_income_steps(
    adj: &mut Vec<Dec>,
    steps: &Vec<IncomeStepSpec>,
    today: Date,
    months: u32,
) -> (r: Result<(), SimError>)
    requires
        old(adj)@.len() == months,
        steps@.len() <= MAX_INCOME_STEPS,
        forall|i: int|
            0 <= i < steps@.len() ==> ((#[trigger] steps@[i]).month_index is Some) != (
            steps@[i].date is Some) && abs(steps@[i].delta_monthly.units()) <= cash_axis_bound(),
        slots_bounded(old(adj)@),
    ensures
        match steps_applied(old(adj)@, steps@, today, months as int) {
            Err(e) => r == Err::<(), SimError>(e),
            Ok(a) => r is Ok && final(adj)@ == a,
        },
        r is Ok ==> forall|i: int|
            0 <= i < final(adj)@.len() ==> abs((#[trigger] final(adj)@[i]).units()) <= abs(
                old(adj)@[i].units(),
            ) + steps@.len() * (cash_axis_bound() + one_unit()),
{
    let ghost first = old(adj)@;
    let mut n: usize = 0;
    while n < steps.len()
        invariant
            0 <= n <= steps@.len() <= MAX_INCOME_STEPS,
            first == old(adj)@,
            first.len() == months,
            adj@.len() == months,
            slots_bounded(first),
            forall|i: int|
                0 <= i < steps@.len() ==> ((#[trigger] steps@[i]).month_index is Some) != (
                steps@[i].date is Some) && abs(steps@[i].delta_monthly.units()) <= cash_axis_bound(),
            steps_applied(first, steps@.take(n as int), today, months as int) == Ok::<
                Seq<Dec>,
                SimError,
            >(adj@),
            forall|i: int|
                0 <= i < adj@.len() ==> abs((#[trigger] adj@[i]).units()) <= abs(first[i].units())
                    + n * (cash_axis_bound() + one_unit()),
        decreases steps@.len() - n,
    {
        let st = steps[n];
        assert(steps@.take(n + 1).drop_last() =~= steps@.take(n as int));
        assert(steps@.take(n + 1).last() == st);
        let k = match resolve_timing(today, st.month_index, st.date) {
            None => {
                proof {
                    lemma_steps_error_stays(first, steps@, today, months as int, n + 1, steps@.len() as int);
                    assert(steps@.take(steps@.len() as int) =~= steps@);
                }
                return Err(SimError::IncomeStepDateOutOfHorizon);
            },
            Some(k) => k,
        };
        if k < 1 || k > months {
            proof {
                lemma_steps_error_stays(first, steps@, today, months as int, n + 1, steps@.len() as int);
                assert(steps@.take(steps@.len() as int) =~= steps@);
            }
            return Err(SimError::IncomeStepMonthOutOfRange { months });
        }
        proof {
            assert(n * (cash_axis_bound() + one_unit()) <= cash_slot_bound()) by (nonlinear_arith)
                requires
                    n <= 24,
                    cash_axis_bound() == 1_000_000_000_000_000 * one_unit(),
                    cash_slot_bound() == 1_000_000_000_000_000_000_000_000 * one_unit(),
                    one_unit() == 10000000000000000000000000000,
            ;
            assert forall|i: int| 0 <= i < adj@.len() implies abs((#[trigger] adj@[i]).units()) <= 2
                * cash_slot_bound() by {
                assert(abs(first[i].units()) <= cash_slot_bound());
            }
        }
        add_from_month(adj, (k - 1) as usize, st.delta_monthly);
        n = n + 1;
        proof {
            assert forall|i: int| 0 <= i < adj@.len() implies abs((#[trigger] adj@[i]).units())
                <= abs(first[i].units()) + n * (cash_axis_bound() + one_unit()) by {
                assert((n - 1) * (cash_axis_bound() + one_unit()) + cash_axis_bound() + one_unit()
                    == n * (cash_axis_bound() + one_unit())) by (nonlinear_arith);
            }
        }
    }
    assert(steps@.take(steps@.len() as int) =~= steps@);
    Ok(())
}

/// The real growth factor of month `i` (exactly one at month 0 or without growth).
pub open spec fn real_factor(g: Dec, i: int) -> Dec {
    if g.units() == 0 || i == 0 {
        Dec::of(1, 0)
    } else {
        growth_of(g, i)
    }
}

/// What the real income growth adds to month `i`: `income x (factor - 1)`.
pub open spec fn growth_extra(base_income: Dec, g: Dec, i: int) -> Dec {
    product_of(base_income, difference(real_factor(g, i), Dec::of(1, 0)))
}

/// The bound on the monthly income the growth axis compounds (10^22 whole units): with a growth
/// factor of at most 10^6 (20 % a year over 70 years), the extra income stays within the range
/// of a decimal.
pub open spec fn growth_income_bound() -> int {
    10_000_000_000_000_000_000_000 * one_unit()
}

/// The real income growth of the scenario: each month before `stop` (the first month already
/// retired) earns `income x ((1 + g)^(i/12) - 1)` more; month 0 earns exactly nothing more.
pub fn apply_income_growth(adj: &mut Vec<Dec>, base_income: Dec, g: Dec, stop: u32)
    requires
        old(adj)@.len() <= crate::deflate::MAX_DEFLATE_MONTH_INDEX,
        MIN_INCOME_GROWTH_PCT * one_unit() <= g.units() <= MAX_INCOME_GROWTH_PCT * one_unit(),
        abs(base_income.units()) <= growth_income_bound(),
        slots_bounded(old(adj)@),
    ensures
        final(adj)@.len() == old(adj)@.len(),
        forall|i: int|
            0 <= i < final(adj)@.len() ==> #[trigger] final(adj)@[i] == (if i < stop {
                sum_of(old(adj)@[i], growth_extra(base_income, g, i))
            } else {
                old(adj)@[i]
            }),
{
    let one = Dec::one();
    let mut i: usize = 0;
    while i < adj.len() && i < stop as usize
        invariant
            0 <= i <= adj@.len(),
            adj@.len() == old(adj)@.len() <= crate::deflate::MAX_DEFLATE_MONTH_INDEX,
            i <= stop,
            one == Dec::of(1, 0),
            one.units() == one_unit(),
            MIN_INCOME_GROWTH_PCT * one_unit() <= g.units() <= MAX_INCOME_GROWTH_PCT * one_unit(),
            abs(base_income.units()) <= growth_income_bound(),
            slots_bounded(old(adj)@),
            forall|j: int| i <= j < adj@.len() ==> adj@[j] == old(adj)@[j],
            forall|j: int|
                0 <= j < i ==> #[trigger] adj@[j] == sum_of(
                    old(adj)@[j],
                    growth_extra(base_income, g, j),
                ),
        decreases adj@.len() - i,
    {
        let factor = real_growth_factor_at_month_index(g, i as u32);
        let lift = minus(factor, one);
        proof {
            assert(abs(base_income.units() * lift.units()) <= 5 * crate::decimal::safe_units()
                * one_unit() / 7) by (nonlinear_arith)
                requires
                    abs(base_income.units()) <= 10_000_000_000_000_000_000_000 * one_unit(),
                    abs(lift.units()) <= 1_000_001 * one_unit(),
                    crate::decimal::safe_units() == 7 * one_unit() * one_unit(),
                    one_unit() == 10000000000000000000000000000,
            ;
        }
        let p = crate::decimal::dec_mul(base_income, lift);
        p.bounds();
        proof {
            crate::decimal::lemma_dec_of(p.mantissa(), p.scale());
            assert(abs(p.units()) <= 6 * crate::decimal::safe_units() / 7) by (nonlinear_arith)
                requires
                    abs(p.units() * one_unit() - base_income.units() * lift.units()) <= one_unit()
                        * one_unit(),
                    abs(base_income.units() * lift.units()) <= 5 * crate::decimal::safe_units()
                        * one_unit() / 7,
                    crate::decimal::safe_units() == 7 * one_unit() * one_unit(),
                    one_unit() == 10000000000000000000000000000,
            ;
        }
        let v = plus(adj[i], p);
        adj.set(i, v);
        i = i + 1;
    }
    assert forall|j: int| 0 <= j < adj@.len() implies #[trigger] adj@[j] == (if j < stop {
        sum_of(old(adj)@[j], growth_extra(base_income, g, j))
    } else {
        old(adj)@[j]
    }) by {
        if j < stop {
            assert(j < i);
        }
    }
}

/// The first month of the income pause, 1-based and within the horizon, or why not.
pub open spec fn pause_month(today: Date, p: IncomePauseSpec, months: int) -> Result<int, SimError> {
    match timing_month(today, p.from_month_index, p.from_date) {
        None => Err(SimError::IncomePauseDateOutOfHorizon),
        Some(k) => if 1 <= k <= months {
            Ok(k)
        } else {
            Err(SimError::IncomePauseMonthOutOfRange { months: months as u32 })
        },
    }
}

/// The first month of the income pause.
pub fn resolve_income_pause(p: &IncomePauseSpec, today: Date, months: u32) -> (r: Result<u32, SimError>)
    requires
        (p.from_month_index is Some) != (p.from_date is Some),
    ensures
        match pause_month(today, *p, months as int) {
            Ok(k) => r == Ok::<u32, SimError>(k as u32),
            Err(e) => r == Err::<u32, SimError>(e),
        },
{
    match resolve_timing(today, p.from_month_index, p.from_date) {
        None => Err(SimError::IncomePauseDateOutOfHorizon),
        Some(k) => if k < 1 || k > months {
            Err(SimError::IncomePauseMonthOutOfRange { months })
        } else {
            Ok(k)
        },
    }
}


// ---------------------------------------------------------------------------------------------
// Liability and asset overrides
// ---------------------------------------------------------------------------------------------

/// A liability as the scenario's overrides read and change it.
#[derive(Clone, Copy, Debug, PartialEq, Eq)]
pub struct LiabilityTerms {
    pub repayment_model: RepaymentModel,
    pub apr_percent: Option<Dec>,
    /// The declared instalment; a payment plan is active when it is positive.
    pub monthly_payment: Dec,
    pub min_payment_pct: Option<Dec>,
    pub min_payment_eur: Option<Dec>,
    pub early_repayment_fee_pct: Option<Dec>,
    pub early_repayment_effect: EarlyRepaymentEffect,
    pub extra_principal_monthly: Dec,
}

/// An optional amount that is present and positive.
pub open spec fn is_positive(v: Option<Dec>) -> bool {
    v matches Some(x) && x.units() > 0
}

/// The model the scenario runs: the override's, else the stored one.
pub open spec fn effective_model(t: LiabilityTerms, ov: LiabilityOverrideSpec) -> RepaymentModel {
    match ov.repayment_model {
        Some(m) => m,
        None => t.repayment_model,
    }
}

/// The rate the scenario runs: the override's, else the stored one.
pub open spec fn effective_apr(t: LiabilityTerms, ov: LiabilityOverrideSpec) -> Option<Dec> {
    match ov.apr_percent {
        Some(a) => Some(a),
        None => t.apr_percent,
    }
}

/// The override amortizes (monthly or at once).
pub open spec fn wants_amortization(ov: LiabilityOverrideSpec) -> bool {
    ov.extra_monthly_principal is Some || ov.lump_sum_amount is Some
}

/// The gates against an override that would silently change nothing: a rate on a model that
/// does not accrue; an accruing model without a positive rate; amortizing without a payment
/// plan; a fee or effect without amortization; a revolving credit without minimums; reducing
/// the payment of a revolving credit.
pub open spec fn override_gate_violation(t: LiabilityTerms, ov: LiabilityOverrideSpec) -> Option<SimError> {
    let model = effective_model(t, ov);
    if ov.apr_percent is Some && !model.spec_accrues() {
        Some(SimError::LiabilityAprIgnoredByRepaymentModel)
    } else if model.spec_accrues() && !is_positive(effective_apr(t, ov)) {
        Some(SimError::LiabilityRepaymentModelNeedsApr)
    } else if wants_amortization(ov) && t.monthly_payment.units() <= 0 {
        Some(SimError::LiabilityOverrideNeedsPaymentPlan)
    } else if !wants_amortization(ov) && (ov.early_repayment_fee_pct is Some
        || ov.early_repayment_effect is Some) {
        Some(SimError::LiabilityEarlyRepaymentAxisNeedsAmortization)
    } else if model == RepaymentModel::Revolving && !(is_positive(t.min_payment_pct) || is_positive(
        t.min_payment_eur,
    )) {
        Some(SimError::LiabilityOverrideRevolvingNeedsMinimums)
    } else if ov.early_repayment_effect == Some(EarlyRepaymentEffect::ReducePayment) && model
        == RepaymentModel::Revolving {
        Some(SimError::ReducePaymentIgnoredByRepaymentModel)
    } else {
        None
    }
}

/// The terms after an override that passed its gates: the effective model and rate; with
/// amortization, the fee (2 % when not named) and the effect (shorter term when not named); the
/// extra monthly principal when named.
pub open spec fn overridden_terms(t: LiabilityTerms, ov: LiabilityOverrideSpec) -> LiabilityTerms {
    LiabilityTerms {
        repayment_model: effective_model(t, ov),
        apr_percent: effective_apr(t, ov),
        early_repayment_fee_pct: if wants_amortization(ov) {
            Some(
                match ov.early_repayment_fee_pct {
                    Some(f) => f,
                    None => Dec::of(DEFAULT_EARLY_REPAYMENT_FEE_PCT as int, 0),
                },
            )
        } else {
            t.early_repayment_fee_pct
        },
        early_repayment_effect: if wants_amortization(ov) {
            match ov.early_repayment_effect {
                Some(e) => e,
                None => EarlyRepaymentEffect::ReduceTerm,
            }
        } else {
            t.early_repayment_effect
        },
        extra_principal_monthly: match ov.extra_monthly_principal {
            Some(x) => x,
            None => t.extra_principal_monthly,
        },
        ..t
    }
}

/// The 1-based month of the override's lump sum (none without one), or why it names no month of
/// the horizon.
pub open spec fn lump_sum_month(today: Date, ov: LiabilityOverrideSpec, months: int) -> Result<
    Option<int>,
    SimError,
> {
    match ov.lump_sum_amount {
        None => Ok(None),
        Some(_) => match timing_month(today, ov.lump_sum_month_index, ov.lump_sum_date) {
            None => Err(SimError::LiabilityLumpSumDateOutOfHorizon),
            Some(k) => if 1 <= k <= months {
                Ok(Some(k))
            } else {
                Err(SimError::LiabilityLumpSumMonthOutOfRange)
            },
        },
    }
}

/// One override on one liability: its gates, then its new terms and its lump sum (month and
/// amount).
pub open spec fn override_outcome(t: LiabilityTerms, ov: LiabilityOverrideSpec, today: Date, months: int) -> Result<
    (LiabilityTerms, Option<(int, Dec)>),
    SimError,
> {
    match override_gate_violation(t, ov) {
        Some(e) => Err(e),
        None => match lump_sum_month(today, ov, months) {
            Err(e) => Err(e),
            Ok(None) => Ok((overridden_terms(t, ov), None)),
            Ok(Some(k)) => Ok((overridden_terms(t, ov), Some((k, ov.lump_sum_amount.unwrap())))),
        },
    }
}

fn has_minimums(t: &LiabilityTerms) -> (r: bool)
    ensures
        r == (is_positive(t.min_payment_pct) || is_positive(t.min_payment_eur)),
{
    let pct = match t.min_payment_pct {
        Some(p) => !is_at_most(p, 0),
        None => false,
    };
    let eur = match t.min_payment_eur {
        Some(e) => !is_at_most(e, 0),
        None => false,
    };
    pct || eur
}

/// Law: an accepted override changes the terms it names and keeps the others. The model, the
/// rate and the extra monthly principal are the override's when it names them and the stored
/// ones otherwise; the instalment and the minimums never change; a lump sum comes out exactly
/// when the override has one, with its amount, at a month of the horizon. A rate named for a
/// model that does not accrue interest is refused, and amortizing without a payment plan too.
pub proof fn law_override_changes_what_it_names(
    t: LiabilityTerms,
    ov: LiabilityOverrideSpec,
    today: Date,
    months: int,
)
    ensures
        override_outcome(t, ov, today, months) is Ok ==> ({
            let (terms, lump) = override_outcome(t, ov, today, months).unwrap();
            &&& terms.repayment_model == (match ov.repayment_model {
                Some(m) => m,
                None => t.repayment_model,
            })
            &&& terms.apr_percent == (match ov.apr_percent {
                Some(a) => Some(a),
                None => t.apr_percent,
            })
            &&& terms.extra_principal_monthly == (match ov.extra_monthly_principal {
                Some(x) => x,
                None => t.extra_principal_monthly,
            })
            &&& terms.monthly_payment == t.monthly_payment
            &&& terms.min_payment_pct == t.min_payment_pct
            &&& terms.min_payment_eur == t.min_payment_eur
            &&& (lump is Some <==> ov.lump_sum_amount is Some)
            &&& (lump matches Some(l) ==> l.1 == ov.lump_sum_amount.unwrap() && 1 <= l.0 <= months)
        }),
        ov.apr_percent is Some && !(match ov.repayment_model {
            Some(m) => m,
            None => t.repayment_model,
        }).spec_accrues() ==> override_outcome(t, ov, today, months) == Err::<
            (LiabilityTerms, Option<(int, Dec)>),
            SimError,
        >(SimError::LiabilityAprIgnoredByRepaymentModel),
        override_outcome(t, ov, today, months) is Ok && (ov.extra_monthly_principal is Some
            || ov.lump_sum_amount is Some) ==> t.monthly_payment.units() > 0,
{
}

/// One override applied to one liability: the gates against a silent no-op, then the new terms
/// and the lump sum to add (its 1-based month and amount).
pub fn apply_liability_override(
    t: LiabilityTerms,
    ov: &LiabilityOverrideSpec,
    today: Date,
    months: u32,
) -> (r: Result<(LiabilityTerms, Option<(u32, Dec)>), SimError>)
    requires
        lump_sum_violation(*ov) is None,
    ensures
        match override_outcome(t, *ov, today, months as int) {
            Err(e) => r == Err::<(LiabilityTerms, Option<(u32, Dec)>), SimError>(e),
            Ok((terms, lump)) => r matches Ok((rt, rl)) && rt == terms && match lump {
                None => rl is None,
                Some((k, a)) => rl == Some((k as u32, a)),
            },
        },
{
    let model = match ov.repayment_model {
        Some(m) => m,
        None => t.repayment_model,
    };
    let apr = match ov.apr_percent {
        Some(a) => Some(a),
        None => t.apr_percent,
    };
    let accrues = model.accrues();
    if ov.apr_percent.is_some() && !accrues {
        return Err(SimError::LiabilityAprIgnoredByRepaymentModel);
    }
    let apr_positive = match apr {
        Some(a) => !is_at_most(a, 0),
        None => false,
    };
    if accrues && !apr_positive {
        return Err(SimError::LiabilityRepaymentModelNeedsApr);
    }
    let wants = ov.extra_monthly_principal.is_some() || ov.lump_sum_amount.is_some();
    if wants && is_at_most(t.monthly_payment, 0) {
        return Err(SimError::LiabilityOverrideNeedsPaymentPlan);
    }
    if !wants && (ov.early_repayment_fee_pct.is_some() || ov.early_repayment_effect.is_some()) {
        return Err(SimError::LiabilityEarlyRepaymentAxisNeedsAmortization);
    }
    let revolving = match model {
        RepaymentModel::Revolving => true,
        _ => false,
    };
    if revolving && !has_minimums(&t) {
        return Err(SimError::LiabilityOverrideRevolvingNeedsMinimums);
    }
    let reduce_payment = match ov.early_repayment_effect {
        Some(EarlyRepaymentEffect::ReducePayment) => true,
        _ => false,
    };
    if reduce_payment && revolving {
        return Err(SimError::ReducePaymentIgnoredByRepaymentModel);
    }
    let mut terms = t;
    terms.repayment_model = model;
    if wants {
        terms.early_repayment_fee_pct = Some(
            match ov.early_repayment_fee_pct {
                Some(f) => f,
                None => Dec::from_i64(DEFAULT_EARLY_REPAYMENT_FEE_PCT),
            },
        );
        terms.early_repayment_effect = match ov.early_repayment_effect {
            Some(e) => e,
            None => EarlyRepaymentEffect::ReduceTerm,
        };
    }
    terms.apr_percent = apr;
    if let Some(extra) = ov.extra_monthly_principal {
        terms.extra_principal_monthly = extra;
    }
    let lump = match ov.lump_sum_amount {
        None => None,
        Some(amount) => {
            let k = match resolve_timing(today, ov.lump_sum_month_index, ov.lump_sum_date) {
                None => {
                    return Err(SimError::LiabilityLumpSumDateOutOfHorizon);
                },
                Some(k) => k,
            };
            if k < 1 || k > months {
                return Err(SimError::LiabilityLumpSumMonthOutOfRange);
            }
            Some((k, amount))
        },
    };
    Ok((terms, lump))
}

/// The first position at or after `i` whose id is `id`.
pub open spec fn position_from(ids: Seq<u128>, id: u128, i: int) -> Option<int>
    decreases ids.len() - i,
{
    if i < 0 || i >= ids.len() {
        None
    } else if ids[i] == id {
        Some(i)
    } else {
        position_from(ids, id, i + 1)
    }
}

fn position_of(ids: &Vec<u128>, id: u128) -> (r: Option<usize>)
    ensures
        r matches Some(i) ==> position_from(ids@, id, 0) == Some(i as int) && i < ids@.len(),
        r is None ==> position_from(ids@, id, 0) is None,
{
    let mut i: usize = 0;
    while i < ids.len()
        invariant
            0 <= i <= ids@.len(),
            position_from(ids@, id, 0) == position_from(ids@, id, i as int),
        decreases ids@.len() - i,
    {
        if ids[i] == id {
            assert(position_from(ids@, id, i as int) == Some(i as int));
            return Some(i);
        }
        i = i + 1;
    }
    None
}

/// The liabilities and lump sums after the overrides, in order: each names a liability in scope
/// by its id (the first with that id) and applies to its current terms; the first failure is the
/// error.
pub open spec fn overrides_applied(
    liabs: Seq<LiabilityTerms>,
    ids: Seq<u128>,
    ovs: Seq<LiabilityOverrideSpec>,
    today: Date,
    months: int,
) -> Result<(Seq<LiabilityTerms>, Seq<(int, int, Dec)>), SimError>
    decreases ovs.len(),
{
    if ovs.len() == 0 {
        Ok((liabs, Seq::empty()))
    } else {
        match overrides_applied(liabs, ids, ovs.drop_last(), today, months) {
            Err(e) => Err(e),
            Ok((cur, lumps)) => {
                let ov = ovs.last();
                match position_from(ids, ov.liability_id, 0) {
                    None => Err(SimError::LiabilityNotInScope { liability_id: ov.liability_id }),
                    Some(idx) => match override_outcome(cur[idx], ov, today, months) {
                        Err(e) => Err(e),
                        Ok((terms, None)) => Ok((cur.update(idx, terms), lumps)),
                        Ok((terms, Some((k, a)))) => Ok(
                            (cur.update(idx, terms), lumps.push((idx, k, a))),
                        ),
                    },
                }
            },
        }
    }
}

proof fn lemma_overrides_error_stays(
    liabs: Seq<LiabilityTerms>,
    ids: Seq<u128>,
    ovs: Seq<LiabilityOverrideSpec>,
    today: Date,
    months: int,
    k: int,
    n: int,
)
    requires
        0 <= k <= n <= ovs.len(),
        overrides_applied(liabs, ids, ovs.take(k), today, months) is Err,
    ensures
        overrides_applied(liabs, ids, ovs.take(n), today, months) == overrides_applied(
            liabs,
            ids,
            ovs.take(k),
            today,
            months,
        ),
    decreases n - k,
{
    if n > k {
        lemma_overrides_error_stays(liabs, ids, ovs, today, months, k, n - 1);
        assert(ovs.take(n).drop_last() =~= ovs.take(n - 1));
    }
}

/// The liability overrides of the scenario. In real-expense mode (the instalments already live
/// inside the transactions average) they cannot move anything and are refused; otherwise each
/// must name a liability in scope and pass its gates. Returns the new terms (parallel to
/// `liabs`) and the lump sums to add, as (liability position, 1-based month, amount).
pub fn apply_liability_overrides(
    liabs: &Vec<LiabilityTerms>,
    ids: &Vec<u128>,
    ovs: &Vec<LiabilityOverrideSpec>,
    real_expense_mode: bool,
    today: Date,
    months: u32,
) -> (r: Result<(Vec<LiabilityTerms>, Vec<(usize, u32, Dec)>), SimError>)
    requires
        ids@.len() == liabs@.len(),
        forall|i: int| 0 <= i < ovs@.len() ==> lump_sum_violation(#[trigger] ovs@[i]) is None,
    ensures
        ovs@.len() > 0 && real_expense_mode ==> r == Err::<
            (Vec<LiabilityTerms>, Vec<(usize, u32, Dec)>),
            SimError,
        >(SimError::LiabilityOverridesUnavailableInRealExpenseMode),
        !(ovs@.len() > 0 && real_expense_mode) ==> match overrides_applied(
            liabs@,
            ids@,
            ovs@,
            today,
            months as int,
        ) {
            Err(e) => r == Err::<(Vec<LiabilityTerms>, Vec<(usize, u32, Dec)>), SimError>(e),
            Ok((terms, lumps)) => r matches Ok((rt, rl)) && rt@ == terms && rl@.len() == lumps.len()
                && forall|i: int|
                0 <= i < lumps.len() ==> (#[trigger] rl@[i]).0 == lumps[i].0 && rl@[i].1
                    == lumps[i].1 && rl@[i].2 == lumps[i].2,
        },
{
    if ovs.len() > 0 && real_expense_mode {
        return Err(SimError::LiabilityOverridesUnavailableInRealExpenseMode);
    }
    let mut cur: Vec<LiabilityTerms> = liabs.clone();
    assert(cur@ =~= liabs@);
    let mut lumps: Vec<(usize, u32, Dec)> = Vec::new();
    let mut n: usize = 0;
    while n < ovs.len()
        invariant
            0 <= n <= ovs@.len(),
            !(ovs@.len() > 0 && real_expense_mode),
            ids@.len() == liabs@.len(),
            forall|i: int| 0 <= i < ovs@.len() ==> lump_sum_violation(#[trigger] ovs@[i]) is None,
            overrides_applied(liabs@, ids@, ovs@.take(n as int), today, months as int) matches Ok(
                (t, l),
            ) && cur@ == t && lumps@.len() == l.len() && forall|i: int|
                0 <= i < l.len() ==> (#[trigger] lumps@[i]).0 == l[i].0 && lumps@[i].1 == l[i].1
                    && lumps@[i].2 == l[i].2,
            cur@.len() == liabs@.len(),
        decreases ovs@.len() - n,
    {
        let ov = &ovs[n];
        assert(ovs@.take(n + 1).drop_last() =~= ovs@.take(n as int));
        assert(ovs@.take(n + 1).last() == *ov);
        let idx = match position_of(ids, ov.liability_id) {
            None => {
                proof {
                    lemma_overrides_error_stays(liabs@, ids@, ovs@, today, months as int, n + 1, ovs@.len() as int);
                    assert(ovs@.take(ovs@.len() as int) =~= ovs@);
                }
                return Err(SimError::LiabilityNotInScope { liability_id: ov.liability_id });
            },
            Some(i) => i,
        };
        assert(lump_sum_violation(ovs@[n as int]) is None);
        match apply_liability_override(cur[idx], ov, today, months) {
            Err(e) => {
                proof {
                    lemma_overrides_error_stays(liabs@, ids@, ovs@, today, months as int, n + 1, ovs@.len() as int);
                    assert(ovs@.take(ovs@.len() as int) =~= ovs@);
                }
                return Err(e);
            },
            Ok((terms, lump)) => {
                cur.set(idx, terms);
                match lump {
                    None => {},
                    Some((k, a)) => {
                        lumps.push((idx, k, a));
                    },
                }
            },
        }
        n = n + 1;
    }
    assert(ovs@.take(ovs@.len() as int) =~= ovs@);
    Ok((cur, lumps))
}

/// The asset rates after the overrides, in order; an unknown asset is the error.
pub open spec fn rates_applied(rates: Seq<Option<Dec>>, ids: Seq<u128>, ovs: Seq<(u128, Dec)>) -> Result<
    Seq<Option<Dec>>,
    SimError,
>
    decreases ovs.len(),
{
    if ovs.len() == 0 {
        Ok(rates)
    } else {
        match rates_applied(rates, ids, ovs.drop_last()) {
            Err(e) => Err(e),
            Ok(cur) => match position_from(ids, ovs.last().0, 0) {
                None => Err(SimError::AssetNotInScope { asset_id: ovs.last().0 }),
                Some(idx) => Ok(cur.update(idx, Some(ovs.last().1))),
            },
        }
    }
}

proof fn lemma_rates_error_stays(
    rates: Seq<Option<Dec>>,
    ids: Seq<u128>,
    ovs: Seq<(u128, Dec)>,
    k: int,
    n: int,
)
    requires
        0 <= k <= n <= ovs.len(),
        rates_applied(rates, ids, ovs.take(k)) is Err,
    ensures
        rates_applied(rates, ids, ovs.take(n)) == rates_applied(rates, ids, ovs.take(k)),
    decreases n - k,
{
    if n > k {
        lemma_rates_error_stays(rates, ids, ovs, k, n - 1);
        assert(ovs.take(n).drop_last() =~= ovs.take(n - 1));
    }
}

/// A position found is one of `ids` holding `id`; none found means no id from `i` on is `id`.
proof fn lemma_position_from(ids: Seq<u128>, id: u128, i: int)
    requires
        0 <= i,
    ensures
        position_from(ids, id, i) matches Some(p) ==> i <= p < ids.len() && ids[p] == id,
        position_from(ids, id, i) is None ==> forall|j: int| i <= j < ids.len() ==> ids[j] != id,
    decreases ids.len() - i,
{
    if i < ids.len() && ids[i] != id {
        lemma_position_from(ids, id, i + 1);
    }
}

/// Law: the asset-return overrides touch only the assets they name. An asset that no override
/// names keeps its expected return; the asset the last override names takes that override's
/// return; and an override naming no asset in scope is refused.
pub proof fn law_return_overrides_touch_what_they_name(
    rates: Seq<Option<Dec>>,
    ids: Seq<u128>,
    ovs: Seq<(u128, Dec)>,
)
    requires
        ids.len() == rates.len(),
    ensures
        rates_applied(rates, ids, ovs) matches Ok(v) ==> v.len() == rates.len(),
        rates_applied(rates, ids, ovs) matches Ok(v) ==> forall|i: int|
            0 <= i < rates.len() && (forall|o: int| 0 <= o < ovs.len() ==> (#[trigger] ovs[o]).0
                != ids[i]) ==> #[trigger] v[i] == rates[i],
        rates_applied(rates, ids, ovs) matches Ok(v) ==> (ovs.len() > 0 ==> exists|idx: int|
            0 <= idx < ids.len() && ids[idx] == ovs.last().0 && #[trigger] v[idx] == Some(
                ovs.last().1,
            )),
        (exists|o: int|
            0 <= o < ovs.len() && forall|i: int| 0 <= i < ids.len() ==> ids[i] != (
            #[trigger] ovs[o]).0) ==> rates_applied(rates, ids, ovs) is Err,
    decreases ovs.len(),
{
    if ovs.len() > 0 {
        let init = ovs.drop_last();
        law_return_overrides_touch_what_they_name(rates, ids, init);
        lemma_position_from(ids, ovs.last().0, 0);
        if let Ok(v) = rates_applied(rates, ids, ovs) {
            let cur = rates_applied(rates, ids, init).unwrap();
            let idx = position_from(ids, ovs.last().0, 0).unwrap();
            assert(v == cur.update(idx, Some(ovs.last().1)));
            assert forall|i: int|
                0 <= i < rates.len() && (forall|o: int| 0 <= o < ovs.len() ==> (#[trigger] ovs[o]).0
                    != ids[i]) implies #[trigger] v[i] == rates[i] by {
                assert forall|o: int| 0 <= o < init.len() implies (#[trigger] init[o]).0 != ids[i] by {
                    assert(init[o] == ovs[o]);
                }
                assert(ovs[ovs.len() - 1].0 != ids[i]);
                assert(i != idx);
            }
            assert(ids[idx] == ovs.last().0 && v[idx] == Some(ovs.last().1));
        }
        if exists|o: int|
            0 <= o < ovs.len() && forall|i: int| 0 <= i < ids.len() ==> ids[i] != (
            #[trigger] ovs[o]).0 {
            let o = choose|o: int|
                0 <= o < ovs.len() && forall|i: int| 0 <= i < ids.len() ==> ids[i] != (
                #[trigger] ovs[o]).0;
            if o < init.len() {
                assert(init[o] == ovs[o]);
            } else {
                if let Some(p) = position_from(ids, ovs.last().0, 0) {
                    assert(ids[p] == ovs[o].0);
                }
            }
        }
    }
}

/// The expected yearly returns of the scenario's assets after the per-asset overrides: each
/// names an asset in scope by its id.
pub fn apply_asset_return_overrides(
    rates: &Vec<Option<Dec>>,
    ids: &Vec<u128>,
    ovs: &Vec<(u128, Dec)>,
) -> (r: Result<Vec<Option<Dec>>, SimError>)
    requires
        ids@.len() == rates@.len(),
    ensures
        match rates_applied(rates@, ids@, ovs@) {
            Err(e) => r == Err::<Vec<Option<Dec>>, SimError>(e),
            Ok(v) => r matches Ok(out) && out@ == v,
        },
{
    let mut cur: Vec<Option<Dec>> = rates.clone();
    assert(cur@ =~= rates@);
    let mut n: usize = 0;
    while n < ovs.len()
        invariant
            0 <= n <= ovs@.len(),
            ids@.len() == rates@.len(),
            cur@.len() == rates@.len(),
            rates_applied(rates@, ids@, ovs@.take(n as int)) == Ok::<Seq<Option<Dec>>, SimError>(
                cur@,
            ),
        decreases ovs@.len() - n,
    {
        let (id, pct) = ovs[n];
        assert(ovs@.take(n + 1).drop_last() =~= ovs@.take(n as int));
        assert(ovs@.take(n + 1).last() == (id, pct));
        match position_of(ids, id) {
            None => {
                proof {
                    lemma_rates_error_stays(rates@, ids@, ovs@, n + 1, ovs@.len() as int);
                    assert(ovs@.take(ovs@.len() as int) =~= ovs@);
                }
                return Err(SimError::AssetNotInScope { asset_id: id });
            },
            Some(idx) => {
                let ghost before = cur@;
                cur.set(idx, Some(pct));
                assert(rates_applied(rates@, ids@, ovs@.take(n + 1)) == Ok::<
                    Seq<Option<Dec>>,
                    SimError,
                >(before.update(idx as int, Some(pct))));
                assert(cur@ == before.update(idx as int, Some(pct)));
            },
        }
        n = n + 1;
    }
    assert(ovs@.take(ovs@.len() as int) =~= ovs@);
    Ok(cur)
}


// ---------------------------------------------------------------------------------------------
// Deltas between the two sides
// ---------------------------------------------------------------------------------------------

/// The figures of one side of a what-if that the deltas compare. Amounts are published money
/// (at most 4 decimal places); fractions are in `[0, 1]`.
#[derive(Clone, Copy, Debug)]
pub struct SideFigures {
    pub jubilacion_month_index: Option<u32>,
    pub assets_depleted_month_index: Option<u32>,
    pub final_net_worth: Dec,
    pub final_net_worth_real: Dec,
    pub fire_number_classic_today: Option<Dec>,
    pub runway_months: Option<Dec>,
    pub income_monthly: Dec,
    pub expense_total_monthly: Dec,
    pub net_recurring_monthly: Dec,
    pub net_cash_monthly: Dec,
    pub liability_extra_principal_monthly: Dec,
    pub liability_early_repayment_fee_total: Dec,
    pub liability_total_interest: Dec,
    pub liability_debt_free_month_index: Option<u32>,
    pub success_of_plan: Option<Dec>,
    pub needed_capital_today: Option<Dec>,
    pub contribution_required_monthly: Option<Dec>,
    pub coast_stop_month_index: Option<u32>,
    pub annual_inflation_percent: Dec,
}

/// `scenario - baseline` of every figure both sides publish.
#[derive(Clone, Copy, Debug)]
pub struct SimDeltas {
    pub jubilacion_months_delta: Option<i64>,
    pub assets_depleted_months_delta: Option<i64>,
    pub final_net_worth_delta: Dec,
    pub final_net_worth_real_delta: Option<Dec>,
    pub real_delta_absent_reason: Option<&'static str>,
    pub fire_number_classic_today_delta: Option<Dec>,
    pub runway_months_delta: Option<Dec>,
    pub income_monthly_delta: Dec,
    pub expense_total_monthly_delta: Dec,
    pub net_recurring_monthly_delta: Dec,
    pub net_cash_monthly_delta: Dec,
    pub savings_rate_delta: Option<Dec>,
    pub liability_extra_principal_monthly_delta: Dec,
    pub liability_early_repayment_fee_total_delta: Dec,
    pub liability_total_interest_delta: Dec,
    pub liability_debt_free_months_delta: Option<i64>,
    pub success_of_plan_delta: Option<Dec>,
    pub needed_capital_today_delta: Option<Dec>,
    pub contribution_required_monthly_delta: Option<Dec>,
    pub coast_stop_months_delta: Option<i64>,
}

/// Decimal places of the savings rate and of the fraction deltas.
pub const SIM_RATIO_DP: u32 = 6;

/// Why the real delta is absent: the two sides deflate with different inflations.
pub const REAL_DELTA_INCOMPARABLE: &'static str = "incomparable_deflators";

/// The difference of two month indices; absent as soon as either side is.
pub open spec fn months_delta_of(b: Option<u32>, s: Option<u32>) -> Option<i64> {
    match (b, s) {
        (Some(b), Some(s)) => Some((s - b) as i64),
        _ => None,
    }
}

/// `scenario - baseline` of two month indices, absent as soon as either side is: subtracting
/// against "this side does not answer" would invent a number.
pub fn months_delta(b: Option<u32>, s: Option<u32>) -> (r: Option<i64>)
    ensures
        r == months_delta_of(b, s),
        r matches Some(d) ==> d == s.unwrap() - b.unwrap(),
{
    match (b, s) {
        (Some(b), Some(s)) => Some(s as i64 - b as i64),
        _ => None,
    }
}

/// A money delta: `money_of(scenario - baseline)`.
pub open spec fn money_delta(b: Dec, s: Dec) -> Dec {
    money_of(difference(s, b))
}

/// `round_dp(x, 6)` as `rust_decimal` rounds.
pub open spec fn ratio_of(x: Dec) -> Dec {
    let p = crate::decimal::decimal_round_dp(x.mantissa(), x.scale(), SIM_RATIO_DP as nat);
    Dec::of(p.0, p.1)
}

/// A loop month of the engine on the published grid (loop month `k` is grid month `k - 1`).
pub open spec fn on_grid(k: Option<u32>) -> Option<u32> {
    match k {
        Some(k) => Some(
            if k > 0 {
                (k - 1) as u32
            } else {
                0u32
            },
        ),
        None => None,
    }
}

/// What the level-1 plan of a side brings (months in the engine's loop).
#[derive(Clone, Copy, Debug)]
pub struct PlanReading {
    pub coast_stop_month_index: Option<u32>,
    pub partial_start_month_index: Option<u32>,
    pub needed_capital_today: Option<Dec>,
    pub contribution_required_monthly: Option<Dec>,
    pub paths_used: u32,
}

/// The plan's figures of a side, on the published grid.
#[derive(Clone, Copy, Debug)]
pub struct PlanFigures {
    pub jubilacion_month_index: Option<u32>,
    pub safe_date_month_index: Option<u32>,
    pub success_threshold_pct: Option<u32>,
    pub date_solved_with_paths: Option<u32>,
    pub needed_capital_today: Option<Dec>,
    pub contribution_required_monthly: Option<Dec>,
    pub coast_stop_month_index: Option<u32>,
    pub partial_start_month_index: Option<u32>,
}

/// The plan's figures of a side: the retirement month is the engine's effective one on the grid;
/// the safe date is that same month, but only with a plan; without a plan every figure of the
/// plan is absent (a date without a plan would be invented).
pub fn plan_figures_of(retirement_loop_month: Option<u32>, plan: Option<PlanReading>, threshold_pct: u32) -> (r:
    PlanFigures)
    ensures
        r.jubilacion_month_index == on_grid(retirement_loop_month),
        plan is None ==> {
            &&& r.safe_date_month_index is None
            &&& r.success_threshold_pct is None
            &&& r.date_solved_with_paths is None
            &&& r.needed_capital_today is None
            &&& r.contribution_required_monthly is None
            &&& r.coast_stop_month_index is None
            &&& r.partial_start_month_index is None
        },
        plan matches Some(p) ==> {
            &&& r.safe_date_month_index == on_grid(retirement_loop_month)
            &&& r.success_threshold_pct == Some(threshold_pct)
            &&& r.date_solved_with_paths == Some(p.paths_used)
            &&& r.needed_capital_today == p.needed_capital_today
            &&& r.contribution_required_monthly == p.contribution_required_monthly
            &&& r.coast_stop_month_index == on_grid(p.coast_stop_month_index)
            &&& r.partial_start_month_index == on_grid(p.partial_start_month_index)
        },
{
    let jubilacion = engine_month_to_grid(retirement_loop_month);
    match plan {
        None => PlanFigures {
            jubilacion_month_index: jubilacion,
            safe_date_month_index: None,
            success_threshold_pct: None,
            date_solved_with_paths: None,
            needed_capital_today: None,
            contribution_required_monthly: None,
            coast_stop_month_index: None,
            partial_start_month_index: None,
        },
        Some(p) => PlanFigures {
            jubilacion_month_index: jubilacion,
            safe_date_month_index: jubilacion,
            success_threshold_pct: Some(threshold_pct),
            date_solved_with_paths: Some(p.paths_used),
            needed_capital_today: p.needed_capital_today,
            contribution_required_monthly: p.contribution_required_monthly,
            coast_stop_month_index: engine_month_to_grid(p.coast_stop_month_index),
            partial_start_month_index: engine_month_to_grid(p.partial_start_month_index),
        },
    }
}

/// What the engine answers about the liquid runway.
#[derive(Clone, Copy, Debug)]
pub enum RunwayOutcome {
    /// It runs out after this many months.
    Months(Dec),
    /// The safe withdrawal covers the spending and the expected return is positive.
    Indefinite,
    /// There is no spending to measure it against.
    NoExpenseBase,
}

/// The runway as a side publishes it: the months to one decimal, or none with the flag saying
/// whether it is indefinite.
pub fn runway_reading(o: RunwayOutcome) -> (r: (Option<Dec>, bool))
    ensures
        match o {
            RunwayOutcome::Months(m) => !r.1 && (r.0 matches Some(x) && x.is_pair(
                crate::decimal::decimal_round_dp(m.mantissa(), m.scale(), 1),
            )),
            RunwayOutcome::Indefinite => r == (None::<Dec>, true),
            RunwayOutcome::NoExpenseBase => r == (None::<Dec>, false),
        },
{
    match o {
        RunwayOutcome::Months(m) => (Some(crate::decimal::dec_round_dp(m, 1)), false),
        RunwayOutcome::Indefinite => (None, true),
        RunwayOutcome::NoExpenseBase => (None, false),
    }
}

/// The savings rate a side publishes: the net over the income, to `SIM_RATIO_DP` places, when
/// the income is positive.
pub fn savings_rate_of(income: Dec, net: Dec) -> (r: Option<Dec>)
    requires
        income.units() > 0 ==> abs(net.units() * one_unit()) <= crate::decimal::safe_units() * abs(
            income.units(),
        ),
    ensures
        r == (match raw_savings_rate(income, net) {
            Some(q) => Some(ratio_of(q)),
            None => None,
        }),
{
    proof {
        crate::decimal::lemma_int_units(0);
    }
    if is_at_most(income, 0) {
        return None;
    }
    let q = crate::decimal::dec_div(net, income);
    q.bounds();
    proof {
        crate::decimal::lemma_dec_of(q.mantissa(), q.scale());
    }
    let r = crate::decimal::dec_round_dp(q, SIM_RATIO_DP);
    r.bounds();
    proof {
        crate::decimal::lemma_dec_of(r.mantissa(), r.scale());
    }
    Some(r)
}

/// The unrounded savings rate of a side: net over income, when the income is positive.
pub open spec fn raw_savings_rate(income: Dec, net: Dec) -> Option<Dec> {
    if income.units() > 0 {
        Some(quotient_of(net, income))
    } else {
        None
    }
}

/// The bound on a published figure of a side (10^20 whole units).
pub open spec fn figure_bound() -> int {
    100_000_000_000_000_000_000 * one_unit()
}

/// A published money amount within the figure bound.
pub open spec fn published(d: Dec) -> bool {
    d.scale() <= 4 && abs(d.units()) <= figure_bound()
}

pub open spec fn published_opt(d: Option<Dec>) -> bool {
    d matches Some(x) ==> published(x)
}

/// The figures of a side within their bounds.
pub open spec fn side_ok(f: SideFigures) -> bool {
    &&& published(f.final_net_worth)
    &&& published(f.final_net_worth_real)
    &&& published_opt(f.fire_number_classic_today)
    &&& published_opt(f.runway_months)
    &&& published(f.income_monthly)
    &&& published(f.expense_total_monthly)
    &&& published(f.net_recurring_monthly)
    &&& published(f.net_cash_monthly)
    &&& published(f.liability_extra_principal_monthly)
    &&& published(f.liability_early_repayment_fee_total)
    &&& published(f.liability_total_interest)
    &&& published_opt(f.success_of_plan)
    &&& published_opt(f.needed_capital_today)
    &&& published_opt(f.contribution_required_monthly)
}

/// The deltas of a what-if, field by field.
pub open spec fn deltas_of(b: SideFigures, s: SideFigures) -> SimDeltas {
    let comparable = b.annual_inflation_percent.units() == s.annual_inflation_percent.units();
    SimDeltas {
        jubilacion_months_delta: months_delta_of(b.jubilacion_month_index, s.jubilacion_month_index),
        assets_depleted_months_delta: months_delta_of(
            b.assets_depleted_month_index,
            s.assets_depleted_month_index,
        ),
        final_net_worth_delta: money_delta(b.final_net_worth, s.final_net_worth),
        final_net_worth_real_delta: if comparable {
            Some(money_delta(b.final_net_worth_real, s.final_net_worth_real))
        } else {
            None
        },
        real_delta_absent_reason: if comparable {
            None
        } else {
            Some(REAL_DELTA_INCOMPARABLE)
        },
        fire_number_classic_today_delta: match (
            b.fire_number_classic_today,
            s.fire_number_classic_today,
        ) {
            (Some(x), Some(y)) => Some(money_delta(x, y)),
            _ => None,
        },
        runway_months_delta: match (b.runway_months, s.runway_months) {
            (Some(x), Some(y)) => Some(difference(y, x)),
            _ => None,
        },
        income_monthly_delta: money_delta(b.income_monthly, s.income_monthly),
        expense_total_monthly_delta: money_delta(b.expense_total_monthly, s.expense_total_monthly),
        net_recurring_monthly_delta: money_delta(b.net_recurring_monthly, s.net_recurring_monthly),
        net_cash_monthly_delta: money_delta(b.net_cash_monthly, s.net_cash_monthly),
        savings_rate_delta: match (
            raw_savings_rate(b.income_monthly, b.net_recurring_monthly),
            raw_savings_rate(s.income_monthly, s.net_recurring_monthly),
        ) {
            (Some(x), Some(y)) => Some(ratio_of(difference(y, x))),
            _ => None,
        },
        liability_extra_principal_monthly_delta: money_delta(
            b.liability_extra_principal_monthly,
            s.liability_extra_principal_monthly,
        ),
        liability_early_repayment_fee_total_delta: money_delta(
            b.liability_early_repayment_fee_total,
            s.liability_early_repayment_fee_total,
        ),
        liability_total_interest_delta: money_delta(
            b.liability_total_interest,
            s.liability_total_interest,
        ),
        liability_debt_free_months_delta: months_delta_of(
            b.liability_debt_free_month_index,
            s.liability_debt_free_month_index,
        ),
        success_of_plan_delta: match (b.success_of_plan, s.success_of_plan) {
            (Some(x), Some(y)) => Some(ratio_of(difference(y, x))),
            _ => None,
        },
        needed_capital_today_delta: match (b.needed_capital_today, s.needed_capital_today) {
            (Some(x), Some(y)) => Some(money_delta(x, y)),
            _ => None,
        },
        contribution_required_monthly_delta: match (
            b.contribution_required_monthly,
            s.contribution_required_monthly,
        ) {
            (Some(x), Some(y)) => Some(money_delta(x, y)),
            _ => None,
        },
        coast_stop_months_delta: months_delta_of(b.coast_stop_month_index, s.coast_stop_month_index),
    }
}

proof fn lemma_money_floor(d: Dec)
    requires
        d.scale() <= 4,
        d.units() != 0,
    ensures
        abs(d.units()) >= 1_000_000_000_000_000_000_000_000,
{
    crate::decimal::lemma_units_divisible(d, 4);
    reveal_with_fuel(crate::decimal::pow10, 25);
    let u = d.units();
    let m = 1_000_000_000_000_000_000_000_000int;
    assert(u % m == 0);
    assert(abs(u) >= m) by (nonlinear_arith)
        requires
            u % m == 0,
            u != 0,
            m > 0,
    {
        vstd::arithmetic::div_mod::lemma_fundamental_div_mod(u, m);
    }
}

/// Two amounts of at most 4 decimal places whose difference is far inside the decimal range:
/// their difference is exact.
pub open spec fn exact_at_money_scale(a: Dec, b: Dec) -> bool {
    &&& a.scale() <= 4
    &&& b.scale() <= 4
    &&& abs(a.units() - b.units()) <= 7_000_000_000_000_000_000_000_000 * one_unit()
}

fn money_diff(b: Dec, s: Dec) -> (r: Dec)
    requires
        published(b),
        published(s),
    ensures
        r == money_delta(b, s),
        r.units() == s.units() - b.units(),
{
    let d = minus(s, b);
    money_out(d)
}

fn rate_of(income: Dec, net: Dec) -> (r: Option<Dec>)
    requires
        published(income),
        published(net),
    ensures
        r == raw_savings_rate(income, net),
        r matches Some(q) ==> abs(q.units()) <= 2 * figure_bound() * 10_000,
{
    proof {
        crate::decimal::lemma_int_units(0);
    }
    if !is_at_most(income, 0) {
        proof {
            lemma_money_floor(income);
            assert(abs(net.units() * one_unit()) <= crate::decimal::safe_units() * abs(income.units()))
                by (nonlinear_arith)
                requires
                    abs(net.units()) <= figure_bound(),
                    abs(income.units()) >= 1_000_000_000_000_000_000_000_000,
                    figure_bound() == 100_000_000_000_000_000_000 * one_unit(),
                    crate::decimal::safe_units() == 7 * one_unit() * one_unit(),
                    one_unit() == 10000000000000000000000000000,
            ;
        }
        let q = crate::decimal::dec_div(net, income);
        q.bounds();
        proof {
            crate::decimal::lemma_dec_of(q.mantissa(), q.scale());
            assert(abs(q.units()) <= 2 * figure_bound() * 10_000) by (nonlinear_arith)
                requires
                    abs(q.units() * income.units() - net.units() * one_unit()) <= one_unit() * abs(
                        income.units(),
                    ),
                    abs(net.units()) <= figure_bound(),
                    abs(income.units()) >= 1_000_000_000_000_000_000_000_000,
                    figure_bound() == 100_000_000_000_000_000_000 * one_unit(),
                    one_unit() == 10000000000000000000000000000,
            ;
        }
        Some(q)
    } else {
        None
    }
}

fn ratio_diff(b: Dec, s: Dec) -> (r: Dec)
    requires
        abs(s.units() - b.units()) <= crate::decimal::safe_units(),
    ensures
        r == ratio_of(difference(s, b)),
        exact_at_money_scale(s, b) ==> r.units() == s.units() - b.units(),
{
    let d = minus(s, b);
    let r = crate::decimal::dec_round_dp(d, SIM_RATIO_DP);
    r.bounds();
    proof {
        crate::decimal::lemma_dec_of(r.mantissa(), r.scale());
    }
    r
}

/// The deltas of a what-if: each figure as `scenario - baseline` (money rounded to 4 places,
/// fractions to 6), absent as soon as either side lacks it; the real net worth only when both
/// sides deflate with the same inflation (else the reason); the savings rate recomputed from the
/// exact net and income of each side rather than from the two rounded rates.
#[verifier::spinoff_prover]
pub fn sim_deltas(b: &SideFigures, s: &SideFigures) -> (r: SimDeltas)
    requires
        side_ok(*b),
        side_ok(*s),
    ensures
        r == deltas_of(*b, *s),
        // Every delta is the scenario's figure minus the baseline's (exact for money figures).
        r.final_net_worth_delta.units() == s.final_net_worth.units() - b.final_net_worth.units(),
        r.income_monthly_delta.units() == s.income_monthly.units() - b.income_monthly.units(),
        r.expense_total_monthly_delta.units() == s.expense_total_monthly.units()
            - b.expense_total_monthly.units(),
        r.net_recurring_monthly_delta.units() == s.net_recurring_monthly.units()
            - b.net_recurring_monthly.units(),
        r.net_cash_monthly_delta.units() == s.net_cash_monthly.units() - b.net_cash_monthly.units(),
        r.liability_extra_principal_monthly_delta.units() == s.liability_extra_principal_monthly.units()
            - b.liability_extra_principal_monthly.units(),
        r.liability_early_repayment_fee_total_delta.units()
            == s.liability_early_repayment_fee_total.units()
            - b.liability_early_repayment_fee_total.units(),
        r.liability_total_interest_delta.units() == s.liability_total_interest.units()
            - b.liability_total_interest.units(),
        b.annual_inflation_percent.units() == s.annual_inflation_percent.units() ==> (
        r.final_net_worth_real_delta matches Some(x) && x.units() == s.final_net_worth_real.units()
            - b.final_net_worth_real.units()),
        b.annual_inflation_percent.units() != s.annual_inflation_percent.units()
            ==> r.final_net_worth_real_delta is None,
        b.success_of_plan matches Some(x) ==> (s.success_of_plan matches Some(y) ==> (
        r.success_of_plan_delta matches Some(d) && d.units() == y.units() - x.units())),
        b.success_of_plan is None || s.success_of_plan is None ==> r.success_of_plan_delta is None,
        // A figure either side lacks has no delta.
        b.fire_number_classic_today is None || s.fire_number_classic_today is None
            ==> r.fire_number_classic_today_delta is None,
        b.runway_months is None || s.runway_months is None ==> r.runway_months_delta is None,
        b.needed_capital_today is None || s.needed_capital_today is None
            ==> r.needed_capital_today_delta is None,
        b.contribution_required_monthly is None || s.contribution_required_monthly is None
            ==> r.contribution_required_monthly_delta is None,
        b.jubilacion_month_index is None || s.jubilacion_month_index is None
            ==> r.jubilacion_months_delta is None,
        b.coast_stop_month_index is None || s.coast_stop_month_index is None
            ==> r.coast_stop_months_delta is None,
        b.fire_number_classic_today matches Some(x) ==> (s.fire_number_classic_today matches Some(y) ==> (r.fire_number_classic_today_delta matches Some(
            d,
        ) && d.units() == y.units() - x.units())),
        b.runway_months matches Some(x) ==> (s.runway_months matches Some(y) ==> (r.runway_months_delta matches Some(
            d,
        ) && d.units() == y.units() - x.units())),
        b.needed_capital_today matches Some(x) ==> (s.needed_capital_today matches Some(y) ==> (r.needed_capital_today_delta matches Some(
            d,
        ) && d.units() == y.units() - x.units())),
        b.contribution_required_monthly matches Some(x) ==> (s.contribution_required_monthly matches Some(y) ==> (r.contribution_required_monthly_delta matches Some(
            d,
        ) && d.units() == y.units() - x.units())),
        b.jubilacion_month_index matches Some(x) ==> (s.jubilacion_month_index matches Some(y) ==> r.jubilacion_months_delta == Some(
            (y - x) as i64,
        )),
        b.assets_depleted_month_index matches Some(x) ==> (s.assets_depleted_month_index matches Some(y) ==> r.assets_depleted_months_delta == Some(
            (y - x) as i64,
        )),
        b.liability_debt_free_month_index matches Some(x) ==> (s.liability_debt_free_month_index matches Some(y) ==> r.liability_debt_free_months_delta == Some(
            (y - x) as i64,
        )),
        b.coast_stop_month_index matches Some(x) ==> (s.coast_stop_month_index matches Some(y) ==> r.coast_stop_months_delta == Some(
            (y - x) as i64,
        )),
{
    let comparable = crate::decimal::dec_eq(b.annual_inflation_percent, s.annual_inflation_percent);
    let savings_rate_delta = match (
        rate_of(b.income_monthly, b.net_recurring_monthly),
        rate_of(s.income_monthly, s.net_recurring_monthly),
    ) {
        (Some(x), Some(y)) => Some(ratio_diff(x, y)),
        _ => None,
    };
    let success_of_plan_delta = match (b.success_of_plan, s.success_of_plan) {
        (Some(x), Some(y)) => Some(ratio_diff(x, y)),
        _ => None,
    };
    let runway_months_delta = match (b.runway_months, s.runway_months) {
        (Some(x), Some(y)) => Some(minus(y, x)),
        _ => None,
    };
    let fire_delta = match (b.fire_number_classic_today, s.fire_number_classic_today) {
        (Some(x), Some(y)) => Some(money_diff(x, y)),
        _ => None,
    };
    proof {
        if b.needed_capital_today is Some && s.needed_capital_today is Some {
            assert(crate::plan::exact_pair(b.needed_capital_today, s.needed_capital_today));
        }
        if b.contribution_required_monthly is Some && s.contribution_required_monthly is Some {
            assert(crate::plan::exact_pair(
                b.contribution_required_monthly,
                s.contribution_required_monthly,
            ));
        }
    }
    SimDeltas {
        jubilacion_months_delta: months_delta(b.jubilacion_month_index, s.jubilacion_month_index),
        assets_depleted_months_delta: months_delta(
            b.assets_depleted_month_index,
            s.assets_depleted_month_index,
        ),
        final_net_worth_delta: money_diff(b.final_net_worth, s.final_net_worth),
        final_net_worth_real_delta: if comparable {
            Some(money_diff(b.final_net_worth_real, s.final_net_worth_real))
        } else {
            None
        },
        real_delta_absent_reason: if comparable {
            None
        } else {
            Some(REAL_DELTA_INCOMPARABLE)
        },
        fire_number_classic_today_delta: fire_delta,
        runway_months_delta,
        income_monthly_delta: money_diff(b.income_monthly, s.income_monthly),
        expense_total_monthly_delta: money_diff(b.expense_total_monthly, s.expense_total_monthly),
        net_recurring_monthly_delta: money_diff(b.net_recurring_monthly, s.net_recurring_monthly),
        net_cash_monthly_delta: money_diff(b.net_cash_monthly, s.net_cash_monthly),
        savings_rate_delta,
        liability_extra_principal_monthly_delta: money_diff(
            b.liability_extra_principal_monthly,
            s.liability_extra_principal_monthly,
        ),
        liability_early_repayment_fee_total_delta: money_diff(
            b.liability_early_repayment_fee_total,
            s.liability_early_repayment_fee_total,
        ),
        liability_total_interest_delta: money_diff(
            b.liability_total_interest,
            s.liability_total_interest,
        ),
        liability_debt_free_months_delta: months_delta(
            b.liability_debt_free_month_index,
            s.liability_debt_free_month_index,
        ),
        success_of_plan_delta,
        needed_capital_today_delta: pair_delta(b.needed_capital_today, s.needed_capital_today),
        contribution_required_monthly_delta: pair_delta(
            b.contribution_required_monthly,
            s.contribution_required_monthly,
        ),
        coast_stop_months_delta: months_delta(b.coast_stop_month_index, s.coast_stop_month_index),
    }
}


// ---------------------------------------------------------------------------------------------
// Debt figures of one side
// ---------------------------------------------------------------------------------------------

/// The month the household is free of debt and, when it never is within the horizon, the reason
/// of the first liability that does not end: each liability's payoff month (or its reason), in
/// order. With no liabilities the household is debt-free today (month 0).
pub open spec fn debt_free_after(s: Seq<(Option<u32>, Option<&'static str>)>) -> (
    Option<u32>,
    Option<&'static str>,
)
    decreases s.len(),
{
    if s.len() == 0 {
        (Some(0u32), None)
    } else {
        let (acc, reason) = debt_free_after(s.drop_last());
        match s.last().0 {
            Some(k) => (
                match acc {
                    Some(a) => Some(if a < k {
                        k
                    } else {
                        a
                    }),
                    None => None,
                },
                reason,
            ),
            None => (
                None,
                if reason is None {
                    s.last().1
                } else {
                    reason
                },
            ),
        }
    }
}

/// Law: the household is debt-free at the latest payoff month of its liabilities, and never as
/// soon as one liability does not end. With no liabilities it is debt-free today; a month found
/// is not before any liability's payoff and is the payoff of one of them.
pub proof fn law_debt_free_at_the_last_payoff(s: Seq<(Option<u32>, Option<&'static str>)>)
    ensures
        s.len() == 0 ==> debt_free_after(s).0 == Some(0u32),
        debt_free_after(s).0 is Some ==> forall|i: int|
            0 <= i < s.len() ==> (#[trigger] s[i]).0 is Some && s[i].0.unwrap()
                <= debt_free_after(s).0.unwrap(),
        s.len() > 0 && debt_free_after(s).0 is Some ==> exists|i: int|
            0 <= i < s.len() && (#[trigger] s[i]).0 == debt_free_after(s).0,
        (exists|i: int| 0 <= i < s.len() && (#[trigger] s[i]).0 is None) ==> debt_free_after(s).0
            is None,
    decreases s.len(),
{
    if s.len() > 0 {
        let init = s.drop_last();
        law_debt_free_at_the_last_payoff(init);
        assert forall|i: int| 0 <= i < init.len() implies #[trigger] init[i] == s[i] by {}
        if debt_free_after(s).0 is Some {
            let k = debt_free_after(s).0.unwrap();
            assert(s.last().0 is Some);
            assert(debt_free_after(init).0 is Some);
            assert forall|i: int| 0 <= i < s.len() implies (#[trigger] s[i]).0 is Some && s[i].0.unwrap()
                <= k by {
                if i < init.len() {
                    assert(init[i] == s[i]);
                }
            }
            if init.len() == 0 {
                assert(s[0] == s.last());
            } else {
                let a = debt_free_after(init).0.unwrap();
                if a < s.last().0.unwrap() {
                    assert(s[s.len() - 1] == s.last());
                } else {
                    let w = choose|i: int| 0 <= i < init.len() && (#[trigger] init[i]).0 == debt_free_after(
                        init,
                    ).0;
                    assert(s[w] == init[w]);
                }
            }
        }
        if exists|i: int| 0 <= i < s.len() && (#[trigger] s[i]).0 is None {
            let w = choose|i: int| 0 <= i < s.len() && (#[trigger] s[i]).0 is None;
            if w < init.len() {
                assert(init[w] == s[w]);
            } else {
                assert(s[w] == s.last());
            }
        }
    }
}

/// The debt-free reading of a side from the payoff of each liability: the latest payoff month,
/// or none as soon as one liability does not end (with the first such reason).
pub fn debt_free_reading(payoffs: &Vec<(Option<u32>, Option<&'static str>)>) -> (r: (
    Option<u32>,
    Option<&'static str>,
))
    ensures
        r == debt_free_after(payoffs@),
{
    let mut month: Option<u32> = Some(0);
    let mut reason: Option<&'static str> = None;
    let mut i: usize = 0;
    while i < payoffs.len()
        invariant
            0 <= i <= payoffs@.len(),
            (month, reason) == debt_free_after(payoffs@.take(i as int)),
        decreases payoffs@.len() - i,
    {
        assert(payoffs@.take(i + 1).drop_last() =~= payoffs@.take(i as int));
        let (k, absent) = payoffs[i];
        match k {
            Some(k) => {
                month = match month {
                    Some(a) => Some(if a < k {
                        k
                    } else {
                        a
                    }),
                    None => None,
                };
            },
            None => {
                month = None;
                if reason.is_none() {
                    reason = absent;
                }
            },
        }
        i = i + 1;
    }
    assert(payoffs@.take(payoffs@.len() as int) =~= payoffs@);
    (month, reason)
}

/// The monthly extra principal of the liabilities (negatives count as none) and the monthly
/// early-repayment fee it pays, `extra x fee% / 100`, summed in order.
pub open spec fn liability_cash_after(liabs: Seq<LiabilityTerms>) -> (Dec, Dec)
    decreases liabs.len(),
{
    if liabs.len() == 0 {
        (Dec::of(0, 0), Dec::of(0, 0))
    } else {
        let (extra, fee) = liability_cash_after(liabs.drop_last());
        let l = liabs.last();
        let x = max_dec(l.extra_principal_monthly, Dec::of(0, 0));
        let pct = max_dec(amount_or_zero(l.early_repayment_fee_pct), Dec::of(0, 0));
        (sum_of(extra, x), sum_of(fee, quotient_of(product_of(x, pct), Dec::of(100, 0))))
    }
}

/// The bounds the cash aggregates of the liabilities take.
pub open spec fn liability_cash_ok(liabs: Seq<LiabilityTerms>) -> bool {
    &&& liabs.len() <= 10_000
    &&& forall|i: int|
        0 <= i < liabs.len() ==> abs((#[trigger] liabs[i]).extra_principal_monthly.units())
            <= cash_axis_bound() && (liabs[i].early_repayment_fee_pct matches Some(f) ==> abs(
            f.units(),
        ) <= 100 * one_unit())
}

/// The liabilities' monthly extra principal and monthly early-repayment fee.
pub fn liability_cash_aggregates(liabs: &Vec<LiabilityTerms>) -> (r: (Dec, Dec))
    requires
        liability_cash_ok(liabs@),
    ensures
        r == liability_cash_after(liabs@),
{
    let zero = Dec::zero();
    let hundred = Dec::from_u32(100);
    proof {
        crate::decimal::lemma_int_units(100);
        crate::decimal::lemma_int_units(0);
    }
    let mut extra = Dec::zero();
    let mut fee = Dec::zero();
    let mut i: usize = 0;
    while i < liabs.len()
        invariant
            0 <= i <= liabs@.len(),
            liability_cash_ok(liabs@),
            zero == Dec::of(0, 0),
            zero.units() == 0,
            hundred == Dec::of(100, 0),
            hundred.units() == 100 * one_unit(),
            (extra, fee) == liability_cash_after(liabs@.take(i as int)),
            abs(extra.units()) <= i * (cash_axis_bound() + one_unit()),
            abs(fee.units()) <= i * (cash_axis_bound() + 3 * one_unit()),
        decreases liabs@.len() - i,
    {
        assert(liabs@.take(i + 1).drop_last() =~= liabs@.take(i as int));
        let l = liabs[i];
        assert(abs(l.extra_principal_monthly.units()) <= cash_axis_bound());
        let x = dec_max(l.extra_principal_monthly, zero);
        let pct = dec_max(zero_when_absent(l.early_repayment_fee_pct), zero);
        assert(0 <= pct.units() <= 100 * one_unit());
        assert(0 <= x.units() <= cash_axis_bound());
        proof {
            assert(x.units() * pct.units() <= 100 * cash_axis_bound() * one_unit()) by (nonlinear_arith)
                requires
                    0 <= x.units() <= cash_axis_bound(),
                    0 <= pct.units() <= 100 * one_unit(),
            ;
            assert(x.units() * pct.units() >= 0) by (nonlinear_arith)
                requires
                    0 <= x.units(),
                    0 <= pct.units(),
            ;
            assert(i * (cash_axis_bound() + 3 * one_unit()) <= 10_000 * (cash_axis_bound() + 3
                * one_unit())) by (nonlinear_arith)
                requires
                    i <= 10_000,
                    cash_axis_bound() > 0,
                    one_unit() > 0,
            ;
            assert(i * (cash_axis_bound() + one_unit()) <= 10_000 * (cash_axis_bound() + one_unit()))
                by (nonlinear_arith)
                requires
                    i <= 10_000,
                    cash_axis_bound() > 0,
                    one_unit() > 0,
            ;
        }
        let prod = crate::decimal::dec_mul(x, pct);
        prod.bounds();
        proof {
            crate::decimal::lemma_dec_of(prod.mantissa(), prod.scale());
            assert(abs(prod.units()) <= 100 * cash_axis_bound() + one_unit()) by (nonlinear_arith)
                requires
                    abs(prod.units() * one_unit() - x.units() * pct.units()) <= one_unit()
                        * one_unit(),
                    0 <= x.units() * pct.units() <= 100 * cash_axis_bound() * one_unit(),
                    one_unit() > 0,
            ;
        }
        proof {
            assert(abs(prod.units() * one_unit()) <= crate::decimal::safe_units() * abs(
                hundred.units(),
            )) by (nonlinear_arith)
                requires
                    abs(prod.units()) <= 100 * cash_axis_bound() + one_unit(),
                    hundred.units() == 100 * one_unit(),
                    crate::decimal::safe_units() == 7 * one_unit() * one_unit(),
                    one_unit() == 10000000000000000000000000000,
                    cash_axis_bound() == 1_000_000_000_000_000 * one_unit(),
            ;
        }
        let part = crate::decimal::dec_div(prod, hundred);
        part.bounds();
        proof {
            crate::decimal::lemma_dec_of(part.mantissa(), part.scale());
            assert(abs(part.units()) <= cash_axis_bound() + 2 * one_unit()) by (nonlinear_arith)
                requires
                    abs(part.units() * (100 * one_unit()) - prod.units() * one_unit()) <= one_unit()
                        * (100 * one_unit()),
                    abs(prod.units()) <= 100 * cash_axis_bound() + one_unit(),
                    one_unit() == 10000000000000000000000000000,
                    cash_axis_bound() == 1_000_000_000_000_000 * one_unit(),
            ;
        }
        extra = plus(extra, x);
        fee = plus(fee, part);
        proof {
            assert((i + 1) * (cash_axis_bound() + one_unit()) == i * (cash_axis_bound() + one_unit())
                + (cash_axis_bound() + one_unit())) by (nonlinear_arith);
            assert((i + 1) * (cash_axis_bound() + 3 * one_unit()) == i * (cash_axis_bound() + 3
                * one_unit()) + (cash_axis_bound() + 3 * one_unit())) by (nonlinear_arith);
        }
        i = i + 1;
    }
    assert(liabs@.take(liabs@.len() as int) =~= liabs@);
    (extra, fee)
}


// ---------------------------------------------------------------------------------------------
// The scenario's profile and the remaining gates
// ---------------------------------------------------------------------------------------------

/// Two optional amounts are the same number (or both absent).
pub open spec fn same_amount(a: Option<Dec>, b: Option<Dec>) -> bool {
    match (a, b) {
        (None, None) => true,
        (Some(x), Some(y)) => x.units() == y.units(),
        _ => false,
    }
}

pub open spec fn same_rule(a: WithdrawalRule, b: WithdrawalRule) -> bool {
    &&& a.kind == b.kind
    &&& same_amount(a.pct, b.pct)
    &&& same_amount(a.start_pct, b.start_pct)
    &&& same_amount(a.end_pct, b.end_pct)
    &&& same_amount(a.band_pct, b.band_pct)
    &&& same_amount(a.adjust_pct, b.adjust_pct)
    &&& a.spend_mode == b.spend_mode
    &&& a.pct_source == b.pct_source
}

pub open spec fn same_pension(a: Option<PensionPlan>, b: Option<PensionPlan>) -> bool {
    match (a, b) {
        (None, None) => true,
        (Some(x), Some(y)) => {
            &&& x.monthly_amount_today.units() == y.monthly_amount_today.units()
            &&& x.starts_at_age == y.starts_at_age
            &&& x.indexed == y.indexed
            &&& x.fraction_while_partial.units() == y.fraction_while_partial.units()
            &&& x.bridge_enabled == y.bridge_enabled
            &&& same_amount(x.bridge_max_pct, y.bridge_max_pct)
            &&& x.bridge_max_years == y.bridge_max_years
        },
        _ => false,
    }
}

pub open spec fn same_partial(a: Option<PartialRetirement>, b: Option<PartialRetirement>) -> bool {
    match (a, b) {
        (None, None) => true,
        (Some(x), Some(y)) => {
            &&& x.starts_at_age == y.starts_at_age
            &&& x.income_monthly_today.units() == y.income_monthly_today.units()
            &&& x.expense_basis == y.expense_basis
            &&& x.mode == y.mode
        },
        _ => false,
    }
}

/// Two profiles say the same thing: every field equal, amounts as numbers.
pub open spec fn same_profile(a: RetirementProfile, b: RetirementProfile) -> bool {
    &&& a.strategy == b.strategy
    &&& a.target_retirement_age == b.target_retirement_age
    &&& a.fire_number_mode == b.fire_number_mode
    &&& same_amount(a.fire_number_manual_amount, b.fire_number_manual_amount)
    &&& a.swr_pct.units() == b.swr_pct.units()
    &&& a.horizon_lifespan_age == b.horizon_lifespan_age
    &&& a.success_threshold_pct == b.success_threshold_pct
    &&& a.coast_mode == b.coast_mode
    &&& a.coast_stop_age == b.coast_stop_age
    &&& same_rule(a.withdrawal_rule, b.withdrawal_rule)
    &&& same_pension(a.pension, b.pension)
    &&& same_partial(a.partial_retirement, b.partial_retirement)
    &&& a.migrated_from_pension_bridge == b.migrated_from_pension_bridge
}

fn amounts_equal(a: Option<Dec>, b: Option<Dec>) -> (r: bool)
    ensures
        r == same_amount(a, b),
{
    match (a, b) {
        (None, None) => true,
        (Some(x), Some(y)) => crate::decimal::dec_eq(x, y),
        _ => false,
    }
}

fn rules_equal(a: &WithdrawalRule, b: &WithdrawalRule) -> (r: bool)
    ensures
        r == same_rule(*a, *b),
{
    a.kind == b.kind && amounts_equal(a.pct, b.pct) && amounts_equal(a.start_pct, b.start_pct)
        && amounts_equal(a.end_pct, b.end_pct) && amounts_equal(a.band_pct, b.band_pct)
        && amounts_equal(a.adjust_pct, b.adjust_pct) && a.spend_mode == b.spend_mode
        && a.pct_source == b.pct_source
}

fn pensions_equal(a: &Option<PensionPlan>, b: &Option<PensionPlan>) -> (r: bool)
    ensures
        r == same_pension(*a, *b),
{
    match (a, b) {
        (None, None) => true,
        (Some(x), Some(y)) => crate::decimal::dec_eq(x.monthly_amount_today, y.monthly_amount_today)
            && x.starts_at_age == y.starts_at_age && x.indexed == y.indexed
            && crate::decimal::dec_eq(x.fraction_while_partial, y.fraction_while_partial)
            && x.bridge_enabled == y.bridge_enabled && amounts_equal(
            x.bridge_max_pct,
            y.bridge_max_pct,
        ) && x.bridge_max_years == y.bridge_max_years,
        _ => false,
    }
}

fn partials_equal(a: &Option<PartialRetirement>, b: &Option<PartialRetirement>) -> (r: bool)
    ensures
        r == same_partial(*a, *b),
{
    match (a, b) {
        (None, None) => true,
        (Some(x), Some(y)) => x.starts_at_age == y.starts_at_age && crate::decimal::dec_eq(
            x.income_monthly_today,
            y.income_monthly_today,
        ) && x.expense_basis == y.expense_basis && x.mode == y.mode,
        _ => false,
    }
}

/// Do two profiles say the same thing (amounts compared as numbers)?
pub fn profiles_equal(a: &RetirementProfile, b: &RetirementProfile) -> (r: bool)
    ensures
        r == same_profile(*a, *b),
{
    a.strategy == b.strategy && a.target_retirement_age == b.target_retirement_age
        && a.fire_number_mode == b.fire_number_mode && amounts_equal(
        a.fire_number_manual_amount,
        b.fire_number_manual_amount,
    ) && crate::decimal::dec_eq(a.swr_pct, b.swr_pct) && a.horizon_lifespan_age
        == b.horizon_lifespan_age && a.success_threshold_pct == b.success_threshold_pct
        && a.coast_mode == b.coast_mode && a.coast_stop_age == b.coast_stop_age && rules_equal(
        &a.withdrawal_rule,
        &b.withdrawal_rule,
    ) && pensions_equal(&a.pension, &b.pension) && partials_equal(
        &a.partial_retirement,
        &b.partial_retirement,
    ) && a.migrated_from_pension_bridge == b.migrated_from_pension_bridge
}

/// The profile the scenario runs, or why not: an empty patch is refused; the patch applies to
/// the current (resolved) profile; the loose `swr_pct` axis may not be set twice; the result is
/// validated with the write-side rules and resolved; a patch that resolves back to the current
/// profile is refused.
pub open spec fn scenario_profile_of(
    current: RetirementProfile,
    overrides: Option<RetirementProfilePatch>,
    swr_pct: Option<Dec>,
) -> Result<RetirementProfile, SimError> {
    if overrides matches Some(p) && patch_is_empty(p) {
        Err(SimError::ProfileOverridesEmpty)
    } else if swr_pct is Some && (overrides matches Some(p) && p.swr_pct is Some) {
        Err(SimError::SwrPctSetTwice)
    } else {
        let base = match overrides {
            Some(p) => patched(p, current),
            None => current,
        };
        let eff = match swr_pct {
            Some(s) => RetirementProfile { swr_pct: s, ..base },
            None => base,
        };
        match profile_violation(eff) {
            Some(e) => Err(SimError::Profile(e)),
            None => {
                let resolved = resolved_profile(Some(eff));
                if overrides is Some && same_profile(resolved, current) {
                    Err(SimError::ProfileOverridesNoOp)
                } else {
                    Ok(resolved)
                }
            },
        }
    }
}

/// Law: a profile scenario must change something, once. An empty patch is refused, as is an SWR
/// given both loose and inside the patch; a patched profile that breaks a rule of the profile is
/// refused with that rule; and a scenario accepted with a patch differs from the current profile.
pub proof fn law_scenario_profile_changes_something(
    current: RetirementProfile,
    overrides: Option<RetirementProfilePatch>,
    swr_pct: Option<Dec>,
)
    ensures
        overrides matches Some(p) && patch_is_empty(p) ==> scenario_profile_of(
            current,
            overrides,
            swr_pct,
        ) == Err::<RetirementProfile, SimError>(SimError::ProfileOverridesEmpty),
        overrides matches Some(p) && !patch_is_empty(p) && p.swr_pct is Some && swr_pct is Some
            ==> scenario_profile_of(current, overrides, swr_pct) == Err::<
            RetirementProfile,
            SimError,
        >(SimError::SwrPctSetTwice),
        overrides is Some && scenario_profile_of(current, overrides, swr_pct) is Ok ==> !same_profile(
            scenario_profile_of(current, overrides, swr_pct).unwrap(),
            current,
        ),
        scenario_profile_of(current, overrides, swr_pct) matches Err(SimError::Profile(e)) ==> {
            let base = match overrides {
                Some(p) => patched(p, current),
                None => current,
            };
            profile_violation(
                match swr_pct {
                    Some(s) => RetirementProfile { swr_pct: s, ..base },
                    None => base,
                },
            ) == Some(e)
        },
{
}

/// The profile the scenario simulates: the current (resolved) profile with the profile patch and
/// the loose SWR axis applied, validated as a save would be and resolved again. Nothing is stored.
pub fn scenario_profile(
    current: &RetirementProfile,
    overrides: Option<&RetirementProfilePatch>,
    swr_pct: Option<Dec>,
) -> (r: Result<RetirementProfile, SimError>)
    ensures
        r == scenario_profile_of(
            *current,
            match overrides {
                Some(p) => Some(*p),
                None => None,
            },
            swr_pct,
        ),
{
    let mut eff = match overrides {
        None => *current,
        Some(patch) => {
            if patch.is_empty() {
                return Err(SimError::ProfileOverridesEmpty);
            }
            patch.apply_to(current)
        },
    };
    if let Some(swr) = swr_pct {
        let twice = match overrides {
            Some(p) => p.swr_pct.is_some(),
            None => false,
        };
        if twice {
            return Err(SimError::SwrPctSetTwice);
        }
        eff.swr_pct = swr;
    }
    match validate_retirement_profile(&eff) {
        Ok(()) => {},
        Err(e) => {
            return Err(SimError::Profile(e));
        },
    }
    let resolved = resolve_retirement_profile(Some(eff));
    if overrides.is_some() && profiles_equal(&resolved, current) {
        return Err(SimError::ProfileOverridesNoOp);
    }
    Ok(resolved)
}

/// `view=household` is an aggregate of independent simulations and has no single scenario.
pub fn simulable_view(household: bool) -> (r: Result<(), SimError>)
    ensures
        household <==> r == Err::<(), SimError>(SimError::HouseholdNotSimulable),
        !household <==> r is Ok,
{
    if household {
        Err(SimError::HouseholdNotSimulable)
    } else {
        Ok(())
    }
}

/// The "how much more can I spend keeping the date" solve: asked (true), not asked (absent), or
/// asked and declined (`false`, refused).
pub fn solve_requested(v: Option<bool>) -> (r: Result<bool, SimError>)
    ensures
        r == (match v {
            None => Ok::<bool, SimError>(false),
            Some(true) => Ok::<bool, SimError>(true),
            Some(false) => Err::<bool, SimError>(SimError::SolveNoOp),
        }),
{
    match v {
        None => Ok(false),
        Some(true) => Ok(true),
        Some(false) => Err(SimError::SolveNoOp),
    }
}

/// The constant cash adjustment of the scenario: extra savings minus the extra cash adjustment.
pub fn scenario_monthly_adjustment(c: &ScenarioCash) -> (r: Dec)
    requires
        abs(c.extra_savings.units()) <= cash_axis_bound(),
        abs(c.extra_cash_adjustment.units()) <= cash_axis_bound(),
    ensures
        r == difference(c.extra_savings, c.extra_cash_adjustment),
        abs(r.units()) <= 2 * cash_axis_bound() + one_unit(),
{
    minus(c.extra_savings, c.extra_cash_adjustment)
}

/// The overrides the assembly of the scenario applies before the targets: the extra regular
/// expense, and the retirement expense as a monthly amount (a twelfth of the yearly one).
#[derive(Clone, Copy, Debug)]
pub struct SimOverrides {
    pub extra_monthly_expense: Dec,
    pub retirement_monthly_expense: Option<Dec>,
}

pub fn sim_overrides_of(extra_expense: Dec, retirement_annual_expense: Option<Dec>) -> (r: SimOverrides)
    requires
        retirement_annual_expense matches Some(v) ==> abs(v.units()) <= figure_bound(),
    ensures
        r.extra_monthly_expense == extra_expense,
        r.retirement_monthly_expense == (match retirement_annual_expense {
            Some(v) => Some(quotient_of(v, Dec::of(12, 0))),
            None => None,
        }),
        // The yearly retirement spending, spread over twelve months (up to the division's
        // rounding).
        retirement_annual_expense matches Some(v) ==> (r.retirement_monthly_expense matches Some(m)
            && abs(12 * m.units() - v.units()) <= 12 * one_unit()),
{
    let twelve = Dec::from_u32(12);
    proof {
        crate::decimal::lemma_int_units(12);
    }
    let monthly = match retirement_annual_expense {
        Some(v) => {
            proof {
                assert(abs(v.units() * one_unit()) <= crate::decimal::safe_units() * abs(
                    twelve.units(),
                )) by (nonlinear_arith)
                    requires
                        abs(v.units()) <= figure_bound(),
                        twelve.units() == 12 * one_unit(),
                        figure_bound() == 100_000_000_000_000_000_000 * one_unit(),
                        crate::decimal::safe_units() == 7 * one_unit() * one_unit(),
                        one_unit() == 10000000000000000000000000000,
                ;
            }
            let q = crate::decimal::dec_div(v, twelve);
            q.bounds();
            proof {
                crate::decimal::lemma_dec_of(q.mantissa(), q.scale());
                assert(abs(12 * q.units() - v.units()) <= 12 * one_unit()) by (nonlinear_arith)
                    requires
                        abs(q.units() * twelve.units() - v.units() * one_unit()) <= one_unit() * abs(
                            twelve.units(),
                        ),
                        twelve.units() == 12 * one_unit(),
                        one_unit() == 10000000000000000000000000000,
                ;
            }
            Some(q)
        },
        None => None,
    };
    SimOverrides { extra_monthly_expense: extra_expense, retirement_monthly_expense: monthly }
}

} // verus!
