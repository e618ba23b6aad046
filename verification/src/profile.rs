//! The retirement profile of one user: its enumerations, its blocks, the default profile, the
//! read-side resolution (defaults and clamps), the write-side validation and the field-by-field
//! patch.
//!
//! Resolution never rejects: it clamps every value into its range, so that a profile that reached
//! the store by an unvalidated path still produces sane month indices. Validation runs on the write
//! paths only, on the merged profile, and names the first rule broken.
use crate::decimal::{
    dec_add, dec_clamp, dec_le, dec_lt, dec_max, dec_min, dec_parse, decimal_parse, max_mantissa,
    one_unit, safe_units, Dec,
};
use vstd::string::StringExecFns;
use crate::text::{str_eq, str_trim, trimmed};
use vstd::prelude::*;

verus! {

// ---------------------------------------------------------------------------------------------
// Bounds
// ---------------------------------------------------------------------------------------------

/// Youngest age any milestone of the profile may name.
pub const MIN_PROFILE_AGE: u32 = 18;

/// Youngest age at which a pension may start.
pub const MIN_PENSION_AGE: u32 = 50;

/// Lowest and highest horizon lifespan age (years), and its default.
pub const MIN_HORIZON_LIFESPAN_AGE: u32 = 85;

pub const MAX_HORIZON_LIFESPAN_AGE: u32 = 105;

pub const DEFAULT_HORIZON_LIFESPAN_AGE: u32 = 90;

/// Ceiling of the withdrawal percentages (whole percent).
pub const MAX_WITHDRAWAL_PCT: u32 = 20;

/// Ceiling of the guardrails band and adjustment (whole percent).
pub const MAX_GUARDRAIL_PCT: u32 = 50;

/// Ceiling of the safe withdrawal rate (whole percent).
pub const MAX_SWR_PCT: u32 = 6;

/// Bounds and default of the success threshold (percent of paths).
pub const MIN_SUCCESS_THRESHOLD_PCT: u32 = 80;

pub const MAX_SUCCESS_THRESHOLD_PCT: u32 = 100;

pub const DEFAULT_SUCCESS_THRESHOLD_PCT: u32 = 95;

/// Ceiling of the bridge's initial rate: the same as any withdrawal.
pub const MAX_BRIDGE_PCT: u32 = 20;

/// Bounds and default of the bridge's maximum years.
pub const MIN_BRIDGE_YEARS: u32 = 1;

pub const MAX_BRIDGE_YEARS: u32 = 20;

pub const DEFAULT_BRIDGE_YEARS: u32 = 7;

/// The whole number `v` as a decimal.
pub open spec fn whole(v: int) -> Dec {
    Dec::of(v, 0)
}

/// `Ord::clamp` on integers.
pub open spec fn clamp_int(v: int, lo: int, hi: int) -> int {
    if v < lo {
        lo
    } else if v > hi {
        hi
    } else {
        v
    }
}

/// `Ord::clamp` on decimals, by value: the bound itself when `v` lies outside it.
pub open spec fn clamp_dec(v: Dec, lo: Dec, hi: Dec) -> Dec {
    if v.units() < lo.units() {
        lo
    } else if hi.units() < v.units() {
        hi
    } else {
        v
    }
}

/// `Ord::max` on decimals: the second argument unless the first is strictly larger.
pub open spec fn max_dec(a: Dec, b: Dec) -> Dec {
    if b.units() < a.units() {
        a
    } else {
        b
    }
}

/// `Ord::min` on decimals: the first argument unless the second is strictly smaller.
pub open spec fn min_dec(a: Dec, b: Dec) -> Dec {
    if b.units() < a.units() {
        b
    } else {
        a
    }
}

fn clamp_u32(v: u32, lo: u32, hi: u32) -> (r: u32)
    requires
        lo <= hi,
    ensures
        r == clamp_int(v as int, lo as int, hi as int),
{
    if v < lo {
        lo
    } else if v > hi {
        hi
    } else {
        v
    }
}

// ---------------------------------------------------------------------------------------------
// Enumerations
// ---------------------------------------------------------------------------------------------

/// The four retirement strategies; one per user.
#[derive(Clone, Copy, Debug, PartialEq, Eq, Structural)]
pub enum RetirementStrategy {
    /// Retire in the first valid month (the default).
    Asap,
    /// Retire at a fixed age, whether the capital is there or not.
    RetireAtAge,
    /// Save now and let it grow.
    Coast,
    /// Half time.
    Partial,
}

/// The two modes of Coast FIRE.
#[derive(Clone, Copy, Debug, PartialEq, Eq, Structural)]
pub enum CoastMode {
    /// The retirement age is fixed; the stop age is a reading.
    FixedRetirementAge,
    /// The stop age is fixed; the retirement age follows from the threshold.
    FixedStopAge,
}

/// The two start modes of the half-time phase.
#[derive(Clone, Copy, Debug, PartialEq, Eq, Structural)]
pub enum PartialStartMode {
    /// At a fixed age (needs `starts_at_age`).
    AtAge,
    /// As soon as the plan allows.
    AsSoonAsPossible,
}

/// The catalogue of withdrawal rules.
#[derive(Clone, Copy, Debug, PartialEq, Eq, Structural)]
pub enum WithdrawalRuleKind {
    /// The declared need in today's money, indexed, with no ceiling (the default).
    FixedReal,
    /// `pct` % a year of the liquid balance.
    PercentOfBalance,
    /// `start_pct` until the balance allows dropping to `end_pct`.
    Hybrid,
    /// Guyton-Klinger guardrails.
    Guardrails,
}

/// How the rule relates to the declared spending.
#[derive(Clone, Copy, Debug, PartialEq, Eq, Structural)]
pub enum SpendMode {
    /// The rule is a ceiling: `min(need, rule)` is withdrawn (the default).
    Ceiling,
    /// The rule is the spending.
    RuleIsSpend,
}

/// Spending basis of the half-time phase.
#[derive(Clone, Copy, Debug, PartialEq, Eq, Structural)]
pub enum PartialExpenseBasis {
    /// The retirement spending (the default).
    Retirement,
    /// Today's regular spending.
    Regular,
}

/// Where the percentage that sizes a withdrawal rule comes from.
#[derive(Clone, Copy, Debug, PartialEq, Eq, Structural)]
pub enum PctSource {
    /// Inherited from `swr_pct`.
    Swr,
    /// Written by the user.
    Explicit,
}

/// How the FIRE number is sized.
#[derive(Clone, Copy, Debug, PartialEq, Eq, Structural)]
pub enum FireNumberMode {
    /// From the annual retirement spending (the default).
    AnnualExpense,
    /// From the current income.
    CurrentIncome,
    /// A manual amount.
    Manual,
}

impl Default for RetirementStrategy {
    fn default() -> (r: Self)
        ensures
            r == RetirementStrategy::Asap,
    {
        RetirementStrategy::Asap
    }
}

impl Default for CoastMode {
    fn default() -> (r: Self)
        ensures
            r == CoastMode::FixedRetirementAge,
    {
        CoastMode::FixedRetirementAge
    }
}

impl Default for PartialStartMode {
    fn default() -> (r: Self)
        ensures
            r == PartialStartMode::AtAge,
    {
        PartialStartMode::AtAge
    }
}

impl Default for WithdrawalRuleKind {
    fn default() -> (r: Self)
        ensures
            r == WithdrawalRuleKind::FixedReal,
    {
        WithdrawalRuleKind::FixedReal
    }
}

impl Default for SpendMode {
    fn default() -> (r: Self)
        ensures
            r == SpendMode::Ceiling,
    {
        SpendMode::Ceiling
    }
}

impl Default for PartialExpenseBasis {
    fn default() -> (r: Self)
        ensures
            r == PartialExpenseBasis::Retirement,
    {
        PartialExpenseBasis::Retirement
    }
}

impl Default for FireNumberMode {
    fn default() -> (r: Self)
        ensures
            r == FireNumberMode::AnnualExpense,
    {
        FireNumberMode::AnnualExpense
    }
}

/// The strategy a literal names, and whether it came through the retired `pension_bridge` alias.
pub open spec fn strategy_of_literal(s: Seq<char>) -> Option<(RetirementStrategy, bool)> {
    if s == "asap"@ {
        Some((RetirementStrategy::Asap, false))
    } else if s == "retire_at_age"@ {
        Some((RetirementStrategy::RetireAtAge, false))
    } else if s == "coast"@ {
        Some((RetirementStrategy::Coast, false))
    } else if s == "partial"@ {
        Some((RetirementStrategy::Partial, false))
    } else if s == "pension_bridge"@ {
        Some((RetirementStrategy::Asap, true))
    } else {
        None
    }
}

/// The one place where a literal becomes a strategy: the four live names, plus the retired
/// `pension_bridge`, which lands on `Asap` with the flag set.
pub fn parse_retirement_strategy(s: &str) -> (r: Option<(RetirementStrategy, bool)>)
    ensures
        r == strategy_of_literal(s@),
{
    if str_eq(s, "asap") {
        Some((RetirementStrategy::Asap, false))
    } else if str_eq(s, "retire_at_age") {
        Some((RetirementStrategy::RetireAtAge, false))
    } else if str_eq(s, "coast") {
        Some((RetirementStrategy::Coast, false))
    } else if str_eq(s, "partial") {
        Some((RetirementStrategy::Partial, false))
    } else if str_eq(s, "pension_bridge") {
        Some((RetirementStrategy::Asap, true))
    } else {
        None
    }
}

/// The wire name of a strategy, as `as_str` writes it.
pub open spec fn strategy_name(s: RetirementStrategy) -> Seq<char> {
    match s {
        RetirementStrategy::Asap => "asap"@,
        RetirementStrategy::RetireAtAge => "retire_at_age"@,
        RetirementStrategy::Coast => "coast"@,
        RetirementStrategy::Partial => "partial"@,
    }
}

/// Law: the wire name of every strategy reads back as that strategy, not as the retired alias;
/// and the retired alias reads as `asap` with the alias flag.
pub proof fn law_strategy_name_round_trip(s: RetirementStrategy)
    ensures
        strategy_of_literal(strategy_name(s)) == Some((s, false)),
        strategy_of_literal("pension_bridge"@) == Some((RetirementStrategy::Asap, true)),
{
    reveal_strlit("asap");
    reveal_strlit("retire_at_age");
    reveal_strlit("coast");
    reveal_strlit("partial");
    reveal_strlit("pension_bridge");
    // The five names have five different lengths, so no two are equal.
    assert("asap"@.len() == 4 && "retire_at_age"@.len() == 13 && "coast"@.len() == 5
        && "partial"@.len() == 7 && "pension_bridge"@.len() == 14);
    assert("pension_bridge"@ != "asap"@ && "pension_bridge"@ != "retire_at_age"@
        && "pension_bridge"@ != "coast"@ && "pension_bridge"@ != "partial"@);
    assert("retire_at_age"@ != "asap"@ && "coast"@ != "asap"@ && "coast"@ != "retire_at_age"@
        && "partial"@ != "asap"@ && "partial"@ != "retire_at_age"@ && "partial"@ != "coast"@);
}

impl RetirementStrategy {
    /// The wire name (`pension_bridge` is never written).
    pub fn as_str(&self) -> (r: &'static str)
        ensures
            r@ == strategy_name(*self),
    {
        match self {
            RetirementStrategy::Asap => "asap",
            RetirementStrategy::RetireAtAge => "retire_at_age",
            RetirementStrategy::Coast => "coast",
            RetirementStrategy::Partial => "partial",
        }
    }
}

impl CoastMode {
    /// The mode a wire literal names.
    pub fn parse(s: &str) -> (r: Option<CoastMode>)
        ensures
            r == (if s@ == "fixed_retirement_age"@ {
                Some(CoastMode::FixedRetirementAge)
            } else if s@ == "fixed_stop_age"@ {
                Some(CoastMode::FixedStopAge)
            } else {
                None
            }),
    {
        if str_eq(s, "fixed_retirement_age") {
            Some(CoastMode::FixedRetirementAge)
        } else if str_eq(s, "fixed_stop_age") {
            Some(CoastMode::FixedStopAge)
        } else {
            None
        }
    }
}

impl PartialStartMode {
    /// The mode a wire literal names.
    pub fn parse(s: &str) -> (r: Option<PartialStartMode>)
        ensures
            r == (if s@ == "at_age"@ {
                Some(PartialStartMode::AtAge)
            } else if s@ == "asap"@ {
                Some(PartialStartMode::AsSoonAsPossible)
            } else {
                None
            }),
    {
        if str_eq(s, "at_age") {
            Some(PartialStartMode::AtAge)
        } else if str_eq(s, "asap") {
            Some(PartialStartMode::AsSoonAsPossible)
        } else {
            None
        }
    }
}

impl WithdrawalRuleKind {
    /// The kind a wire literal names.
    pub fn parse(s: &str) -> (r: Option<WithdrawalRuleKind>)
        ensures
            r == (if s@ == "fixed_real"@ {
                Some(WithdrawalRuleKind::FixedReal)
            } else if s@ == "percent_of_balance"@ {
                Some(WithdrawalRuleKind::PercentOfBalance)
            } else if s@ == "hybrid"@ {
                Some(WithdrawalRuleKind::Hybrid)
            } else if s@ == "guardrails"@ {
                Some(WithdrawalRuleKind::Guardrails)
            } else {
                None
            }),
    {
        if str_eq(s, "fixed_real") {
            Some(WithdrawalRuleKind::FixedReal)
        } else if str_eq(s, "percent_of_balance") {
            Some(WithdrawalRuleKind::PercentOfBalance)
        } else if str_eq(s, "hybrid") {
            Some(WithdrawalRuleKind::Hybrid)
        } else if str_eq(s, "guardrails") {
            Some(WithdrawalRuleKind::Guardrails)
        } else {
            None
        }
    }
}

impl SpendMode {
    /// The mode a wire literal names.
    pub fn parse(s: &str) -> (r: Option<SpendMode>)
        ensures
            r == (if s@ == "ceiling"@ {
                Some(SpendMode::Ceiling)
            } else if s@ == "rule_is_spend"@ {
                Some(SpendMode::RuleIsSpend)
            } else {
                None
            }),
    {
        if str_eq(s, "ceiling") {
            Some(SpendMode::Ceiling)
        } else if str_eq(s, "rule_is_spend") {
            Some(SpendMode::RuleIsSpend)
        } else {
            None
        }
    }
}

impl PartialExpenseBasis {
    /// The basis a wire literal names.
    pub fn parse(s: &str) -> (r: Option<PartialExpenseBasis>)
        ensures
            r == (if s@ == "retirement"@ {
                Some(PartialExpenseBasis::Retirement)
            } else if s@ == "regular"@ {
                Some(PartialExpenseBasis::Regular)
            } else {
                None
            }),
    {
        if str_eq(s, "retirement") {
            Some(PartialExpenseBasis::Retirement)
        } else if str_eq(s, "regular") {
            Some(PartialExpenseBasis::Regular)
        } else {
            None
        }
    }
}

/// Does the plan demand `target_retirement_age`? Only retiring at an age, and Coast when the
/// retirement age is the fixed one; half time uses the age when there is one but does not demand
/// it.
pub open spec fn needs_target_age(strategy: RetirementStrategy, coast_mode: CoastMode) -> bool {
    match strategy {
        RetirementStrategy::RetireAtAge => true,
        RetirementStrategy::Coast => coast_mode == CoastMode::FixedRetirementAge,
        RetirementStrategy::Asap | RetirementStrategy::Partial => false,
    }
}

pub fn requires_target_age(strategy: RetirementStrategy, coast_mode: CoastMode) -> (r: bool)
    ensures
        r == needs_target_age(strategy, coast_mode),
{
    match strategy {
        RetirementStrategy::RetireAtAge => true,
        RetirementStrategy::Coast => coast_mode == CoastMode::FixedRetirementAge,
        RetirementStrategy::Asap | RetirementStrategy::Partial => false,
    }
}

/// `indexed` of a pension defaults to on.
pub fn default_true() -> (r: bool)
    ensures
        r,
{
    true
}

// ---------------------------------------------------------------------------------------------
// Blocks of the profile
// ---------------------------------------------------------------------------------------------

/// A withdrawal rule and its spending mode. Percentages are gross, like the SWR.
#[derive(Clone, Copy, Debug, PartialEq, Eq)]
pub struct WithdrawalRule {
    pub kind: WithdrawalRuleKind,
    /// `percent_of_balance` and `guardrails`: annual % of the liquid balance; absent, it inherits
    /// `swr_pct`.
    pub pct: Option<Dec>,
    /// `hybrid`: starting %; absent, it inherits `swr_pct`.
    pub start_pct: Option<Dec>,
    /// `hybrid`: the % after the latch (strictly below the start).
    pub end_pct: Option<Dec>,
    /// `guardrails`: the band around the initial rate.
    pub band_pct: Option<Dec>,
    /// `guardrails`: the cut or raise when a band is touched.
    pub adjust_pct: Option<Dec>,
    pub spend_mode: SpendMode,
    /// Output only: where the sizing percentage comes from (absent for `fixed_real`).
    pub pct_source: Option<PctSource>,
}

/// A dated pension (a cash flow), with the optional bridge until it starts.
#[derive(Clone, Copy, Debug, PartialEq, Eq)]
pub struct PensionPlan {
    /// Monthly amount in today's money (> 0).
    pub monthly_amount_today: Dec,
    /// Age at which it starts.
    pub starts_at_age: u32,
    /// Indexed to inflation (default on).
    pub indexed: bool,
    /// Fraction collected during the half-time phase, in `[0, 1]` (default 0).
    pub fraction_while_partial: Dec,
    /// The bridge until the pension: off by default.
    pub bridge_enabled: bool,
    /// The bridge's maximum initial rate (%), strictly above `swr_pct`.
    pub bridge_max_pct: Option<Dec>,
    /// Maximum years between retirement and pension for the bridge to apply, `[1, 20]`.
    pub bridge_max_years: Option<u32>,
}

/// The half-time phase; it ends with the full retirement.
#[derive(Clone, Copy, Debug, PartialEq, Eq)]
pub struct PartialRetirement {
    /// Age at which it starts; required in `at_age` mode.
    pub starts_at_age: Option<u32>,
    /// Monthly income in today's money during the phase (>= 0).
    pub income_monthly_today: Dec,
    pub expense_basis: PartialExpenseBasis,
    pub mode: PartialStartMode,
}

/// The retirement profile of one user.
#[derive(Clone, Copy, Debug, PartialEq, Eq)]
pub struct RetirementProfile {
    pub strategy: RetirementStrategy,
    pub target_retirement_age: Option<u32>,
    pub fire_number_mode: FireNumberMode,
    pub fire_number_manual_amount: Option<Dec>,
    pub swr_pct: Dec,
    pub horizon_lifespan_age: u32,
    /// Percent of paths that must reach the horizon without going back to work, `[80, 100]`.
    pub success_threshold_pct: u32,
    pub coast_mode: CoastMode,
    pub coast_stop_age: Option<u32>,
    pub withdrawal_rule: WithdrawalRule,
    pub pension: Option<PensionPlan>,
    pub partial_retirement: Option<PartialRetirement>,
    /// The profile arrived with the retired `pension_bridge` literal (never written back).
    pub migrated_from_pension_bridge: bool,
}

pub open spec fn spec_default_rule() -> WithdrawalRule {
    WithdrawalRule {
        kind: WithdrawalRuleKind::FixedReal,
        pct: None,
        start_pct: None,
        end_pct: None,
        band_pct: None,
        adjust_pct: None,
        spend_mode: SpendMode::Ceiling,
        pct_source: None,
    }
}

/// The profile of whoever touched nothing: retire as soon as the threshold allows, 3.5 % SWR,
/// horizon at 90, threshold 95, the fixed-real rule.
pub open spec fn spec_default_profile() -> RetirementProfile {
    RetirementProfile {
        strategy: RetirementStrategy::Asap,
        target_retirement_age: None,
        fire_number_mode: FireNumberMode::AnnualExpense,
        fire_number_manual_amount: None,
        swr_pct: Dec::of(35, 1),
        horizon_lifespan_age: DEFAULT_HORIZON_LIFESPAN_AGE,
        success_threshold_pct: DEFAULT_SUCCESS_THRESHOLD_PCT,
        coast_mode: CoastMode::FixedRetirementAge,
        coast_stop_age: None,
        withdrawal_rule: spec_default_rule(),
        pension: None,
        partial_retirement: None,
        migrated_from_pension_bridge: false,
    }
}

impl Default for WithdrawalRule {
    fn default() -> (r: Self)
        ensures
            r == spec_default_rule(),
    {
        WithdrawalRule {
            kind: WithdrawalRuleKind::FixedReal,
            pct: None,
            start_pct: None,
            end_pct: None,
            band_pct: None,
            adjust_pct: None,
            spend_mode: SpendMode::Ceiling,
            pct_source: None,
        }
    }
}

pub fn default_retirement_profile() -> (r: RetirementProfile)
    ensures
        r == spec_default_profile(),
        // As soon as possible, on the annual expense, a 3.5 % SWR, a lifespan of 90, a 95 %
        // threshold, fixed real withdrawals, and nothing optional set.
        r.strategy == RetirementStrategy::Asap,
        r.fire_number_mode == FireNumberMode::AnnualExpense,
        r.swr_pct.units() == 35 * one_unit() / 10,
        r.horizon_lifespan_age == 90,
        r.success_threshold_pct == 95,
        r.withdrawal_rule.kind == WithdrawalRuleKind::FixedReal,
        r.target_retirement_age is None && r.coast_stop_age is None && r.pension is None
            && r.partial_retirement is None && r.fire_number_manual_amount is None,
        profile_violation(r) is None,
{
    proof {
        crate::decimal::lemma_dec_of(35, 1);
        crate::decimal::lemma_pow10_28();
        reveal_with_fuel(crate::decimal::pow10, 28);
    }
    RetirementProfile {
        strategy: RetirementStrategy::Asap,
        target_retirement_age: None,
        fire_number_mode: FireNumberMode::AnnualExpense,
        fire_number_manual_amount: None,
        swr_pct: Dec::new(35, 1),
        horizon_lifespan_age: DEFAULT_HORIZON_LIFESPAN_AGE,
        success_threshold_pct: DEFAULT_SUCCESS_THRESHOLD_PCT,
        coast_mode: CoastMode::FixedRetirementAge,
        coast_stop_age: None,
        withdrawal_rule: WithdrawalRule::default(),
        pension: None,
        partial_retirement: None,
        migrated_from_pension_bridge: false,
    }
}

impl Default for RetirementProfile {
    fn default() -> (r: Self)
        ensures
            r == spec_default_profile(),
    {
        default_retirement_profile()
    }
}

// ---------------------------------------------------------------------------------------------
// The bridge default
// ---------------------------------------------------------------------------------------------

/// `swr + 1` as `rust_decimal` adds it.
pub open spec fn swr_plus_one(swr: Dec) -> Dec {
    let p = crate::decimal::decimal_sum(swr.mantissa(), swr.scale(), 1, 0);
    Dec::of(p.0, p.1)
}

/// The bridge's initial rate when it is switched on without one: `min(max(5, swr + 1), 20)` %.
pub open spec fn bridge_default_of(swr: Dec) -> Dec {
    let lifted = swr_plus_one(swr);
    min_dec(if whole(5).units() < lifted.units() { lifted } else { whole(5) }, whole(20))
}

/// The default bridge rate `max(5, swr + 1)` %, capped at the bridge's own ceiling. For any
/// rate the resolution can leave (`0 <= swr <= 6`) it is strictly above the SWR.
pub fn default_bridge_pct(swr: Dec) -> (r: Dec)
    requires
        crate::decimal::abs(swr.units() + one_unit()) <= safe_units(),
    ensures
        r == bridge_default_of(swr),
        0 <= swr.units() <= 6 * one_unit() ==> swr.units() < r.units() <= 20 * one_unit(),
{
    let five = Dec::from_u32(5);
    let one = Dec::one();
    let lifted = dec_add(swr, one);
    lifted.bounds();
    swr.bounds();
    proof {
        crate::decimal::lemma_dec_of(lifted.mantissa(), lifted.scale());
        crate::decimal::lemma_int_units(5);
        crate::decimal::lemma_int_units(20);
        if 0 <= swr.units() <= 6 * one_unit() {
            crate::decimal::lemma_plus_one_exact(swr);
            assert(crate::decimal::max_nat(swr.scale(), one.scale()) == crate::decimal::max_nat(
                swr.scale(),
                0,
            ));
        }
    }
    let v = if dec_lt(five, lifted) {
        lifted
    } else {
        five
    };
    dec_min(v, Dec::from_u32(MAX_BRIDGE_PCT))
}

// ---------------------------------------------------------------------------------------------
// Resolution: defaults and clamps on read
// ---------------------------------------------------------------------------------------------

/// A withdrawal percentage clamped into `[0, max]`.
pub open spec fn clamp_opt(v: Option<Dec>, max: Dec) -> Option<Dec> {
    match v {
        Some(p) => Some(clamp_dec(p, whole(0), max)),
        None => None,
    }
}

/// Clamps a rule percentage into `[0, max]`; the floor is 0, not some made-up positive minimum.
fn clamp_pct(v: Option<Dec>, max: Dec) -> (r: Option<Dec>)
    requires
        max.units() >= 0,
    ensures
        r == clamp_opt(v, max),
{
    proof {
        crate::decimal::lemma_int_units(0);
    }
    match v {
        Some(p) => Some(dec_clamp(p, Dec::zero(), max)),
        None => None,
    }
}

/// Fill a missing (or previously inherited) percentage with the SWR; keep an explicit one.
pub open spec fn inherited(value: Option<Dec>, source: Option<PctSource>, swr: Dec) -> (
    Option<Dec>,
    Option<PctSource>,
) {
    if value is None || source == Some(PctSource::Swr) {
        (Some(swr), Some(PctSource::Swr))
    } else {
        (value, Some(PctSource::Explicit))
    }
}

/// The rule with its sizing percentage resolved against the SWR: `pct` for `percent_of_balance`
/// and `guardrails`, `start_pct` for `hybrid`, nothing (and no source) for `fixed_real`.
pub open spec fn resolved_rule(rule: WithdrawalRule, swr: Dec) -> WithdrawalRule {
    match rule.kind {
        WithdrawalRuleKind::FixedReal => WithdrawalRule { pct_source: None, ..rule },
        WithdrawalRuleKind::PercentOfBalance | WithdrawalRuleKind::Guardrails => {
            let (v, src) = inherited(rule.pct, rule.pct_source, swr);
            WithdrawalRule { pct: v, pct_source: src, ..rule }
        },
        WithdrawalRuleKind::Hybrid => {
            let (v, src) = inherited(rule.start_pct, rule.pct_source, swr);
            WithdrawalRule { start_pct: v, pct_source: src, ..rule }
        },
    }
}

fn inherit(value: Option<Dec>, source: Option<PctSource>, swr: Dec) -> (r: (
    Option<Dec>,
    Option<PctSource>,
))
    ensures
        r == inherited(value, source, swr),
{
    if value.is_none() || matches!(source, Some(PctSource::Swr)) {
        (Some(swr), Some(PctSource::Swr))
    } else {
        (value, Some(PctSource::Explicit))
    }
}

/// The single resolver of the withdrawal percentage: fills the percentage the rule needs with
/// `swr_pct` when the user wrote none, and records where it came from. It does not clamp. A
/// percentage marked as inherited is inherited again, so re-resolving follows a new SWR, while an
/// explicit one is left alone.
pub fn resolve_withdrawal_rule(rule: &WithdrawalRule, swr_pct: Dec) -> (r: WithdrawalRule)
    ensures
        r == resolved_rule(*rule, swr_pct),
        rule.kind == WithdrawalRuleKind::FixedReal ==> r.pct_source is None,
        (rule.kind == WithdrawalRuleKind::PercentOfBalance || rule.kind
            == WithdrawalRuleKind::Guardrails) && rule.pct is Some && rule.pct_source != Some(
            PctSource::Swr,
        ) ==> r.pct == rule.pct && r.pct_source == Some(PctSource::Explicit),
        (rule.kind == WithdrawalRuleKind::PercentOfBalance || rule.kind
            == WithdrawalRuleKind::Guardrails) && (rule.pct is None || rule.pct_source == Some(
            PctSource::Swr,
        )) ==> r.pct == Some(swr_pct) && r.pct_source == Some(PctSource::Swr),
{
    let mut r = *rule;
    match r.kind {
        WithdrawalRuleKind::FixedReal => {
            r.pct_source = None;
        },
        WithdrawalRuleKind::PercentOfBalance | WithdrawalRuleKind::Guardrails => {
            let (v, src) = inherit(r.pct, r.pct_source, swr_pct);
            r.pct = v;
            r.pct_source = src;
        },
        WithdrawalRuleKind::Hybrid => {
            let (v, src) = inherit(r.start_pct, r.pct_source, swr_pct);
            r.start_pct = v;
            r.pct_source = src;
        },
    }
    r
}

/// The five percentages of a rule clamped: the withdrawal ones into `[0, 20]`, the guardrails
/// band and adjustment into `[0, 50]`.
pub open spec fn clamped_rule(rule: WithdrawalRule) -> WithdrawalRule {
    WithdrawalRule {
        pct: clamp_opt(rule.pct, whole(MAX_WITHDRAWAL_PCT as int)),
        start_pct: clamp_opt(rule.start_pct, whole(MAX_WITHDRAWAL_PCT as int)),
        end_pct: clamp_opt(rule.end_pct, whole(MAX_WITHDRAWAL_PCT as int)),
        band_pct: clamp_opt(rule.band_pct, whole(MAX_GUARDRAIL_PCT as int)),
        adjust_pct: clamp_opt(rule.adjust_pct, whole(MAX_GUARDRAIL_PCT as int)),
        ..rule
    }
}

/// The pension read back: amount at least 0, start age in `[min(50, horizon), horizon]`, the
/// fraction in `[0, 1]`; the bridge switched on by the retired alias, filled with its defaults
/// when on, its rate clamped into `[min(swr, 20), 20]` and its years into `[1, 20]`.
pub open spec fn resolved_pension(pen: PensionPlan, swr: Dec, horizon: int, migrated: bool) -> PensionPlan {
    let enabled = pen.bridge_enabled || migrated;
    let pct = if enabled {
        Some(
            match pen.bridge_max_pct {
                Some(v) => v,
                None => bridge_default_of(swr),
            },
        )
    } else {
        pen.bridge_max_pct
    };
    let years = if enabled {
        Some(
            match pen.bridge_max_years {
                Some(y) => y,
                None => DEFAULT_BRIDGE_YEARS,
            },
        )
    } else {
        pen.bridge_max_years
    };
    let pension_floor = if MIN_PENSION_AGE < horizon {
        MIN_PENSION_AGE as int
    } else {
        horizon
    };
    PensionPlan {
        monthly_amount_today: max_dec(pen.monthly_amount_today, whole(0)),
        starts_at_age: clamp_int(pen.starts_at_age as int, pension_floor, horizon) as u32,
        indexed: pen.indexed,
        fraction_while_partial: clamp_dec(pen.fraction_while_partial, whole(0), whole(1)),
        bridge_enabled: enabled,
        bridge_max_pct: match pct {
            Some(v) => Some(clamp_dec(v, min_dec(swr, whole(MAX_BRIDGE_PCT as int)), whole(MAX_BRIDGE_PCT as int))),
            None => None,
        },
        bridge_max_years: match years {
            Some(y) => Some(clamp_int(y as int, MIN_BRIDGE_YEARS as int, MAX_BRIDGE_YEARS as int) as u32),
            None => None,
        },
    }
}

/// The half-time phase read back: income at least 0, start age in `[18, horizon]`.
pub open spec fn resolved_partial(par: PartialRetirement, horizon: int) -> PartialRetirement {
    PartialRetirement {
        income_monthly_today: max_dec(par.income_monthly_today, whole(0)),
        starts_at_age: match par.starts_at_age {
            Some(a) => Some(clamp_int(a as int, MIN_PROFILE_AGE as int, horizon) as u32),
            None => None,
        },
        ..par
    }
}

/// The profile as every reader sees it: the stored one (or the default), with the horizon
/// clamped first (it caps every age), then the SWR, the threshold and the ages, the rule's
/// percentages clamped and resolved against the clamped SWR, and the pension and half-time blocks
/// read back.
pub open spec fn resolved_profile(stored: Option<RetirementProfile>) -> RetirementProfile {
    let p = match stored {
        Some(p) => p,
        None => spec_default_profile(),
    };
    let horizon = clamp_int(
        p.horizon_lifespan_age as int,
        MIN_HORIZON_LIFESPAN_AGE as int,
        MAX_HORIZON_LIFESPAN_AGE as int,
    );
    let swr = clamp_dec(p.swr_pct, whole(0), whole(MAX_SWR_PCT as int));
    let target = match p.target_retirement_age {
        Some(a) => Some(clamp_int(a as int, MIN_PROFILE_AGE as int, horizon) as u32),
        None => None,
    };
    let ceiling_base = match target {
        Some(a) => a as int,
        None => horizon,
    };
    let coast_ceiling = if ceiling_base < MIN_PROFILE_AGE {
        MIN_PROFILE_AGE as int
    } else {
        ceiling_base
    };
    RetirementProfile {
        strategy: p.strategy,
        target_retirement_age: target,
        fire_number_mode: p.fire_number_mode,
        fire_number_manual_amount: p.fire_number_manual_amount,
        swr_pct: swr,
        horizon_lifespan_age: horizon as u32,
        success_threshold_pct: clamp_int(
            p.success_threshold_pct as int,
            MIN_SUCCESS_THRESHOLD_PCT as int,
            MAX_SUCCESS_THRESHOLD_PCT as int,
        ) as u32,
        coast_mode: p.coast_mode,
        coast_stop_age: match p.coast_stop_age {
            Some(a) => Some(clamp_int(a as int, MIN_PROFILE_AGE as int, coast_ceiling) as u32),
            None => None,
        },
        withdrawal_rule: resolved_rule(clamped_rule(p.withdrawal_rule), swr),
        pension: match p.pension {
            Some(pen) => Some(resolved_pension(pen, swr, horizon, p.migrated_from_pension_bridge)),
            None => None,
        },
        partial_retirement: match p.partial_retirement {
            Some(par) => Some(resolved_partial(par, horizon)),
            None => None,
        },
        migrated_from_pension_bridge: p.migrated_from_pension_bridge,
    }
}

fn resolve_pension(pen: PensionPlan, swr: Dec, horizon: u32, migrated: bool) -> (r: PensionPlan)
    requires
        0 <= swr.units() <= 6 * one_unit(),
        MIN_HORIZON_LIFESPAN_AGE <= horizon <= MAX_HORIZON_LIFESPAN_AGE,
    ensures
        r == resolved_pension(pen, swr, horizon as int, migrated),
{
    proof {
        crate::decimal::lemma_int_units(0);
        crate::decimal::lemma_int_units(1);
        crate::decimal::lemma_int_units(20);
    }
    let mut pen = pen;
    if migrated {
        pen.bridge_enabled = true;
    }
    pen.monthly_amount_today = dec_max(pen.monthly_amount_today, Dec::zero());
    let floor = if MIN_PENSION_AGE < horizon {
        MIN_PENSION_AGE
    } else {
        horizon
    };
    pen.starts_at_age = clamp_u32(pen.starts_at_age, floor, horizon);
    pen.fraction_while_partial = dec_clamp(pen.fraction_while_partial, Dec::zero(), Dec::one());
    if pen.bridge_enabled {
        pen.bridge_max_pct = Some(
            match pen.bridge_max_pct {
                Some(v) => v,
                None => default_bridge_pct(swr),
            },
        );
        pen.bridge_max_years = Some(
            match pen.bridge_max_years {
                Some(y) => y,
                None => DEFAULT_BRIDGE_YEARS,
            },
        );
    }
    let ceiling = Dec::from_u32(MAX_BRIDGE_PCT);
    let floor_pct = dec_min(swr, ceiling);
    pen.bridge_max_pct = match pen.bridge_max_pct {
        Some(v) => Some(dec_clamp(v, floor_pct, ceiling)),
        None => None,
    };
    pen.bridge_max_years = match pen.bridge_max_years {
        Some(y) => Some(clamp_u32(y, MIN_BRIDGE_YEARS, MAX_BRIDGE_YEARS)),
        None => None,
    };
    pen
}

fn resolve_partial(par: PartialRetirement, horizon: u32) -> (r: PartialRetirement)
    requires
        MIN_PROFILE_AGE <= horizon,
    ensures
        r == resolved_partial(par, horizon as int),
{
    let mut par = par;
    par.income_monthly_today = dec_max(par.income_monthly_today, Dec::zero());
    par.starts_at_age = match par.starts_at_age {
        Some(a) => Some(clamp_u32(a, MIN_PROFILE_AGE, horizon)),
        None => None,
    };
    par
}

/// Defaults and clamps on read: never rejects, always returns a profile whose every number lies
/// in its range.
pub fn resolve_retirement_profile(stored: Option<RetirementProfile>) -> (r: RetirementProfile)
    ensures
        r == resolved_profile(stored),
{
    proof {
        crate::decimal::lemma_int_units(0);
        crate::decimal::lemma_int_units(6);
        crate::decimal::lemma_int_units(20);
        crate::decimal::lemma_int_units(50);
    }
    let mut p = match stored {
        Some(p) => p,
        None => default_retirement_profile(),
    };
    p.horizon_lifespan_age = clamp_u32(
        p.horizon_lifespan_age,
        MIN_HORIZON_LIFESPAN_AGE,
        MAX_HORIZON_LIFESPAN_AGE,
    );
    p.swr_pct = dec_clamp(p.swr_pct, Dec::zero(), Dec::from_u32(MAX_SWR_PCT));
    p.success_threshold_pct = clamp_u32(
        p.success_threshold_pct,
        MIN_SUCCESS_THRESHOLD_PCT,
        MAX_SUCCESS_THRESHOLD_PCT,
    );
    let horizon = p.horizon_lifespan_age;
    p.target_retirement_age = match p.target_retirement_age {
        Some(a) => Some(clamp_u32(a, MIN_PROFILE_AGE, horizon)),
        None => None,
    };
    let base = match p.target_retirement_age {
        Some(a) => a,
        None => horizon,
    };
    let coast_ceiling = if base < MIN_PROFILE_AGE {
        MIN_PROFILE_AGE
    } else {
        base
    };
    p.coast_stop_age = match p.coast_stop_age {
        Some(a) => Some(clamp_u32(a, MIN_PROFILE_AGE, coast_ceiling)),
        None => None,
    };
    let max_withdrawal = Dec::from_u32(MAX_WITHDRAWAL_PCT);
    let max_guardrail = Dec::from_u32(MAX_GUARDRAIL_PCT);
    p.withdrawal_rule.pct = clamp_pct(p.withdrawal_rule.pct, max_withdrawal);
    p.withdrawal_rule.start_pct = clamp_pct(p.withdrawal_rule.start_pct, max_withdrawal);
    p.withdrawal_rule.end_pct = clamp_pct(p.withdrawal_rule.end_pct, max_withdrawal);
    p.withdrawal_rule.band_pct = clamp_pct(p.withdrawal_rule.band_pct, max_guardrail);
    p.withdrawal_rule.adjust_pct = clamp_pct(p.withdrawal_rule.adjust_pct, max_guardrail);
    p.withdrawal_rule = resolve_withdrawal_rule(&p.withdrawal_rule, p.swr_pct);
    let swr = p.swr_pct;
    p.pension = match p.pension {
        Some(pen) => Some(resolve_pension(pen, swr, horizon, p.migrated_from_pension_bridge)),
        None => None,
    };
    p.partial_retirement = match p.partial_retirement {
        Some(par) => Some(resolve_partial(par, horizon)),
        None => None,
    };
    p
}

/// Every number of a profile lies in the range the resolution promises.
pub open spec fn profile_in_range(r: RetirementProfile) -> bool {
    let horizon = r.horizon_lifespan_age as int;
    &&& MIN_HORIZON_LIFESPAN_AGE <= horizon <= MAX_HORIZON_LIFESPAN_AGE
    &&& 0 <= r.swr_pct.units() <= MAX_SWR_PCT * one_unit()
    &&& MIN_SUCCESS_THRESHOLD_PCT <= r.success_threshold_pct <= MAX_SUCCESS_THRESHOLD_PCT
    &&& (r.target_retirement_age matches Some(a) ==> MIN_PROFILE_AGE <= a <= horizon)
    &&& (r.coast_stop_age matches Some(c) ==> MIN_PROFILE_AGE <= c && c <= (
    match r.target_retirement_age {
        Some(a) => a as int,
        None => horizon,
    }))
    &&& (r.withdrawal_rule.pct matches Some(v) ==> 0 <= v.units() <= MAX_WITHDRAWAL_PCT * one_unit())
    &&& (r.withdrawal_rule.start_pct matches Some(v) ==> 0 <= v.units() <= MAX_WITHDRAWAL_PCT
        * one_unit())
    &&& (r.withdrawal_rule.end_pct matches Some(v) ==> 0 <= v.units() <= MAX_WITHDRAWAL_PCT
        * one_unit())
    &&& (r.withdrawal_rule.band_pct matches Some(v) ==> 0 <= v.units() <= MAX_GUARDRAIL_PCT
        * one_unit())
    &&& (r.withdrawal_rule.adjust_pct matches Some(v) ==> 0 <= v.units() <= MAX_GUARDRAIL_PCT
        * one_unit())
    &&& (r.pension matches Some(pen) ==> {
        &&& MIN_PENSION_AGE <= pen.starts_at_age <= horizon
        &&& pen.monthly_amount_today.units() >= 0
        &&& 0 <= pen.fraction_while_partial.units() <= one_unit()
        &&& (pen.bridge_enabled ==> pen.bridge_max_pct is Some && pen.bridge_max_years is Some)
        &&& (pen.bridge_max_pct matches Some(v) ==> r.swr_pct.units() <= v.units()
            <= MAX_BRIDGE_PCT * one_unit())
        &&& (pen.bridge_max_years matches Some(y) ==> MIN_BRIDGE_YEARS <= y <= MAX_BRIDGE_YEARS)
    })
    &&& (r.partial_retirement matches Some(par) ==> {
        &&& par.income_monthly_today.units() >= 0
        &&& (par.starts_at_age matches Some(a) ==> MIN_PROFILE_AGE <= a <= horizon)
    })
}

/// Law: whatever was stored, the resolved profile has every number in its range, and a switched-on
/// bridge always carries both of its numbers.
pub proof fn law_resolved_profile_in_range(stored: Option<RetirementProfile>)
    ensures
        profile_in_range(resolved_profile(stored)),
{
    crate::decimal::lemma_int_units(0);
    crate::decimal::lemma_int_units(1);
    crate::decimal::lemma_int_units(6);
    crate::decimal::lemma_int_units(20);
    crate::decimal::lemma_int_units(50);
}

/// Law: resolving an already resolved profile changes nothing (the what-if re-resolves the
/// resolved profile, so an inherited percentage is inherited again and nothing else moves).
pub proof fn law_resolution_is_idempotent(stored: Option<RetirementProfile>)
    ensures
        resolved_profile(Some(resolved_profile(stored))) == resolved_profile(stored),
{
    crate::decimal::lemma_int_units(0);
    crate::decimal::lemma_int_units(1);
    crate::decimal::lemma_int_units(6);
    crate::decimal::lemma_int_units(20);
    crate::decimal::lemma_int_units(50);
    let r = resolved_profile(stored);
    let rr = resolved_profile(Some(r));
    assert(rr.withdrawal_rule == r.withdrawal_rule);
    assert(rr.pension == r.pension);
    assert(rr.partial_retirement == r.partial_retirement);
}

/// Law: the retired `pension_bridge` alias switches the bridge on, with both numbers, whenever
/// there is a pension.
pub proof fn law_alias_switches_the_bridge_on(stored: RetirementProfile)
    requires
        stored.migrated_from_pension_bridge,
        stored.pension is Some,
    ensures
        resolved_profile(Some(stored)).pension matches Some(pen) && pen.bridge_enabled
            && pen.bridge_max_pct is Some && pen.bridge_max_years is Some,
{
}

// ---------------------------------------------------------------------------------------------
// Validation on write
// ---------------------------------------------------------------------------------------------

/// The field of a withdrawal rule an error speaks of.
#[derive(Clone, Copy, Debug, PartialEq, Eq, Structural)]
pub enum PctLabel {
    Pct,
    StartPct,
    EndPct,
    BandPct,
    AdjustPct,
}

impl PctLabel {
    pub fn as_str(&self) -> (r: &'static str)
        ensures
            r@ == (match *self {
                PctLabel::Pct => "pct"@,
                PctLabel::StartPct => "start_pct"@,
                PctLabel::EndPct => "end_pct"@,
                PctLabel::BandPct => "band_pct"@,
                PctLabel::AdjustPct => "adjust_pct"@,
            }),
    {
        match self {
            PctLabel::Pct => "pct",
            PctLabel::StartPct => "start_pct",
            PctLabel::EndPct => "end_pct",
            PctLabel::BandPct => "band_pct",
            PctLabel::AdjustPct => "adjust_pct",
        }
    }
}

/// Why a profile, a patch or a field was refused. Each variant has a stable code (`code`); the
/// numbers a message quotes travel with the variant.
#[derive(Clone, Debug, PartialEq, Eq)]
pub enum ProfileError {
    SwrOutOfRange,
    FireManualAmountRequired,
    FireManualAmountNotPositive,
    HorizonLifespanAgeOutOfRange,
    SuccessThresholdOutOfRange,
    TargetRetirementAgeRequired,
    PartialRetirementRequired,
    CoastStopAgeRequired,
    PartialStartAgeRequired,
    RetirementAgeOutOfRange { horizon: u32 },
    PensionAgeOutOfRange { horizon: u32 },
    PensionAmountNotPositive,
    PensionFractionOutOfRange,
    BridgeMaxPctOutOfRange,
    /// The SWR the bridge rate was compared with.
    BridgeMaxPctNotAboveSwr { swr: Dec },
    BridgeMaxYearsOutOfRange,
    CoastStopAgeOutOfRange { ceiling: u32 },
    PartialAgeOutOfRange { horizon: u32 },
    PartialIncomeNegative,
    PartialNotBeforeRetirement,
    WithdrawalPctRequired { label: PctLabel },
    /// The ceiling the percentage was compared with.
    WithdrawalPctOutOfRange { label: PctLabel, max: Dec },
    /// The (possibly inherited) start the end was compared with.
    HybridEndPctNotBelowStart { start: Dec },
    WithdrawalBandOutOfRange { label: PctLabel },
    DecimalInvalid { label: String },
    PatchEmpty,
}

/// The stable code of a profile error.
pub open spec fn profile_error_code(e: ProfileError) -> Seq<char> {
    match e {
        ProfileError::SwrOutOfRange => "swr_out_of_range"@,
        ProfileError::FireManualAmountRequired => "fire_manual_amount_required"@,
        ProfileError::FireManualAmountNotPositive => "fire_manual_amount_not_positive"@,
        ProfileError::HorizonLifespanAgeOutOfRange => "horizon_lifespan_age_out_of_range"@,
        ProfileError::SuccessThresholdOutOfRange => "success_threshold_out_of_range"@,
        ProfileError::TargetRetirementAgeRequired => "target_retirement_age_required"@,
        ProfileError::PartialRetirementRequired => "partial_retirement_required"@,
        ProfileError::CoastStopAgeRequired => "coast_stop_age_required"@,
        ProfileError::PartialStartAgeRequired => "partial_start_age_required"@,
        ProfileError::RetirementAgeOutOfRange { .. } => "retirement_age_out_of_range"@,
        ProfileError::PensionAgeOutOfRange { .. } => "pension_age_out_of_range"@,
        ProfileError::PensionAmountNotPositive => "pension_amount_not_positive"@,
        ProfileError::PensionFractionOutOfRange => "pension_fraction_out_of_range"@,
        ProfileError::BridgeMaxPctOutOfRange => "bridge_max_pct_out_of_range"@,
        ProfileError::BridgeMaxPctNotAboveSwr { .. } => "bridge_max_pct_not_above_swr"@,
        ProfileError::BridgeMaxYearsOutOfRange => "bridge_max_years_out_of_range"@,
        ProfileError::CoastStopAgeOutOfRange { .. } => "coast_stop_age_out_of_range"@,
        ProfileError::PartialAgeOutOfRange { .. } => "partial_age_out_of_range"@,
        ProfileError::PartialIncomeNegative => "partial_income_negative"@,
        ProfileError::PartialNotBeforeRetirement => "partial_not_before_retirement"@,
        ProfileError::WithdrawalPctRequired { .. } => "withdrawal_pct_required"@,
        ProfileError::WithdrawalPctOutOfRange { .. } => "withdrawal_pct_out_of_range"@,
        ProfileError::HybridEndPctNotBelowStart { .. } => "hybrid_end_pct_not_below_start"@,
        ProfileError::WithdrawalBandOutOfRange { .. } => "withdrawal_band_out_of_range"@,
        ProfileError::DecimalInvalid { .. } => "decimal_invalid"@,
        ProfileError::PatchEmpty => "patch_empty"@,
    }
}

impl ProfileError {
    /// The stable `snake_case` code of the error.
    pub fn code(&self) -> (r: &'static str)
        ensures
            r@ == profile_error_code(*self),
            r@.len() > 0,
    {
        proof {
            reveal_strlit("swr_out_of_range");
            reveal_strlit("fire_manual_amount_required");
            reveal_strlit("fire_manual_amount_not_positive");
            reveal_strlit("horizon_lifespan_age_out_of_range");
            reveal_strlit("success_threshold_out_of_range");
            reveal_strlit("target_retirement_age_required");
            reveal_strlit("partial_retirement_required");
            reveal_strlit("coast_stop_age_required");
            reveal_strlit("partial_start_age_required");
            reveal_strlit("retirement_age_out_of_range");
            reveal_strlit("pension_age_out_of_range");
            reveal_strlit("pension_amount_not_positive");
            reveal_strlit("pension_fraction_out_of_range");
            reveal_strlit("bridge_max_pct_out_of_range");
            reveal_strlit("bridge_max_pct_not_above_swr");
            reveal_strlit("bridge_max_years_out_of_range");
            reveal_strlit("coast_stop_age_out_of_range");
            reveal_strlit("partial_age_out_of_range");
            reveal_strlit("partial_income_negative");
            reveal_strlit("partial_not_before_retirement");
            reveal_strlit("withdrawal_pct_required");
            reveal_strlit("withdrawal_pct_out_of_range");
            reveal_strlit("hybrid_end_pct_not_below_start");
            reveal_strlit("withdrawal_band_out_of_range");
            reveal_strlit("decimal_invalid");
            reveal_strlit("patch_empty");
        }
        match self {
            ProfileError::SwrOutOfRange => "swr_out_of_range",
            ProfileError::FireManualAmountRequired => "fire_manual_amount_required",
            ProfileError::FireManualAmountNotPositive => "fire_manual_amount_not_positive",
            ProfileError::HorizonLifespanAgeOutOfRange => "horizon_lifespan_age_out_of_range",
            ProfileError::SuccessThresholdOutOfRange => "success_threshold_out_of_range",
            ProfileError::TargetRetirementAgeRequired => "target_retirement_age_required",
            ProfileError::PartialRetirementRequired => "partial_retirement_required",
            ProfileError::CoastStopAgeRequired => "coast_stop_age_required",
            ProfileError::PartialStartAgeRequired => "partial_start_age_required",
            ProfileError::RetirementAgeOutOfRange { .. } => "retirement_age_out_of_range",
            ProfileError::PensionAgeOutOfRange { .. } => "pension_age_out_of_range",
            ProfileError::PensionAmountNotPositive => "pension_amount_not_positive",
            ProfileError::PensionFractionOutOfRange => "pension_fraction_out_of_range",
            ProfileError::BridgeMaxPctOutOfRange => "bridge_max_pct_out_of_range",
            ProfileError::BridgeMaxPctNotAboveSwr { .. } => "bridge_max_pct_not_above_swr",
            ProfileError::BridgeMaxYearsOutOfRange => "bridge_max_years_out_of_range",
            ProfileError::CoastStopAgeOutOfRange { .. } => "coast_stop_age_out_of_range",
            ProfileError::PartialAgeOutOfRange { .. } => "partial_age_out_of_range",
            ProfileError::PartialIncomeNegative => "partial_income_negative",
            ProfileError::PartialNotBeforeRetirement => "partial_not_before_retirement",
            ProfileError::WithdrawalPctRequired { .. } => "withdrawal_pct_required",
            ProfileError::WithdrawalPctOutOfRange { .. } => "withdrawal_pct_out_of_range",
            ProfileError::HybridEndPctNotBelowStart { .. } => "hybrid_end_pct_not_below_start",
            ProfileError::WithdrawalBandOutOfRange { .. } => "withdrawal_band_out_of_range",
            ProfileError::DecimalInvalid { .. } => "decimal_invalid",
            ProfileError::PatchEmpty => "patch_empty",
        }
    }
}

/// A sizing percentage of a rule: present and in `(0, max]`.
pub open spec fn pct_violation(label: PctLabel, v: Option<Dec>, max: Dec) -> Option<ProfileError> {
    match v {
        None => Some(ProfileError::WithdrawalPctRequired { label }),
        Some(x) => if x.units() <= 0 || x.units() > max.units() {
            Some(ProfileError::WithdrawalPctOutOfRange { label, max })
        } else {
            None
        },
    }
}

/// A guardrails band or adjustment: present and in `(0, 50]`.
pub open spec fn band_violation(label: PctLabel, v: Option<Dec>) -> Option<ProfileError> {
    match v {
        None => Some(ProfileError::WithdrawalPctRequired { label }),
        Some(x) => if x.units() <= 0 || x.units() > MAX_GUARDRAIL_PCT * one_unit() {
            Some(ProfileError::WithdrawalBandOutOfRange { label })
        } else {
            None
        },
    }
}

/// The first field a (resolved) rule is missing or has out of range, for its own kind.
pub open spec fn rule_violation(r: WithdrawalRule) -> Option<ProfileError> {
    let max = whole(MAX_WITHDRAWAL_PCT as int);
    match r.kind {
        WithdrawalRuleKind::FixedReal => None,
        WithdrawalRuleKind::PercentOfBalance => pct_violation(PctLabel::Pct, r.pct, max),
        WithdrawalRuleKind::Hybrid => if pct_violation(PctLabel::StartPct, r.start_pct, max) is Some {
            pct_violation(PctLabel::StartPct, r.start_pct, max)
        } else if pct_violation(PctLabel::EndPct, r.end_pct, max) is Some {
            pct_violation(PctLabel::EndPct, r.end_pct, max)
        } else if r.end_pct.unwrap().units() >= r.start_pct.unwrap().units() {
            Some(ProfileError::HybridEndPctNotBelowStart { start: r.start_pct.unwrap() })
        } else {
            None
        },
        WithdrawalRuleKind::Guardrails => if pct_violation(PctLabel::Pct, r.pct, max) is Some {
            pct_violation(PctLabel::Pct, r.pct, max)
        } else if band_violation(PctLabel::BandPct, r.band_pct) is Some {
            band_violation(PctLabel::BandPct, r.band_pct)
        } else {
            band_violation(PctLabel::AdjustPct, r.adjust_pct)
        },
    }
}

fn need_pct(label: PctLabel, v: Option<Dec>, max: Dec) -> (r: Result<Dec, ProfileError>)
    ensures
        match pct_violation(label, v, max) {
            Some(e) => r == Err::<Dec, ProfileError>(e),
            None => r == Ok::<Dec, ProfileError>(v.unwrap()),
        },
{
    match v {
        None => Err(ProfileError::WithdrawalPctRequired { label }),
        Some(x) => {
            if dec_le(x, Dec::zero()) || dec_lt(max, x) {
                proof {
                    crate::decimal::lemma_int_units(0);
                }
                Err(ProfileError::WithdrawalPctOutOfRange { label, max })
            } else {
                proof {
                    crate::decimal::lemma_int_units(0);
                }
                Ok(x)
            }
        },
    }
}

fn need_band(label: PctLabel, v: Option<Dec>) -> (r: Result<(), ProfileError>)
    ensures
        match band_violation(label, v) {
            Some(e) => r == Err::<(), ProfileError>(e),
            None => r == Ok::<(), ProfileError>(()),
        },
{
    proof {
        crate::decimal::lemma_int_units(0);
        crate::decimal::lemma_int_units(50);
    }
    match v {
        None => Err(ProfileError::WithdrawalPctRequired { label }),
        Some(x) => {
            if dec_le(x, Dec::zero()) || dec_lt(Dec::from_u32(MAX_GUARDRAIL_PCT), x) {
                Err(ProfileError::WithdrawalBandOutOfRange { label })
            } else {
                Ok(())
            }
        },
    }
}

/// Law: a (resolved) rule that passes validation has every percentage its kind uses, each in
/// range: the withdrawal percentage and a hybrid's start and end in `(0, 20]`, a hybrid's end
/// below its start, and a guardrails band and adjustment in `(0, 50]`. A hybrid whose end is not
/// below its start, both in range, is refused naming the start.
pub proof fn law_valid_rule_in_range(r: WithdrawalRule)
    ensures
        rule_violation(r) is None && r.kind == WithdrawalRuleKind::PercentOfBalance ==> r.pct is Some
            && 0 < r.pct.unwrap().units() <= MAX_WITHDRAWAL_PCT * one_unit(),
        rule_violation(r) is None && r.kind == WithdrawalRuleKind::Hybrid ==> r.start_pct is Some
            && r.end_pct is Some && 0 < r.end_pct.unwrap().units() < r.start_pct.unwrap().units()
            <= MAX_WITHDRAWAL_PCT * one_unit(),
        rule_violation(r) is None && r.kind == WithdrawalRuleKind::Guardrails ==> r.pct is Some
            && 0 < r.pct.unwrap().units() <= MAX_WITHDRAWAL_PCT * one_unit() && r.band_pct is Some
            && 0 < r.band_pct.unwrap().units() <= MAX_GUARDRAIL_PCT * one_unit()
            && r.adjust_pct is Some && 0 < r.adjust_pct.unwrap().units() <= MAX_GUARDRAIL_PCT
            * one_unit(),
        r.kind == WithdrawalRuleKind::Hybrid && pct_violation(
            PctLabel::StartPct,
            r.start_pct,
            whole(MAX_WITHDRAWAL_PCT as int),
        ) is None && pct_violation(PctLabel::EndPct, r.end_pct, whole(MAX_WITHDRAWAL_PCT as int))
            is None && r.end_pct.unwrap().units() >= r.start_pct.unwrap().units()
            ==> rule_violation(r) == Some(
            ProfileError::HybridEndPctNotBelowStart { start: r.start_pct.unwrap() },
        ),
{
    crate::decimal::lemma_int_units(MAX_WITHDRAWAL_PCT as int);
}

/// Each kind demands its own fields: the sizing percentage in `(0, 20]`, the hybrid's end below
/// its start, the guardrails band and adjustment in `(0, 50]`.
pub fn validate_withdrawal_rule(r: &WithdrawalRule) -> (res: Result<(), ProfileError>)
    ensures
        match rule_violation(*r) {
            Some(e) => res == Err::<(), ProfileError>(e),
            None => res == Ok::<(), ProfileError>(()),
        },
{
    let max = Dec::from_u32(MAX_WITHDRAWAL_PCT);
    match r.kind {
        WithdrawalRuleKind::FixedReal => Ok(()),
        WithdrawalRuleKind::PercentOfBalance => {
            match need_pct(PctLabel::Pct, r.pct, max) {
                Ok(_) => Ok(()),
                Err(e) => Err(e),
            }
        },
        WithdrawalRuleKind::Hybrid => {
            let start = match need_pct(PctLabel::StartPct, r.start_pct, max) {
                Ok(v) => v,
                Err(e) => {
                    return Err(e);
                },
            };
            let end = match need_pct(PctLabel::EndPct, r.end_pct, max) {
                Ok(v) => v,
                Err(e) => {
                    return Err(e);
                },
            };
            if dec_le(start, end) {
                Err(ProfileError::HybridEndPctNotBelowStart { start })
            } else {
                Ok(())
            }
        },
        WithdrawalRuleKind::Guardrails => {
            match need_pct(PctLabel::Pct, r.pct, max) {
                Ok(_) => {},
                Err(e) => {
                    return Err(e);
                },
            }
            match need_band(PctLabel::BandPct, r.band_pct) {
                Ok(_) => {},
                Err(e) => {
                    return Err(e);
                },
            }
            need_band(PctLabel::AdjustPct, r.adjust_pct)
        },
    }
}

/// The first rule a pension block breaks (ages, amount, fraction, then the bridge's numbers,
/// checked whether the bridge is on or off).
pub open spec fn pension_violation(pen: PensionPlan, swr: Dec, horizon: u32) -> Option<ProfileError> {
    if pen.starts_at_age < MIN_PENSION_AGE || pen.starts_at_age > horizon {
        Some(ProfileError::PensionAgeOutOfRange { horizon })
    } else if pen.monthly_amount_today.units() <= 0 {
        Some(ProfileError::PensionAmountNotPositive)
    } else if pen.fraction_while_partial.units() < 0 || pen.fraction_while_partial.units()
        > one_unit() {
        Some(ProfileError::PensionFractionOutOfRange)
    } else if (pen.bridge_max_pct matches Some(pct) && (pct.units() <= 0 || pct.units()
        > MAX_BRIDGE_PCT * one_unit())) {
        Some(ProfileError::BridgeMaxPctOutOfRange)
    } else if (pen.bridge_max_pct matches Some(pct) && pct.units() <= swr.units()) {
        Some(ProfileError::BridgeMaxPctNotAboveSwr { swr })
    } else if (pen.bridge_max_years matches Some(y) && (y < MIN_BRIDGE_YEARS || y
        > MAX_BRIDGE_YEARS)) {
        Some(ProfileError::BridgeMaxYearsOutOfRange)
    } else {
        None
    }
}

/// The first rule a half-time block breaks.
pub open spec fn partial_violation(par: PartialRetirement, target: Option<u32>, horizon: u32) -> Option<
    ProfileError,
> {
    if (par.starts_at_age matches Some(a) && (a < MIN_PROFILE_AGE || a > horizon)) {
        Some(ProfileError::PartialAgeOutOfRange { horizon })
    } else if par.income_monthly_today.units() < 0 {
        Some(ProfileError::PartialIncomeNegative)
    } else if par.starts_at_age is Some && target is Some && par.starts_at_age.unwrap()
        >= target.unwrap() {
        Some(ProfileError::PartialNotBeforeRetirement)
    } else {
        None
    }
}

/// The first rule a merged profile breaks, in the order the checks run: the SWR, the FIRE
/// number, the horizon, the threshold, what the strategy demands, the ages, the pension and its
/// bridge, the stop age, the half-time phase, and finally the effective withdrawal rule.
pub open spec fn profile_violation(p: RetirementProfile) -> Option<ProfileError> {
    let horizon = p.horizon_lifespan_age;
    if p.swr_pct.units() < 0 || p.swr_pct.units() > MAX_SWR_PCT * one_unit() {
        Some(ProfileError::SwrOutOfRange)
    } else if p.fire_number_mode == FireNumberMode::Manual && p.fire_number_manual_amount is None {
        Some(ProfileError::FireManualAmountRequired)
    } else if p.fire_number_mode == FireNumberMode::Manual
        && p.fire_number_manual_amount.unwrap().units() <= 0 {
        Some(ProfileError::FireManualAmountNotPositive)
    } else if horizon < MIN_HORIZON_LIFESPAN_AGE || horizon > MAX_HORIZON_LIFESPAN_AGE {
        Some(ProfileError::HorizonLifespanAgeOutOfRange)
    } else if p.success_threshold_pct < MIN_SUCCESS_THRESHOLD_PCT || p.success_threshold_pct
        > MAX_SUCCESS_THRESHOLD_PCT {
        Some(ProfileError::SuccessThresholdOutOfRange)
    } else if needs_target_age(p.strategy, p.coast_mode) && p.target_retirement_age is None {
        Some(ProfileError::TargetRetirementAgeRequired)
    } else if p.strategy == RetirementStrategy::Partial && p.partial_retirement is None {
        Some(ProfileError::PartialRetirementRequired)
    } else if p.strategy == RetirementStrategy::Coast && p.coast_mode == CoastMode::FixedStopAge
        && p.coast_stop_age is None {
        Some(ProfileError::CoastStopAgeRequired)
    } else if p.strategy == RetirementStrategy::Partial && (p.partial_retirement matches Some(par)
        && par.mode == PartialStartMode::AtAge && par.starts_at_age is None) {
        Some(ProfileError::PartialStartAgeRequired)
    } else if (p.target_retirement_age matches Some(a) && (a < MIN_PROFILE_AGE || a > horizon)) {
        Some(ProfileError::RetirementAgeOutOfRange { horizon })
    } else if (p.pension matches Some(pen) && pension_violation(pen, p.swr_pct, horizon) is Some) {
        pension_violation(p.pension.unwrap(), p.swr_pct, horizon)
    } else if (p.coast_stop_age matches Some(c) && (c < MIN_PROFILE_AGE || c > (
    match p.target_retirement_age {
        Some(a) => a,
        None => horizon,
    }))) {
        Some(
            ProfileError::CoastStopAgeOutOfRange {
                ceiling: match p.target_retirement_age {
                    Some(a) => a,
                    None => horizon,
                },
            },
        )
    } else if (p.partial_retirement matches Some(par) && partial_violation(
        par,
        p.target_retirement_age,
        horizon,
    ) is Some) {
        partial_violation(p.partial_retirement.unwrap(), p.target_retirement_age, horizon)
    } else {
        rule_violation(resolved_rule(p.withdrawal_rule, p.swr_pct))
    }
}

/// Law: a profile that passes validation has every number in its range: the SWR, the horizon,
/// the threshold, the target retirement age (from 18 to the horizon), the pension's start age
/// (from 50 to the horizon) and amount, the coast stop age (from 18 to the target, or the
/// horizon without one) and the half-time start age (from 18 to the horizon); and every field
/// that its strategy or FIRE mode demands is there.
pub proof fn law_valid_profile_in_range(p: RetirementProfile)
    requires
        profile_violation(p) is None,
    ensures
        0 <= p.swr_pct.units() <= MAX_SWR_PCT * one_unit(),
        MIN_HORIZON_LIFESPAN_AGE <= p.horizon_lifespan_age <= MAX_HORIZON_LIFESPAN_AGE,
        MIN_SUCCESS_THRESHOLD_PCT <= p.success_threshold_pct <= MAX_SUCCESS_THRESHOLD_PCT,
        p.fire_number_mode == FireNumberMode::Manual ==> (p.fire_number_manual_amount matches Some(
            x,
        ) && x.units() > 0),
        needs_target_age(p.strategy, p.coast_mode) ==> p.target_retirement_age is Some,
        p.strategy == RetirementStrategy::Partial ==> p.partial_retirement is Some,
        p.target_retirement_age matches Some(a) ==> MIN_PROFILE_AGE <= a <= p.horizon_lifespan_age,
        p.pension matches Some(pen) ==> MIN_PENSION_AGE <= pen.starts_at_age
            <= p.horizon_lifespan_age && pen.monthly_amount_today.units() > 0,
        p.coast_stop_age matches Some(c) ==> MIN_PROFILE_AGE <= c && (match p.target_retirement_age {
            Some(a) => c <= a,
            None => c <= p.horizon_lifespan_age,
        }),
        p.partial_retirement matches Some(par) ==> (par.starts_at_age matches Some(a)
            ==> MIN_PROFILE_AGE <= a <= p.horizon_lifespan_age),
{
    if let Some(pen) = p.pension {
        assert(pension_violation(pen, p.swr_pct, p.horizon_lifespan_age) is None);
    }
    if let Some(par) = p.partial_retirement {
        assert(partial_violation(par, p.target_retirement_age, p.horizon_lifespan_age) is None);
    }
}

/// Law: a target retirement age outside `[18, horizon]` is never accepted; and on a profile
/// whose SWR, FIRE number, horizon and threshold are in order and which has every field its
/// strategy demands, it is the error answered, naming the horizon.
pub proof fn law_retirement_age_out_of_range_refused(p: RetirementProfile, a: u32)
    requires
        p.target_retirement_age == Some(a),
        a < MIN_PROFILE_AGE || a > p.horizon_lifespan_age,
    ensures
        profile_violation(p) is Some,
        0 <= p.swr_pct.units() <= MAX_SWR_PCT * one_unit() && (p.fire_number_mode
            == FireNumberMode::Manual ==> (p.fire_number_manual_amount matches Some(x)
            && x.units() > 0)) && MIN_HORIZON_LIFESPAN_AGE <= p.horizon_lifespan_age
            <= MAX_HORIZON_LIFESPAN_AGE && MIN_SUCCESS_THRESHOLD_PCT <= p.success_threshold_pct
            <= MAX_SUCCESS_THRESHOLD_PCT && (p.strategy == RetirementStrategy::Partial
            ==> (p.partial_retirement matches Some(par) && (par.mode == PartialStartMode::AtAge
            ==> par.starts_at_age is Some))) && (p.strategy == RetirementStrategy::Coast
            && p.coast_mode == CoastMode::FixedStopAge ==> p.coast_stop_age is Some)
            ==> profile_violation(p) == Some(
            ProfileError::RetirementAgeOutOfRange { horizon: p.horizon_lifespan_age },
        ),
{
}

fn validate_pension(pen: &PensionPlan, swr: Dec, horizon: u32) -> (r: Result<(), ProfileError>)
    ensures
        match pension_violation(*pen, swr, horizon) {
            Some(e) => r == Err::<(), ProfileError>(e),
            None => r == Ok::<(), ProfileError>(()),
        },
{
    proof {
        crate::decimal::lemma_int_units(0);
        crate::decimal::lemma_int_units(1);
        crate::decimal::lemma_int_units(20);
    }
    if pen.starts_at_age < MIN_PENSION_AGE || pen.starts_at_age > horizon {
        return Err(ProfileError::PensionAgeOutOfRange { horizon });
    }
    if dec_le(pen.monthly_amount_today, Dec::zero()) {
        return Err(ProfileError::PensionAmountNotPositive);
    }
    if dec_lt(pen.fraction_while_partial, Dec::zero()) || dec_lt(
        Dec::one(),
        pen.fraction_while_partial,
    ) {
        return Err(ProfileError::PensionFractionOutOfRange);
    }
    if let Some(pct) = pen.bridge_max_pct {
        if dec_le(pct, Dec::zero()) || dec_lt(Dec::from_u32(MAX_BRIDGE_PCT), pct) {
            return Err(ProfileError::BridgeMaxPctOutOfRange);
        }
        if dec_le(pct, swr) {
            return Err(ProfileError::BridgeMaxPctNotAboveSwr { swr });
        }
    }
    if let Some(years) = pen.bridge_max_years {
        if years < MIN_BRIDGE_YEARS || years > MAX_BRIDGE_YEARS {
            return Err(ProfileError::BridgeMaxYearsOutOfRange);
        }
    }
    Ok(())
}

fn validate_partial(par: &PartialRetirement, target: Option<u32>, horizon: u32) -> (r: Result<
    (),
    ProfileError,
>)
    ensures
        match partial_violation(*par, target, horizon) {
            Some(e) => r == Err::<(), ProfileError>(e),
            None => r == Ok::<(), ProfileError>(()),
        },
{
    proof {
        crate::decimal::lemma_int_units(0);
    }
    if let Some(age) = par.starts_at_age {
        if age < MIN_PROFILE_AGE || age > horizon {
            return Err(ProfileError::PartialAgeOutOfRange { horizon });
        }
    }
    if dec_lt(par.income_monthly_today, Dec::zero()) {
        return Err(ProfileError::PartialIncomeNegative);
    }
    if let (Some(start), Some(total)) = (par.starts_at_age, target) {
        if start >= total {
            return Err(ProfileError::PartialNotBeforeRetirement);
        }
    }
    Ok(())
}

/// Bounds and cross-field coherence of a merged profile, on the write paths only. Returns the
/// first rule broken; the effective withdrawal rule (with the SWR inherited) is checked last.
pub fn validate_retirement_profile(p: &RetirementProfile) -> (r: Result<(), ProfileError>)
    ensures
        match profile_violation(*p) {
            Some(e) => r == Err::<(), ProfileError>(e),
            None => r == Ok::<(), ProfileError>(()),
        },
{
    proof {
        crate::decimal::lemma_int_units(0);
        crate::decimal::lemma_int_units(6);
    }
    if dec_lt(p.swr_pct, Dec::zero()) || dec_lt(Dec::from_u32(MAX_SWR_PCT), p.swr_pct) {
        return Err(ProfileError::SwrOutOfRange);
    }
    match p.fire_number_mode {
        FireNumberMode::Manual => {
            match p.fire_number_manual_amount {
                None => {
                    return Err(ProfileError::FireManualAmountRequired);
                },
                Some(amt) => {
                    if dec_le(amt, Dec::zero()) {
                        return Err(ProfileError::FireManualAmountNotPositive);
                    }
                },
            }
        },
        FireNumberMode::AnnualExpense | FireNumberMode::CurrentIncome => {},
    }
    let horizon = p.horizon_lifespan_age;
    if horizon < MIN_HORIZON_LIFESPAN_AGE || horizon > MAX_HORIZON_LIFESPAN_AGE {
        return Err(ProfileError::HorizonLifespanAgeOutOfRange);
    }
    if p.success_threshold_pct < MIN_SUCCESS_THRESHOLD_PCT || p.success_threshold_pct
        > MAX_SUCCESS_THRESHOLD_PCT {
        return Err(ProfileError::SuccessThresholdOutOfRange);
    }
    if requires_target_age(p.strategy, p.coast_mode) && p.target_retirement_age.is_none() {
        return Err(ProfileError::TargetRetirementAgeRequired);
    }
    let partial_strategy = matches!(p.strategy, RetirementStrategy::Partial);
    if partial_strategy && p.partial_retirement.is_none() {
        return Err(ProfileError::PartialRetirementRequired);
    }
    if matches!(p.strategy, RetirementStrategy::Coast) && matches!(
        p.coast_mode,
        CoastMode::FixedStopAge
    ) && p.coast_stop_age.is_none() {
        return Err(ProfileError::CoastStopAgeRequired);
    }
    if partial_strategy {
        if let Some(par) = &p.partial_retirement {
            if matches!(par.mode, PartialStartMode::AtAge) && par.starts_at_age.is_none() {
                return Err(ProfileError::PartialStartAgeRequired);
            }
        }
    }
    if let Some(age) = p.target_retirement_age {
        if age < MIN_PROFILE_AGE || age > horizon {
            return Err(ProfileError::RetirementAgeOutOfRange { horizon });
        }
    }
    if let Some(pen) = &p.pension {
        match validate_pension(pen, p.swr_pct, horizon) {
            Ok(()) => {},
            Err(e) => {
                return Err(e);
            },
        }
    }
    if let Some(age) = p.coast_stop_age {
        let ceiling = match p.target_retirement_age {
            Some(a) => a,
            None => horizon,
        };
        if age < MIN_PROFILE_AGE || age > ceiling {
            return Err(ProfileError::CoastStopAgeOutOfRange { ceiling });
        }
    }
    if let Some(par) = &p.partial_retirement {
        match validate_partial(par, p.target_retirement_age, horizon) {
            Ok(()) => {},
            Err(e) => {
                return Err(e);
            },
        }
    }
    validate_withdrawal_rule(&resolve_withdrawal_rule(&p.withdrawal_rule, p.swr_pct))
}

// ---------------------------------------------------------------------------------------------
// The field-by-field patch
// ---------------------------------------------------------------------------------------------

/// Field-by-field changes: an absent field is left alone; for the optional fields, `Some(None)`
/// clears. The withdrawal rule and the pension are replaced whole.
#[derive(Clone, Copy, Debug)]
pub struct RetirementProfilePatch {
    pub strategy: Option<RetirementStrategy>,
    pub target_retirement_age: Option<Option<u32>>,
    pub fire_number_mode: Option<FireNumberMode>,
    pub fire_number_manual_amount: Option<Option<Dec>>,
    pub swr_pct: Option<Dec>,
    pub horizon_lifespan_age: Option<u32>,
    pub success_threshold_pct: Option<u32>,
    pub coast_mode: Option<CoastMode>,
    pub coast_stop_age: Option<Option<u32>>,
    pub withdrawal_rule: Option<WithdrawalRule>,
    pub pension: Option<Option<PensionPlan>>,
    pub partial_retirement: Option<Option<PartialRetirement>>,
}

/// The value a patched field ends with.
pub open spec fn or_keep<T>(patch: Option<T>, base: T) -> T {
    match patch {
        Some(v) => v,
        None => base,
    }
}

/// Nothing to change.
pub open spec fn patch_is_empty(p: RetirementProfilePatch) -> bool {
    &&& p.strategy is None
    &&& p.target_retirement_age is None
    &&& p.fire_number_mode is None
    &&& p.fire_number_manual_amount is None
    &&& p.swr_pct is None
    &&& p.horizon_lifespan_age is None
    &&& p.success_threshold_pct is None
    &&& p.coast_mode is None
    &&& p.coast_stop_age is None
    &&& p.withdrawal_rule is None
    &&& p.pension is None
    &&& p.partial_retirement is None
}

/// The pension of `base` with the retired alias materialised: a profile stored with the alias
/// gets its bridge switched on at its first write (only the switch; the numbers stay derived).
pub open spec fn materialised_pension(base: RetirementProfile) -> Option<PensionPlan> {
    match base.pension {
        Some(pen) => if base.migrated_from_pension_bridge {
            Some(PensionPlan { bridge_enabled: true, ..pen })
        } else {
            Some(pen)
        },
        None => None,
    }
}

/// `base` with the patch applied, field by field.
pub open spec fn patched(patch: RetirementProfilePatch, base: RetirementProfile) -> RetirementProfile {
    RetirementProfile {
        strategy: or_keep(patch.strategy, base.strategy),
        target_retirement_age: or_keep(patch.target_retirement_age, base.target_retirement_age),
        fire_number_mode: or_keep(patch.fire_number_mode, base.fire_number_mode),
        fire_number_manual_amount: or_keep(
            patch.fire_number_manual_amount,
            base.fire_number_manual_amount,
        ),
        swr_pct: or_keep(patch.swr_pct, base.swr_pct),
        horizon_lifespan_age: or_keep(patch.horizon_lifespan_age, base.horizon_lifespan_age),
        success_threshold_pct: or_keep(patch.success_threshold_pct, base.success_threshold_pct),
        coast_mode: or_keep(patch.coast_mode, base.coast_mode),
        coast_stop_age: or_keep(patch.coast_stop_age, base.coast_stop_age),
        withdrawal_rule: or_keep(patch.withdrawal_rule, base.withdrawal_rule),
        pension: or_keep(patch.pension, materialised_pension(base)),
        partial_retirement: or_keep(patch.partial_retirement, base.partial_retirement),
        migrated_from_pension_bridge: base.migrated_from_pension_bridge,
    }
}

/// The patch's value when it names one, the base's otherwise.
fn keep<T: Copy>(patch: Option<T>, base: T) -> (r: T)
    ensures
        r == or_keep(patch, base),
{
    match patch {
        Some(v) => v,
        None => base,
    }
}

impl Default for RetirementProfilePatch {
    fn default() -> (r: Self)
        ensures
            patch_is_empty(r),
    {
        RetirementProfilePatch {
            strategy: None,
            target_retirement_age: None,
            fire_number_mode: None,
            fire_number_manual_amount: None,
            swr_pct: None,
            horizon_lifespan_age: None,
            success_threshold_pct: None,
            coast_mode: None,
            coast_stop_age: None,
            withdrawal_rule: None,
            pension: None,
            partial_retirement: None,
        }
    }
}

impl RetirementProfilePatch {
    /// Applies the patch to a base, without validating or storing.
    pub fn apply_to(&self, base: &RetirementProfile) -> (r: RetirementProfile)
        ensures
            r == patched(*self, *base),
    {
        let pension = match base.pension {
            Some(pen) => {
                if base.migrated_from_pension_bridge {
                    let mut pen = pen;
                    pen.bridge_enabled = true;
                    Some(pen)
                } else {
                    Some(pen)
                }
            },
            None => None,
        };
        RetirementProfile {
            strategy: keep(self.strategy, base.strategy),
            target_retirement_age: keep(self.target_retirement_age, base.target_retirement_age),
            fire_number_mode: keep(self.fire_number_mode, base.fire_number_mode),
            fire_number_manual_amount: keep(
                self.fire_number_manual_amount,
                base.fire_number_manual_amount,
            ),
            swr_pct: keep(self.swr_pct, base.swr_pct),
            horizon_lifespan_age: keep(self.horizon_lifespan_age, base.horizon_lifespan_age),
            success_threshold_pct: keep(self.success_threshold_pct, base.success_threshold_pct),
            coast_mode: keep(self.coast_mode, base.coast_mode),
            coast_stop_age: keep(self.coast_stop_age, base.coast_stop_age),
            withdrawal_rule: keep(self.withdrawal_rule, base.withdrawal_rule),
            pension: keep(self.pension, pension),
            partial_retirement: keep(self.partial_retirement, base.partial_retirement),
            migrated_from_pension_bridge: base.migrated_from_pension_bridge,
        }
    }

    pub fn is_empty(&self) -> (r: bool)
        ensures
            r == patch_is_empty(*self),
    {
        self.strategy.is_none() && self.target_retirement_age.is_none()
            && self.fire_number_mode.is_none() && self.fire_number_manual_amount.is_none()
            && self.swr_pct.is_none() && self.horizon_lifespan_age.is_none()
            && self.success_threshold_pct.is_none() && self.coast_mode.is_none()
            && self.coast_stop_age.is_none() && self.withdrawal_rule.is_none()
            && self.pension.is_none() && self.partial_retirement.is_none()
    }
}

/// Law: an empty patch changes nothing, but for switching on the bridge of a profile stored
/// with the retired alias.
pub proof fn law_empty_patch_changes_nothing(patch: RetirementProfilePatch, base: RetirementProfile)
    requires
        patch_is_empty(patch),
    ensures
        patched(patch, base) == (RetirementProfile { pension: materialised_pension(base), ..base }),
        !base.migrated_from_pension_bridge ==> patched(patch, base) == base,
{
}

/// Law: the patch only touches what it names. A field the patch leaves out keeps the base's
/// value (the pension up to the alias's switch), and a field it names takes the patch's value.
pub proof fn law_patch_touches_only_what_it_names(p: RetirementProfilePatch, base: RetirementProfile)
    ensures
        p.strategy is None ==> patched(p, base).strategy == base.strategy,
        p.strategy matches Some(v) ==> patched(p, base).strategy == v,
        p.target_retirement_age is None ==> patched(p, base).target_retirement_age == base.target_retirement_age,
        p.target_retirement_age matches Some(v) ==> patched(p, base).target_retirement_age == v,
        p.fire_number_mode is None ==> patched(p, base).fire_number_mode == base.fire_number_mode,
        p.fire_number_mode matches Some(v) ==> patched(p, base).fire_number_mode == v,
        p.fire_number_manual_amount is None ==> patched(p, base).fire_number_manual_amount == base.fire_number_manual_amount,
        p.fire_number_manual_amount matches Some(v) ==> patched(p, base).fire_number_manual_amount == v,
        p.swr_pct is None ==> patched(p, base).swr_pct == base.swr_pct,
        p.swr_pct matches Some(v) ==> patched(p, base).swr_pct == v,
        p.horizon_lifespan_age is None ==> patched(p, base).horizon_lifespan_age == base.horizon_lifespan_age,
        p.horizon_lifespan_age matches Some(v) ==> patched(p, base).horizon_lifespan_age == v,
        p.success_threshold_pct is None ==> patched(p, base).success_threshold_pct == base.success_threshold_pct,
        p.success_threshold_pct matches Some(v) ==> patched(p, base).success_threshold_pct == v,
        p.coast_mode is None ==> patched(p, base).coast_mode == base.coast_mode,
        p.coast_mode matches Some(v) ==> patched(p, base).coast_mode == v,
        p.coast_stop_age is None ==> patched(p, base).coast_stop_age == base.coast_stop_age,
        p.coast_stop_age matches Some(v) ==> patched(p, base).coast_stop_age == v,
        p.withdrawal_rule is None ==> patched(p, base).withdrawal_rule == base.withdrawal_rule,
        p.withdrawal_rule matches Some(v) ==> patched(p, base).withdrawal_rule == v,
        p.partial_retirement is None ==> patched(p, base).partial_retirement == base.partial_retirement,
        p.partial_retirement matches Some(v) ==> patched(p, base).partial_retirement == v,
        p.pension is None && !base.migrated_from_pension_bridge ==> patched(p, base).pension
            == base.pension,
        p.pension is None && base.migrated_from_pension_bridge ==> patched(p, base).pension
            == (match base.pension {
            Some(pen) => Some(PensionPlan { bridge_enabled: true, ..pen }),
            None => None,
        }),
        p.pension matches Some(v) ==> patched(p, base).pension == v,
        patched(p, base).migrated_from_pension_bridge == base.migrated_from_pension_bridge,
{
}

/// A decimal of the wire: the trimmed text as `rust_decimal` reads it, or `decimal_invalid`
/// naming the field.
pub fn parse_profile_decimal(label: &str, raw: &str) -> (r: Result<Dec, ProfileError>)
    ensures
        match decimal_parse(trimmed(raw@)) {
            Some(pair) => r matches Ok(d) && d.is_pair(pair),
            None => r matches Err(ProfileError::DecimalInvalid { label: l }) && l@ == label@,
        },
{
    let t = str_trim(raw);
    match dec_parse(t) {
        Some(d) => Ok(d),
        None => Err(ProfileError::DecimalInvalid { label: String::from_str(label) }),
    }
}

/// The body of a profile PATCH, with its decimals still as text.
#[derive(Clone, Debug)]
pub struct PatchRetirementProfileBody {
    pub strategy: Option<RetirementStrategy>,
    pub target_retirement_age: Option<Option<u32>>,
    pub fire_number_mode: Option<FireNumberMode>,
    pub fire_number_manual_amount: Option<Option<String>>,
    pub swr_pct: Option<String>,
    pub horizon_lifespan_age: Option<u32>,
    pub success_threshold_pct: Option<u32>,
    pub coast_mode: Option<CoastMode>,
    pub coast_stop_age: Option<Option<u32>>,
    pub withdrawal_rule: Option<WithdrawalRule>,
    pub pension: Option<Option<PensionPlan>>,
    pub partial_retirement: Option<Option<PartialRetirement>>,
}

/// The text of an optional decimal of the body parses (or there is none).
pub open spec fn text_parses(raw: Option<String>) -> bool {
    match raw {
        Some(t) => decimal_parse(trimmed(t@)) is Some,
        None => true,
    }
}

impl PatchRetirementProfileBody {
    /// The body as a domain patch: the same fields, with the two decimals parsed (the manual
    /// amount first). Fails with `decimal_invalid` on the first decimal that does not parse.
    pub fn to_patch(&self) -> (r: Result<RetirementProfilePatch, ProfileError>)
        ensures
            r is Ok <==> (text_parses(
                match self.fire_number_manual_amount {
                    Some(Some(t)) => Some(t),
                    _ => None,
                },
            ) && text_parses(self.swr_pct)),
            r matches Ok(p) ==> {
                &&& p.strategy == self.strategy
                &&& p.target_retirement_age == self.target_retirement_age
                &&& p.fire_number_mode == self.fire_number_mode
                &&& p.horizon_lifespan_age == self.horizon_lifespan_age
                &&& p.success_threshold_pct == self.success_threshold_pct
                &&& p.coast_mode == self.coast_mode
                &&& p.coast_stop_age == self.coast_stop_age
                &&& p.withdrawal_rule == self.withdrawal_rule
                &&& p.pension == self.pension
                &&& p.partial_retirement == self.partial_retirement
                &&& (match self.fire_number_manual_amount {
                    None => p.fire_number_manual_amount is None,
                    Some(None) => p.fire_number_manual_amount == Some(None::<Dec>),
                    Some(Some(t)) => p.fire_number_manual_amount matches Some(Some(d))
                        && d.is_pair(decimal_parse(trimmed(t@)).unwrap()),
                })
                &&& (match self.swr_pct {
                    None => p.swr_pct is None,
                    Some(t) => p.swr_pct matches Some(d) && d.is_pair(
                        decimal_parse(trimmed(t@)).unwrap(),
                    ),
                })
            },
    {
        let manual = match &self.fire_number_manual_amount {
            None => None,
            Some(None) => Some(None),
            Some(Some(raw)) => match parse_profile_decimal("fire_number_manual_amount", raw.as_str()) {
                Ok(d) => Some(Some(d)),
                Err(e) => {
                    return Err(e);
                },
            },
        };
        let swr = match &self.swr_pct {
            None => None,
            Some(raw) => match parse_profile_decimal("swr_pct", raw.as_str()) {
                Ok(d) => Some(d),
                Err(e) => {
                    return Err(e);
                },
            },
        };
        Ok(
            RetirementProfilePatch {
                strategy: self.strategy,
                target_retirement_age: self.target_retirement_age,
                fire_number_mode: self.fire_number_mode,
                fire_number_manual_amount: manual,
                swr_pct: swr,
                horizon_lifespan_age: self.horizon_lifespan_age,
                success_threshold_pct: self.success_threshold_pct,
                coast_mode: self.coast_mode,
                coast_stop_age: self.coast_stop_age,
                withdrawal_rule: self.withdrawal_rule,
                pension: self.pension,
                partial_retirement: self.partial_retirement,
            },
        )
    }
}

/// The before and after of a profile patch: what was read, what is read after, and what is
/// stored (the merged profile, unclamped).
#[derive(Clone, Copy, Debug)]
pub struct RetirementProfilePatchOutcome {
    pub before: RetirementProfile,
    pub after: RetirementProfile,
    pub after_stored: RetirementProfile,
}

/// The core of a profile PATCH: an empty patch (with no birth date either) is refused; the patch
/// is merged onto what is stored (or the default), never onto the resolved profile; the merge is
/// validated unclamped; and the before/after are the resolved readings.
pub fn patch_retirement_profile_core(
    stored: Option<RetirementProfile>,
    patchset: &RetirementProfilePatch,
    birth_date_patch_given: bool,
) -> (r: Result<RetirementProfilePatchOutcome, ProfileError>)
    ensures
        patch_is_empty(*patchset) && !birth_date_patch_given ==> r == Err::<
            RetirementProfilePatchOutcome,
            ProfileError,
        >(ProfileError::PatchEmpty),
        !(patch_is_empty(*patchset) && !birth_date_patch_given) ==> {
            let merged = patched(*patchset, or_keep(stored, spec_default_profile()));
            match profile_violation(merged) {
                Some(e) => r == Err::<RetirementProfilePatchOutcome, ProfileError>(e),
                None => r matches Ok(o) && o.before == resolved_profile(stored) && o.after_stored
                    == merged && o.after == resolved_profile(Some(merged)),
            }
        },
{
    if patchset.is_empty() && !birth_date_patch_given {
        return Err(ProfileError::PatchEmpty);
    }
    let base = match stored {
        Some(p) => p,
        None => default_retirement_profile(),
    };
    let before = resolve_retirement_profile(stored);
    let after_stored = patchset.apply_to(&base);
    match validate_retirement_profile(&after_stored) {
        Ok(()) => {},
        Err(e) => {
            return Err(e);
        },
    }
    let after = resolve_retirement_profile(Some(after_stored));
    Ok(RetirementProfilePatchOutcome { before, after, after_stored })
}

} // verus!
