use futurefin_api::date::Date;
use futurefin_api::decimal::Dec;
use futurefin_api::profile::{default_retirement_profile, RetirementProfilePatch, RetirementStrategy};
use futurefin_api::series::RequestError;
use futurefin_api::whatif::{
    add_to_every_month, apply_asset_return_overrides, apply_income_growth, apply_income_steps,
    apply_liability_override, apply_liability_overrides, apply_one_off, debt_free_reading,
    liability_cash_aggregates, months_delta, resolve_income_pause, resolve_timing,
    scenario_monthly_adjustment, scenario_profile, sim_deltas, sim_overrides_of, simulable_view,
    solve_requested, validate_simulation_spec, plan_figures_of, runway_reading, savings_rate_of,
    PlanReading, RunwayOutcome, CashAxis, EarlyRepaymentEffect, IncomePauseSpec,
    IncomeStepSpec, LiabilityOverrideSpec, LiabilityTerms, RepaymentModel, SideFigures, SimError,
    SimulationSpec,
};
use rust_decimal::Decimal;

fn d(y: i32, m: u32, day: u32) -> Date {
    Date::from_ymd_opt(y, m, day).unwrap()
}

fn whole(n: i64) -> Dec {
    Dec::from_i64(n)
}

fn rd(x: Dec) -> Decimal {
    Decimal::from_i128_with_scale(x.mantissa_i128(), x.scale_u32())
}

fn spec() -> SimulationSpec {
    SimulationSpec {
        months: None,
        one_off_amount: None,
        one_off_month_index: None,
        one_off_date: None,
        extra_monthly_expense: None,
        extra_monthly_cash_adjustment: None,
        extra_monthly_savings: None,
        swr_pct: None,
        annual_inflation_percent: None,
        retirement_annual_expense: None,
        asset_return_overrides: Vec::new(),
        liability_overrides: Vec::new(),
        income_growth_real_pct_annual: None,
        income_steps: Vec::new(),
        profile_overrides: None,
        income_pause: None,
        solve_extra_monthly_expense_keeping_date: None,
        monte_carlo: None,
        include_series: false,
    }
}

fn liability_override(id: u128) -> LiabilityOverrideSpec {
    LiabilityOverrideSpec {
        liability_id: id,
        extra_monthly_principal: None,
        lump_sum_amount: None,
        lump_sum_month_index: None,
        lump_sum_date: None,
        apr_percent: None,
        repayment_model: None,
        early_repayment_fee_pct: None,
        early_repayment_effect: None,
    }
}

fn code_of(s: &SimulationSpec) -> &'static str {
    match validate_simulation_spec(s) {
        Ok(_) => "ok",
        Err(e) => e.code(),
    }
}

// ---------------------------------------------------------------------------------------------
// Bounds of the axes
// ---------------------------------------------------------------------------------------------

#[test]
fn an_empty_scenario_passes_with_zero_cash() {
    let cash = validate_simulation_spec(&spec()).unwrap();
    assert_eq!(cash.extra_expense, Dec::zero());
    assert_eq!(cash.extra_cash_adjustment, Dec::zero());
    assert_eq!(cash.extra_savings, Dec::zero());
    let mut s = spec();
    s.extra_monthly_expense = Some(whole(-300));
    s.extra_monthly_savings = Some(whole(200));
    let cash = validate_simulation_spec(&s).unwrap();
    assert_eq!(cash.extra_expense, whole(-300), "the expense axis is the only signed one");
    assert_eq!(cash.extra_savings, whole(200));
}

#[test]
fn each_axis_is_bounded_before_anything_is_assembled() {
    let mut s = spec();
    s.months = Some(11);
    assert_eq!(validate_simulation_spec(&s).unwrap_err(), SimError::Request(RequestError::MonthsOutOfRange));

    let mut s = spec();
    s.extra_monthly_cash_adjustment = Some(whole(-1));
    assert_eq!(
        validate_simulation_spec(&s).unwrap_err(),
        SimError::AmountNegative { axis: CashAxis::ExtraMonthlyCashAdjustment }
    );
    assert_eq!(code_of(&s), "amount_negative");
    assert_eq!(CashAxis::ExtraMonthlySavings.name(), "extra_monthly_savings");

    let mut s = spec();
    s.retirement_annual_expense = Some(whole(0));
    assert_eq!(code_of(&s), "retirement_expense_not_positive");

    let mut s = spec();
    s.asset_return_overrides = vec![(1, whole(5)), (2, whole(-100))];
    assert_eq!(validate_simulation_spec(&s).unwrap_err(), SimError::ReturnPercentTooLow { asset_id: 2 });
    s.asset_return_overrides = vec![(2, whole(-99))];
    assert_eq!(code_of(&s), "ok");

    let mut s = spec();
    s.income_growth_real_pct_annual = Some(whole(0));
    assert_eq!(code_of(&s), "income_growth_no_op");
    s.income_growth_real_pct_annual = Some(whole(21));
    assert_eq!(code_of(&s), "income_growth_out_of_range");
    s.income_growth_real_pct_annual = Some(whole(-10));
    assert_eq!(code_of(&s), "ok");

    let mut s = spec();
    s.income_steps = vec![IncomeStepSpec { month_index: Some(3), date: None, delta_monthly: whole(100) }; 25];
    assert_eq!(code_of(&s), "income_steps_too_many");
    s.income_steps = vec![IncomeStepSpec { month_index: Some(3), date: None, delta_monthly: whole(0) }];
    assert_eq!(code_of(&s), "income_step_delta_zero");
    s.income_steps = vec![IncomeStepSpec { month_index: Some(3), date: Some(d(2027, 1, 1)), delta_monthly: whole(5) }];
    assert_eq!(code_of(&s), "income_step_timing_ambiguous");

    let pause = IncomePauseSpec { from_month_index: Some(2), from_date: None, months: 12, income_fraction: Dec::zero() };
    let mut s = spec();
    s.income_pause = Some(IncomePauseSpec { months: 0, ..pause });
    assert_eq!(code_of(&s), "income_pause_months_zero");
    s.income_pause = Some(IncomePauseSpec { income_fraction: whole(1), ..pause });
    assert_eq!(code_of(&s), "income_pause_fraction_out_of_range");
    s.income_pause = Some(IncomePauseSpec { from_month_index: None, ..pause });
    assert_eq!(code_of(&s), "income_pause_timing_ambiguous");
    s.income_pause = Some(pause);
    assert_eq!(code_of(&s), "ok");

    let mut s = spec();
    s.one_off_month_index = Some(3);
    assert_eq!(code_of(&s), "one_off_amount_required");
    s.one_off_amount = Some(whole(0));
    assert_eq!(code_of(&s), "one_off_amount_not_positive");
    s.one_off_amount = Some(whole(500));
    s.one_off_date = Some(d(2026, 5, 1));
    assert_eq!(code_of(&s), "one_off_timing_ambiguous");
}

#[test]
fn liability_overrides_are_shaped_in_order() {
    let mut s = spec();
    s.liability_overrides = vec![liability_override(7)];
    assert_eq!(code_of(&s), "liability_override_empty");

    let good = LiabilityOverrideSpec { extra_monthly_principal: Some(whole(100)), ..liability_override(7) };
    s.liability_overrides = vec![good, good];
    assert_eq!(code_of(&s), "liability_override_duplicate");

    s.liability_overrides = vec![LiabilityOverrideSpec { apr_percent: Some(whole(-1)), ..good }];
    assert_eq!(code_of(&s), "liability_apr_negative");
    s.liability_overrides = vec![LiabilityOverrideSpec { early_repayment_fee_pct: Some(whole(3)), ..good }];
    assert_eq!(code_of(&s), "early_repayment_fee_out_of_range");
    s.liability_overrides = vec![LiabilityOverrideSpec { lump_sum_month_index: Some(3), ..good }];
    assert_eq!(code_of(&s), "liability_lump_sum_amount_required");
    s.liability_overrides = vec![LiabilityOverrideSpec { lump_sum_amount: Some(whole(1000)), ..good }];
    assert_eq!(code_of(&s), "liability_lump_sum_timing_ambiguous");
    s.liability_overrides = vec![LiabilityOverrideSpec {
        lump_sum_amount: Some(whole(1000)),
        lump_sum_month_index: Some(3),
        ..good
    }];
    assert_eq!(code_of(&s), "ok");
}

// ---------------------------------------------------------------------------------------------
// Cash axes
// ---------------------------------------------------------------------------------------------

#[test]
fn a_timing_names_a_one_based_month_of_the_anchor() {
    let today = d(2026, 3, 20);
    assert_eq!(resolve_timing(today, Some(7), None), Some(7));
    assert_eq!(resolve_timing(today, None, Some(d(2026, 3, 1))), Some(1));
    assert_eq!(resolve_timing(today, None, Some(d(2027, 1, 31))), Some(11));
    assert_eq!(resolve_timing(today, None, Some(d(2026, 2, 28))), None);
}

#[test]
fn the_constant_adjustment_reaches_every_month() {
    let cash = validate_simulation_spec(&SimulationSpec {
        extra_monthly_savings: Some(whole(300)),
        extra_monthly_cash_adjustment: Some(whole(100)),
        ..spec()
    })
    .unwrap();
    let monthly = scenario_monthly_adjustment(&cash);
    assert_eq!(monthly, whole(200));
    let mut adj = vec![whole(0), whole(-50), whole(10)];
    add_to_every_month(&mut adj, monthly);
    assert_eq!(adj, vec![whole(200), whole(150), whole(210)]);
    let mut same = vec![Dec::new(5, 2)];
    add_to_every_month(&mut same, Dec::zero());
    assert_eq!(same[0].scale_u32(), 2, "a zero adjustment touches nothing");
}

#[test]
fn a_one_off_lands_in_its_month() {
    let today = d(2026, 3, 20);
    let mut adj = vec![Dec::zero(); 4];
    apply_one_off(&mut adj, whole(500), Some(2), None, today, 4).unwrap();
    assert_eq!(adj, vec![whole(0), whole(-500), whole(0), whole(0)]);

    let mut adj = vec![Dec::zero(); 4];
    apply_one_off(&mut adj, whole(500), None, Some(d(2026, 5, 2)), today, 4).unwrap();
    assert_eq!(adj, vec![whole(0), whole(0), whole(-500), whole(0)]);

    let mut adj = vec![Dec::zero(); 4];
    assert_eq!(
        apply_one_off(&mut adj, whole(500), Some(5), None, today, 4).unwrap_err(),
        SimError::OneOffMonthOutOfRange { months: 4 }
    );
    assert_eq!(
        apply_one_off(&mut adj, whole(500), Some(0), None, today, 4).unwrap_err().code(),
        "one_off_month_out_of_range"
    );
    assert_eq!(
        apply_one_off(&mut adj, whole(500), None, Some(d(2026, 2, 28)), today, 4).unwrap_err(),
        SimError::OneOffDateOutOfHorizon
    );
    assert_eq!(
        apply_one_off(&mut adj, whole(500), None, Some(d(2026, 7, 1)), today, 4).unwrap_err(),
        SimError::OneOffDateOutOfHorizon
    );
}

#[test]
fn income_steps_run_from_their_month_to_the_end() {
    let today = d(2026, 3, 20);
    let steps = vec![
        IncomeStepSpec { month_index: Some(2), date: None, delta_monthly: whole(100) },
        IncomeStepSpec { month_index: None, date: Some(d(2026, 6, 9)), delta_monthly: whole(-30) },
    ];
    let mut adj = vec![Dec::zero(); 5];
    apply_income_steps(&mut adj, &steps, today, 5).unwrap();
    assert_eq!(adj, vec![whole(0), whole(100), whole(100), whole(70), whole(70)]);

    let late = vec![IncomeStepSpec { month_index: Some(6), date: None, delta_monthly: whole(1) }];
    let mut adj = vec![Dec::zero(); 5];
    assert_eq!(
        apply_income_steps(&mut adj, &late, today, 5).unwrap_err(),
        SimError::IncomeStepMonthOutOfRange { months: 5 }
    );
    let past = vec![IncomeStepSpec { month_index: None, date: Some(d(2025, 1, 1)), delta_monthly: whole(1) }];
    assert_eq!(apply_income_steps(&mut adj, &past, today, 5).unwrap_err(), SimError::IncomeStepDateOutOfHorizon);
}

#[test]
fn income_growth_stops_at_retirement_and_month_zero_gains_nothing() {
    let mut adj = vec![Dec::zero(); 26];
    apply_income_growth(&mut adj, whole(1000), whole(10), 25);
    assert_eq!(adj[0], Dec::zero());
    let year = rd(adj[12]);
    assert!((year - Decimal::from(100)).abs() < Decimal::new(1, 6), "{year}");
    let two_years = rd(adj[24]);
    assert!((two_years - Decimal::from(210)).abs() < Decimal::new(1, 6), "{two_years}");
    assert_eq!(adj[25], Dec::zero(), "retired months earn no raise");
}

#[test]
fn the_pause_starts_on_a_month_of_the_horizon() {
    let today = d(2026, 3, 20);
    let p = IncomePauseSpec { from_month_index: None, from_date: Some(d(2026, 9, 1)), months: 6, income_fraction: Dec::zero() };
    assert_eq!(resolve_income_pause(&p, today, 12), Ok(7));
    assert_eq!(resolve_income_pause(&p, today, 6), Err(SimError::IncomePauseMonthOutOfRange { months: 6 }));
    let past = IncomePauseSpec { from_date: Some(d(2026, 1, 1)), ..p };
    assert_eq!(resolve_income_pause(&past, today, 12), Err(SimError::IncomePauseDateOutOfHorizon));
}

// ---------------------------------------------------------------------------------------------
// Liability and asset overrides
// ---------------------------------------------------------------------------------------------

fn mortgage() -> LiabilityTerms {
    LiabilityTerms {
        repayment_model: RepaymentModel::French,
        apr_percent: Some(Dec::new(3, 0)),
        monthly_payment: whole(800),
        min_payment_pct: None,
        min_payment_eur: None,
        early_repayment_fee_pct: None,
        early_repayment_effect: EarlyRepaymentEffect::ReduceTerm,
        extra_principal_monthly: Dec::zero(),
    }
}

#[test]
fn an_amortizing_override_charges_two_percent_unless_told() {
    let today = d(2026, 3, 20);
    let ov = LiabilityOverrideSpec { extra_monthly_principal: Some(whole(200)), ..liability_override(1) };
    let (terms, lump) = apply_liability_override(mortgage(), &ov, today, 24).unwrap();
    assert_eq!(terms.extra_principal_monthly, whole(200));
    assert_eq!(terms.early_repayment_fee_pct, Some(whole(2)));
    assert_eq!(terms.early_repayment_effect, EarlyRepaymentEffect::ReduceTerm);
    assert_eq!(lump, None);

    let ov = LiabilityOverrideSpec {
        lump_sum_amount: Some(whole(5000)),
        lump_sum_date: Some(d(2026, 6, 15)),
        early_repayment_fee_pct: Some(Dec::zero()),
        early_repayment_effect: Some(EarlyRepaymentEffect::ReducePayment),
        ..liability_override(1)
    };
    let (terms, lump) = apply_liability_override(mortgage(), &ov, today, 24).unwrap();
    assert_eq!(lump, Some((4, whole(5000))));
    assert_eq!(terms.early_repayment_fee_pct, Some(Dec::zero()));
    assert_eq!(terms.early_repayment_effect, EarlyRepaymentEffect::ReducePayment);
}

#[test]
fn overrides_that_could_not_move_anything_are_refused() {
    let today = d(2026, 3, 20);
    let interest_free = LiabilityTerms { repayment_model: RepaymentModel::FixedPayments, apr_percent: None, ..mortgage() };
    let apr = LiabilityOverrideSpec { apr_percent: Some(whole(4)), ..liability_override(1) };
    assert_eq!(
        apply_liability_override(interest_free, &apr, today, 24).unwrap_err(),
        SimError::LiabilityAprIgnoredByRepaymentModel
    );
    let french = LiabilityOverrideSpec { repayment_model: Some(RepaymentModel::French), ..liability_override(1) };
    assert_eq!(
        apply_liability_override(interest_free, &french, today, 24).unwrap_err(),
        SimError::LiabilityRepaymentModelNeedsApr
    );
    let extra = LiabilityOverrideSpec { extra_monthly_principal: Some(whole(50)), ..liability_override(1) };
    let no_plan = LiabilityTerms { monthly_payment: Dec::zero(), ..mortgage() };
    assert_eq!(
        apply_liability_override(no_plan, &extra, today, 24).unwrap_err(),
        SimError::LiabilityOverrideNeedsPaymentPlan
    );
    let fee_only = LiabilityOverrideSpec {
        apr_percent: Some(whole(4)),
        early_repayment_fee_pct: Some(whole(1)),
        ..liability_override(1)
    };
    assert_eq!(
        apply_liability_override(mortgage(), &fee_only, today, 24).unwrap_err(),
        SimError::LiabilityEarlyRepaymentAxisNeedsAmortization
    );
    let revolving = LiabilityOverrideSpec {
        repayment_model: Some(RepaymentModel::Revolving),
        ..liability_override(1)
    };
    assert_eq!(
        apply_liability_override(mortgage(), &revolving, today, 24).unwrap_err(),
        SimError::LiabilityOverrideRevolvingNeedsMinimums
    );
    let card = LiabilityTerms { min_payment_pct: Some(whole(3)), ..mortgage() };
    let reduce = LiabilityOverrideSpec {
        repayment_model: Some(RepaymentModel::Revolving),
        extra_monthly_principal: Some(whole(50)),
        early_repayment_effect: Some(EarlyRepaymentEffect::ReducePayment),
        ..liability_override(1)
    };
    assert_eq!(
        apply_liability_override(card, &reduce, today, 24).unwrap_err().code(),
        "reduce_payment_ignored_by_repayment_model"
    );
    let late = LiabilityOverrideSpec {
        lump_sum_amount: Some(whole(1)),
        lump_sum_month_index: Some(25),
        ..liability_override(1)
    };
    assert_eq!(
        apply_liability_override(mortgage(), &late, today, 24).unwrap_err(),
        SimError::LiabilityLumpSumMonthOutOfRange
    );
}

#[test]
fn overrides_name_liabilities_and_assets_in_scope() {
    let today = d(2026, 3, 20);
    let liabs = vec![mortgage(), mortgage()];
    let ids = vec![10u128, 20];
    let ov = LiabilityOverrideSpec {
        lump_sum_amount: Some(whole(1000)),
        lump_sum_month_index: Some(3),
        ..liability_override(20)
    };
    let (terms, lumps) = apply_liability_overrides(&liabs, &ids, &vec![ov], false, today, 24).unwrap();
    assert_eq!(terms[0], mortgage());
    assert_eq!(terms[1].early_repayment_fee_pct, Some(whole(2)));
    assert_eq!(lumps, vec![(1usize, 3u32, whole(1000))]);
    assert_eq!(
        apply_liability_overrides(&liabs, &ids, &vec![ov], true, today, 24).unwrap_err(),
        SimError::LiabilityOverridesUnavailableInRealExpenseMode
    );
    assert!(apply_liability_overrides(&liabs, &ids, &Vec::new(), true, today, 24).is_ok());
    let stranger = LiabilityOverrideSpec { liability_id: 30, ..ov };
    assert_eq!(
        apply_liability_overrides(&liabs, &ids, &vec![stranger], false, today, 24).unwrap_err(),
        SimError::LiabilityNotInScope { liability_id: 30 }
    );

    let rates = vec![Some(whole(5)), None];
    let out = apply_asset_return_overrides(&rates, &vec![1, 2], &vec![(2, whole(7))]).unwrap();
    assert_eq!(out, vec![Some(whole(5)), Some(whole(7))]);
    assert_eq!(
        apply_asset_return_overrides(&rates, &vec![1, 2], &vec![(3, whole(7))]).unwrap_err(),
        SimError::AssetNotInScope { asset_id: 3 }
    );
}

// ---------------------------------------------------------------------------------------------
// Deltas and debt figures
// ---------------------------------------------------------------------------------------------

fn side() -> SideFigures {
    SideFigures {
        jubilacion_month_index: Some(120),
        assets_depleted_month_index: None,
        final_net_worth: whole(500_000),
        final_net_worth_real: whole(300_000),
        fire_number_classic_today: Some(whole(600_000)),
        runway_months: Some(Dec::new(125, 1)),
        income_monthly: whole(3000),
        expense_total_monthly: whole(2000),
        net_recurring_monthly: whole(1000),
        net_cash_monthly: whole(1000),
        liability_extra_principal_monthly: Dec::zero(),
        liability_early_repayment_fee_total: Dec::zero(),
        liability_total_interest: whole(4000),
        liability_debt_free_month_index: Some(60),
        success_of_plan: Some(Dec::new(95, 2)),
        needed_capital_today: Some(whole(400_000)),
        contribution_required_monthly: None,
        coast_stop_month_index: None,
        annual_inflation_percent: whole(2),
    }
}

#[test]
fn deltas_are_scenario_minus_baseline_and_absent_with_either_side() {
    let b = side();
    let s = SideFigures {
        jubilacion_month_index: Some(108),
        final_net_worth: whole(520_000),
        net_recurring_monthly: whole(1200),
        success_of_plan: Some(Dec::new(97, 2)),
        contribution_required_monthly: Some(whole(10)),
        annual_inflation_percent: Dec::new(20, 1),
        ..side()
    };
    let deltas = sim_deltas(&b, &s);
    assert_eq!(deltas.jubilacion_months_delta, Some(-12));
    assert_eq!(deltas.assets_depleted_months_delta, None);
    assert_eq!(deltas.final_net_worth_delta, whole(20_000));
    assert_eq!(deltas.final_net_worth_real_delta, Some(Dec::zero()), "2 and 2.0 are the same inflation");
    assert_eq!(deltas.real_delta_absent_reason, None);
    assert_eq!(deltas.savings_rate_delta, Some(Dec::new(66667, 6)));
    assert_eq!(deltas.success_of_plan_delta, Some(Dec::new(2, 2)));
    assert_eq!(deltas.contribution_required_monthly_delta, None);
    assert_eq!(deltas.runway_months_delta, Some(Dec::zero()));

    let other = SideFigures { annual_inflation_percent: whole(3), ..side() };
    let deltas = sim_deltas(&b, &other);
    assert_eq!(deltas.final_net_worth_real_delta, None);
    assert_eq!(deltas.real_delta_absent_reason, Some("incomparable_deflators"));
    let broke = SideFigures { income_monthly: Dec::zero(), ..side() };
    assert_eq!(sim_deltas(&b, &broke).savings_rate_delta, None);
    assert_eq!(months_delta(Some(3), Some(10)), Some(7));
    assert_eq!(months_delta(None, Some(10)), None);
}

#[test]
fn the_household_is_debt_free_when_the_last_liability_ends() {
    assert_eq!(debt_free_reading(&Vec::new()), (Some(0), None));
    assert_eq!(debt_free_reading(&vec![(Some(30), None), (Some(12), None)]), (Some(30), None));
    assert_eq!(
        debt_free_reading(&vec![(Some(30), None), (None, Some("beyond_horizon")), (None, Some("no_payment_plan"))]),
        (None, Some("beyond_horizon"))
    );
}

#[test]
fn the_extra_principal_and_its_fee_add_up() {
    let liabs = vec![
        LiabilityTerms { extra_principal_monthly: whole(200), early_repayment_fee_pct: Some(whole(2)), ..mortgage() },
        LiabilityTerms { extra_principal_monthly: whole(-50), early_repayment_fee_pct: Some(whole(2)), ..mortgage() },
        LiabilityTerms { extra_principal_monthly: whole(100), early_repayment_fee_pct: None, ..mortgage() },
    ];
    let (extra, fee) = liability_cash_aggregates(&liabs);
    assert_eq!(extra, whole(300));
    assert_eq!(fee, whole(4));
}

// ---------------------------------------------------------------------------------------------
// The scenario's profile and the small gates
// ---------------------------------------------------------------------------------------------

#[test]
fn the_scenario_profile_is_validated_and_resolved_like_a_save() {
    let current = default_retirement_profile();
    assert_eq!(scenario_profile(&current, None, None).unwrap(), current);
    let empty = RetirementProfilePatch::default();
    assert_eq!(scenario_profile(&current, Some(&empty), None).unwrap_err(), SimError::ProfileOverridesEmpty);
    let swr = RetirementProfilePatch { swr_pct: Some(whole(4)), ..RetirementProfilePatch::default() };
    assert_eq!(scenario_profile(&current, Some(&swr), Some(whole(3))).unwrap_err(), SimError::SwrPctSetTwice);
    assert_eq!(scenario_profile(&current, Some(&swr), None).unwrap().swr_pct, whole(4));
    assert_eq!(scenario_profile(&current, None, Some(whole(3))).unwrap().swr_pct, whole(3));
    let same = RetirementProfilePatch { swr_pct: Some(Dec::new(350, 2)), ..RetirementProfilePatch::default() };
    assert_eq!(scenario_profile(&current, Some(&same), None).unwrap_err(), SimError::ProfileOverridesNoOp);
    let by_age = RetirementProfilePatch { strategy: Some(RetirementStrategy::RetireAtAge), ..RetirementProfilePatch::default() };
    assert_eq!(scenario_profile(&current, Some(&by_age), None).unwrap_err().code(), "target_retirement_age_required");
}

#[test]
fn the_small_gates_of_the_what_if() {
    assert_eq!(simulable_view(true), Err(SimError::HouseholdNotSimulable));
    assert_eq!(simulable_view(false), Ok(()));
    assert_eq!(solve_requested(None), Ok(false));
    assert_eq!(solve_requested(Some(true)), Ok(true));
    assert_eq!(solve_requested(Some(false)).unwrap_err().code(), "solve_no_op");
    let ov = sim_overrides_of(whole(100), Some(whole(24_000)));
    assert_eq!(ov.extra_monthly_expense, whole(100));
    assert_eq!(ov.retirement_monthly_expense, Some(whole(2000)));
    assert_eq!(sim_overrides_of(Dec::zero(), None).retirement_monthly_expense, None);
}

#[test]
fn the_scenario_inflation_is_bounded_like_the_installation_s() {
    let mut s = spec();
    s.annual_inflation_percent = Some(Dec::new(-25, 1));
    assert_eq!(validate_simulation_spec(&s).unwrap_err(), SimError::InflationOutOfRange);
    assert_eq!(SimError::InflationOutOfRange.code(), "annual_inflation_out_of_range");
    s.annual_inflation_percent = Some(whole(51));
    assert_eq!(validate_simulation_spec(&s).unwrap_err(), SimError::InflationOutOfRange);
    s.annual_inflation_percent = Some(whole(-2));
    assert!(validate_simulation_spec(&s).is_ok());
    s.annual_inflation_percent = Some(whole(50));
    assert!(validate_simulation_spec(&s).is_ok());
    // The cash axes are checked first, as the original does.
    s.annual_inflation_percent = Some(whole(60));
    s.extra_monthly_savings = Some(whole(-1));
    assert!(matches!(validate_simulation_spec(&s).unwrap_err(), SimError::AmountNegative { .. }));
}

#[test]
fn the_plan_figures_are_absent_without_a_plan() {
    let none = plan_figures_of(Some(121), None, 95);
    assert_eq!(none.jubilacion_month_index, Some(120));
    assert_eq!(none.safe_date_month_index, None);
    assert_eq!(none.success_threshold_pct, None);
    assert_eq!(none.coast_stop_month_index, None);
    let plan = PlanReading {
        coast_stop_month_index: Some(61),
        partial_start_month_index: None,
        needed_capital_today: Some(whole(500_000)),
        contribution_required_monthly: None,
        paths_used: 500,
    };
    let with = plan_figures_of(Some(121), Some(plan), 95);
    assert_eq!(with.safe_date_month_index, Some(120));
    assert_eq!(with.success_threshold_pct, Some(95));
    assert_eq!(with.date_solved_with_paths, Some(500));
    assert_eq!(with.coast_stop_month_index, Some(60));
    assert_eq!(with.needed_capital_today, Some(whole(500_000)));
}

#[test]
fn the_runway_and_the_savings_rate_are_published_rounded() {
    let (m, indefinite) = runway_reading(RunwayOutcome::Months(Dec::new(12345, 3)));
    assert_eq!(rd(m.unwrap()), Decimal::new(123, 1));
    assert!(!indefinite);
    let (m, indefinite) = runway_reading(RunwayOutcome::Indefinite);
    assert!(m.is_none() && indefinite);
    let (m, indefinite) = runway_reading(RunwayOutcome::NoExpenseBase);
    assert!(m.is_none() && !indefinite);
    assert_eq!(savings_rate_of(whole(3000), whole(1000)).map(rd), Some(Decimal::new(333333, 6)));
    assert_eq!(savings_rate_of(Dec::zero(), whole(1000)), None);
}
