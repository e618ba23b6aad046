use futurefin_api::assembly::{
    active_debt_service, allocation_rules_of, assemble_phase_plan, combined_cash_adjustments,
    engine_liability_of, expense_bases, fire_expense_base, needs_volatility_warning,
    parse_repayment_model, real_mode_expense, retirement_expense, AllocationCap, AllocationKind,
    AllocationRuleRow, AssetRow, BridgeCap, LiabilityRow, PENSION_ABSENT_BIRTH_DATE_MISSING,
};
use futurefin_api::compound::neutral_crossover_inputs;
use futurefin_api::date::Date;
use futurefin_api::decimal::Dec;
use futurefin_api::plan::EngineWithdrawalRule;
use futurefin_api::profile::{
    default_retirement_profile, resolve_retirement_profile, CoastMode, FireNumberMode,
    PartialExpenseBasis, PartialRetirement, PartialStartMode, PensionPlan, RetirementProfile,
    RetirementStrategy,
};
use futurefin_api::whatif::RepaymentModel;

fn d(y: i32, m: u32, day: u32) -> Date {
    Date::from_ymd_opt(y, m, day).unwrap()
}

fn whole(n: i64) -> Dec {
    Dec::from_i64(n)
}

fn resolved(p: RetirementProfile) -> RetirementProfile {
    resolve_retirement_profile(Some(p))
}

fn pension(age: u32) -> PensionPlan {
    PensionPlan {
        monthly_amount_today: whole(1200),
        starts_at_age: age,
        indexed: true,
        fraction_while_partial: Dec::zero(),
        bridge_enabled: false,
        bridge_max_pct: None,
        bridge_max_years: None,
    }
}

#[test]
fn without_a_birth_date_nothing_age_dependent_enters_the_plan() {
    let p = resolved(RetirementProfile { pension: Some(pension(67)), ..default_retirement_profile() });
    let a = assemble_phase_plan(&p, None, d(2026, 1, 15), 480, None, whole(3000), whole(0), whole(2000));
    assert_eq!(a.plan_absent_reason, Some("birth_date_missing"));
    assert_eq!(a.pension_absent_reason, Some(PENSION_ABSENT_BIRTH_DATE_MISSING));
    assert_eq!(a.phase_plan.pension, None);
    assert_eq!(a.phase_plan.retirement_month, 481, "no retirement inside the horizon");
    assert_eq!(a.warnings, vec!["birth_date_missing".to_string()], "said once");
    assert_eq!(a.solve_profile.target_month, None);
}

#[test]
fn an_age_driven_plan_places_its_month_and_the_pension_its_index() {
    let p = resolved(RetirementProfile {
        strategy: RetirementStrategy::RetireAtAge,
        target_retirement_age: Some(40),
        pension: Some(PensionPlan { bridge_enabled: true, ..pension(67) }),
        ..default_retirement_profile()
    });
    let birth = d(1990, 6, 1);
    let a = assemble_phase_plan(&p, Some(birth), d(2026, 1, 15), 600, None, whole(3000), whole(0), whole(2000));
    // 40 on 2030-06-01: grid month 53 (2030-06-15), loop month 54.
    assert_eq!(a.phase_plan.retirement_month, 54);
    assert_eq!(a.solve_profile.target_month, Some(54));
    // 67 on 2057-06-01: grid month 377 (2057-06-15).
    let schedule = a.phase_plan.pension.unwrap();
    assert_eq!(schedule.start_index, 377);
    assert_eq!(a.solve_profile.bridge, Some((378, 7)));
    let gate = a.phase_plan.initial_rate.unwrap();
    assert_eq!(gate.swr_pct, Dec::new(35, 1));
    assert_eq!(gate.bridge, Some(BridgeCap { max_pct: whole(5), max_years: 7 }));
    assert_eq!(a.phase_plan.withdrawal, EngineWithdrawalRule::FixedReal);
    assert!(a.warnings.is_empty());
    assert_eq!(a.plan_absent_reason, None);
}

#[test]
fn the_half_time_phase_enters_only_under_the_partial_strategy() {
    let phase = PartialRetirement {
        starts_at_age: Some(45),
        income_monthly_today: whole(900),
        expense_basis: PartialExpenseBasis::Regular,
        mode: PartialStartMode::AtAge,
    };
    let birth = d(1990, 6, 1);
    let today = d(2026, 1, 15);
    let asap = resolved(RetirementProfile { partial_retirement: Some(phase), ..default_retirement_profile() });
    let a = assemble_phase_plan(&asap, Some(birth), today, 600, None, whole(3000), whole(0), whole(2000));
    assert_eq!(a.phase_plan.partial, None, "a stored block is not a declared phase");

    let partial = RetirementProfile { strategy: RetirementStrategy::Partial, ..asap };
    let a = assemble_phase_plan(&partial, Some(birth), today, 600, None, whole(3000), whole(0), whole(2000));
    let ph = a.phase_plan.partial.unwrap();
    assert_eq!(ph.start_month, 114, "45 on 2035-06-01: grid month 113, loop month 114");
    assert_eq!(ph.expense_basis, PartialExpenseBasis::Regular);
    assert_eq!(a.solve_profile.partial_start_month, Some(114));

    let later = RetirementProfile {
        partial_retirement: Some(PartialRetirement { mode: PartialStartMode::AsSoonAsPossible, ..phase }),
        ..partial
    };
    let a = assemble_phase_plan(&later, Some(birth), today, 600, None, whole(3000), whole(0), whole(2000));
    assert_eq!(a.phase_plan.partial.unwrap().start_month, 601, "the search places it");
    assert_eq!(a.solve_profile.partial_mode, PartialStartMode::AsSoonAsPossible);
    assert_eq!(a.solve_profile.partial_start_month, None);
}

#[test]
fn the_coast_stop_is_a_datum_of_mode_b() {
    let p = resolved(RetirementProfile {
        strategy: RetirementStrategy::Coast,
        coast_mode: CoastMode::FixedStopAge,
        coast_stop_age: Some(45),
        ..default_retirement_profile()
    });
    let a = assemble_phase_plan(&p, Some(d(1990, 6, 1)), d(2026, 1, 15), 600, None, whole(3000), whole(0), whole(2000));
    assert_eq!(a.phase_plan.contributions_stop_month, Some(114));
    assert_eq!(a.solve_profile.coast_stop_month, Some(114));
    assert_eq!(a.phase_plan.retirement_month, 601, "mode B has no forced month");
}

#[test]
fn the_number_mode_governs_the_retirement_spending() {
    let mut p = default_retirement_profile();
    assert_eq!(retirement_expense(&p, None, whole(3000), whole(2000)), whole(2000));
    assert_eq!(retirement_expense(&p, Some(whole(1500)), whole(3000), whole(2000)), whole(1500));
    p.fire_number_mode = FireNumberMode::CurrentIncome;
    assert_eq!(retirement_expense(&p, None, whole(3000), whole(2000)), whole(3000));
    assert_eq!(retirement_expense(&p, None, whole(-10), whole(2000)), Dec::zero());
    p.fire_number_mode = FireNumberMode::Manual;
    p.fire_number_manual_amount = Some(whole(36_000));
    assert_eq!(retirement_expense(&p, None, whole(3000), whole(2000)), whole(3000));
    p.fire_number_manual_amount = None;
    assert_eq!(retirement_expense(&p, None, whole(3000), whole(2000)), whole(2000));
}

#[test]
fn a_cut_in_spending_stops_at_zero() {
    assert_eq!(expense_bases(whole(2000), whole(1800), whole(100), None), (whole(2100), whole(1900)));
    assert_eq!(expense_bases(whole(200), whole(300), whole(-500), None), (Dec::zero(), Dec::zero()));
    assert_eq!(expense_bases(whole(200), whole(300), whole(-500), Some(whole(50))), (Dec::zero(), whole(50)));
    assert_eq!(expense_bases(whole(-200), whole(300), whole(0), None), (whole(-200), whole(300)), "no cut, no clamp");
    assert_eq!(fire_expense_base(None, true, whole(1), whole(2)), whole(1));
    assert_eq!(fire_expense_base(None, false, whole(1), whole(2)), whole(2));
    assert_eq!(fire_expense_base(Some(whole(9)), true, whole(1), whole(2)), whole(9));
}

fn row(amount: Option<i64>, frequency: Option<&str>, end: Option<Date>) -> LiabilityRow {
    LiabilityRow {
        id: 1,
        principal: whole(10_000),
        payment_amount: amount.map(whole),
        payment_frequency: frequency.map(String::from),
        payment_end_date: end,
        apr_percent: None,
        repayment_model: "french".to_string(),
        min_payment_pct: None,
        min_payment_eur: None,
    }
}

#[test]
fn the_debt_service_counts_the_active_positive_payments() {
    let today = d(2026, 3, 10);
    let liabs = vec![
        row(Some(300), None, None),
        row(Some(12), Some("weekly"), Some(d(2027, 1, 1))),
        row(Some(500), None, Some(d(2026, 3, 9))),
        row(None, None, None),
    ];
    assert_eq!(active_debt_service(&liabs, today), whole(352));
    assert_eq!(real_mode_expense(whole(2000), whole(352)), whole(1648));
    assert_eq!(real_mode_expense(whole(200), whole(352)), Dec::zero());
}

#[test]
fn the_flows_and_the_ending_expenses_add_month_by_month() {
    let flows = vec![whole(10), whole(-20), whole(0)];
    let ends = vec![whole(1), whole(2), whole(3)];
    assert_eq!(combined_cash_adjustments(&flows, &ends, false), vec![whole(11), whole(-18), whole(3)]);
    assert_eq!(combined_cash_adjustments(&flows, &ends, true), vec![whole(10), whole(-20), whole(0)]);
}

fn rule_row(id: u128, target: u128, kind: &str, cap: Option<(&str, i64)>) -> AllocationRuleRow {
    AllocationRuleRow {
        id,
        target_asset_id: target,
        kind: kind.to_string(),
        amount: Some(whole(100)),
        cap_kind: cap.map(|c| c.0.to_string()),
        cap_value: cap.map(|c| whole(c.1)),
    }
}

#[test]
fn rules_without_a_target_or_a_known_kind_are_left_out() {
    let rows = vec![
        rule_row(1, 20, "fixed", Some(("amount", -5))),
        rule_row(2, 99, "fixed", None),
        rule_row(3, 10, "weird", None),
        rule_row(4, 10, "remainder", Some(("months_expense", 6))),
        rule_row(5, 20, "percent", Some(("unknown", 6))),
    ];
    let (rules, ids) = allocation_rules_of(&rows, &vec![10, 20]);
    assert_eq!(ids, vec![1, 4, 5]);
    assert_eq!(rules[0].target_index, 1);
    assert_eq!(rules[0].kind, AllocationKind::Fixed);
    assert!(matches!(rules[0].cap, Some(AllocationCap::Amount(v)) if v == Dec::zero()));
    assert_eq!(rules[1].target_index, 0);
    assert!(matches!(rules[1].cap, Some(AllocationCap::MonthsExpense(v)) if v == whole(6)));
    assert!(rules[2].cap.is_none());
}

#[test]
fn a_stored_liability_becomes_the_engine_input() {
    let l = LiabilityRow { principal: whole(-5), ..row(Some(12), Some("weekly"), None) };
    let e = engine_liability_of(&l);
    assert_eq!(e.principal, Dec::zero());
    assert_eq!(e.terms.monthly_payment, whole(52));
    assert_eq!(e.terms.repayment_model, RepaymentModel::French);
    assert_eq!(parse_repayment_model("bogus"), RepaymentModel::FixedPayments);
    assert_eq!(parse_repayment_model("interest_only"), RepaymentModel::InterestOnly);
}

fn asset(liquid: bool, value: i64, vol: Option<i64>) -> AssetRow {
    AssetRow {
        id: 1,
        value: whole(value),
        purchase_price: None,
        is_liquid: liquid,
        expected_annual_return_percent: Some(whole(5)),
        annual_volatility_percent: vol.map(whole),
    }
}

#[test]
fn the_draw_degenerates_without_a_liquid_volatility() {
    assert!(needs_volatility_warning(&vec![asset(true, 1000, None), asset(false, 5000, Some(10))]));
    assert!(!needs_volatility_warning(&vec![asset(true, 1000, Some(12))]));
    assert!(!needs_volatility_warning(&vec![asset(true, 0, None)]), "nothing liquid to sell");
    assert!(!needs_volatility_warning(&Vec::new()));
}

#[test]
fn the_crossover_run_has_no_planned_flows_and_no_debt_payments() {
    let liabilities = vec![engine_liability_of(&row(Some(1200), None, None)), engine_liability_of(&row(Some(300), Some("weekly"), None))];
    let (adj, neutral) = neutral_crossover_inputs(4, &liabilities);
    assert_eq!(adj, vec![Dec::zero(); 4]);
    assert_eq!(neutral.len(), 2);
    for (n, l) in neutral.iter().zip(liabilities.iter()) {
        assert!(n.terms.monthly_payment.is_zero());
        assert_eq!(n.principal, l.principal);
        assert_eq!(n.payment_end, l.payment_end);
        assert_eq!(n.terms.repayment_model, l.terms.repayment_model);
    }
    assert!(!liabilities[0].terms.monthly_payment.is_zero());
}
