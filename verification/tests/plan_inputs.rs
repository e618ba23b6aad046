use futurefin_api::bands::{
    failure_points, parse_seed, resolve_paths, success_absent_reason, DEFAULT_BANDS_PATHS,
    HTTP_MAX_PATHS, MCP_MAX_PATHS,
};
use futurefin_api::date::Date;
use futurefin_api::decimal::Dec;
use futurefin_api::ledger::{
    drawdown_gain_basis_of, liability_is_active, liability_monthly_payment, monthly_payment_from,
    taxable_gain_ratio_today_of, unallocated_reason_of, SimAsset,
};
use futurefin_api::plan::{
    compute_fire_need, money_out, pair_delta, require_non_negative, resolve_forced_month,
    strategy_label, withdrawal_rule_to_engine, EngineWithdrawalRule, FireNeed, ForcedMonth,
    FIRE_ABSENT_MANUAL_AMOUNT_MISSING, FIRE_ABSENT_NET_NEED_NOT_POSITIVE,
    FIRE_ABSENT_SWR_NOT_POSITIVE, PLAN_ABSENT_BIRTH_DATE_MISSING, PLAN_ABSENT_MONTHS_OVERRIDE,
    WARN_BIRTH_DATE_MISSING, WARN_TARGET_AGE_MISSING,
};
use futurefin_api::profile::{
    default_retirement_profile, FireNumberMode, RetirementStrategy, WithdrawalRule,
    WithdrawalRuleKind,
};
use futurefin_api::savings::{
    resolve_effective_savings_inputs, AvgSide, AvgWindow, AvgWindowMode, SavingsSource,
    TransactionsAvg,
};
use futurefin_api::series::RequestError;
use futurefin_api::text::{parse_u64, str_less};

fn d(y: i32, m: u32, day: u32) -> Date {
    Date::from_ymd_opt(y, m, day).unwrap()
}

fn whole(n: i64) -> Dec {
    Dec::from_i64(n)
}

// ---------------------------------------------------------------------------------------------
// Request parameters of the bands
// ---------------------------------------------------------------------------------------------

#[test]
fn los_caminos_se_rechazan_fuera_de_rango() {
    assert_eq!(resolve_paths(None, HTTP_MAX_PATHS).unwrap(), DEFAULT_BANDS_PATHS);
    assert_eq!(DEFAULT_BANDS_PATHS, 2_500, "the surface's default");
    assert_eq!(resolve_paths(Some(1), HTTP_MAX_PATHS).unwrap(), 1);
    assert_eq!(resolve_paths(Some(5_000), HTTP_MAX_PATHS).unwrap(), 5_000);
    assert!(resolve_paths(Some(0), HTTP_MAX_PATHS).is_err());
    assert!(resolve_paths(Some(5_001), HTTP_MAX_PATHS).is_err());
    assert!(resolve_paths(Some(5_000), MCP_MAX_PATHS).is_err());
    assert_eq!(resolve_paths(Some(2_500), MCP_MAX_PATHS).unwrap(), 2_500);
    assert_eq!(
        resolve_paths(Some(0), MCP_MAX_PATHS).unwrap_err(),
        RequestError::PathsOutOfRange { max: MCP_MAX_PATHS }
    );
}

#[test]
fn la_semilla_viaja_entera_por_texto() {
    assert_eq!(parse_seed(None).unwrap(), None);
    assert_eq!(parse_seed(Some("  ")).unwrap(), None);
    assert_eq!(parse_seed(Some("0")).unwrap(), Some(0));
    assert_eq!(parse_seed(Some("18446744073709551615")).unwrap(), Some(u64::MAX));
    assert!(parse_seed(Some("-1")).is_err());
    assert!(parse_seed(Some("18446744073709551616")).is_err());
    assert!(parse_seed(Some("abc")).is_err());
}

#[test]
fn a_seed_is_trimmed_and_refused_with_its_code() {
    assert_eq!(parse_seed(Some(" 42 ")).unwrap(), Some(42));
    assert_eq!(parse_seed(Some("+7")).unwrap(), Some(7), "u64 parsing takes a leading plus");
    assert_eq!(parse_seed(Some("7a")).unwrap_err().code(), "invalid_seed");
    assert_eq!(parse_u64("007"), Some(7));
    assert_eq!(parse_u64(""), None);
    assert_eq!(parse_u64("1 2"), None);
}

#[test]
fn the_absence_of_a_success_date_has_one_reason() {
    assert_eq!(success_absent_reason(Some(PLAN_ABSENT_BIRTH_DATE_MISSING), None), Some("birth_date_missing"));
    assert_eq!(success_absent_reason(None, Some(3)), None);
    assert_eq!(success_absent_reason(None, None), Some("not_reachable"));
    assert_eq!(success_absent_reason(Some(PLAN_ABSENT_MONTHS_OVERRIDE), Some(3)), Some("months_override"));
}

#[test]
fn the_failure_table_moves_to_the_grid_and_reads_the_age() {
    let rows = vec![(1u32, Some(Dec::new(5, 3))), (13, None)];
    let out = failure_points(&rows, [3, 1, 0], d(2026, 8, 21), Some(d(1990, 5, 10)));
    assert_eq!(out.len(), 2);
    assert_eq!(out[0].month_index, 0);
    assert_eq!(out[0].age, Some(36));
    assert_eq!(out[0].probability, Some(Dec::new(5, 3)));
    assert_eq!(out[1].month_index, 12);
    assert_eq!(out[1].age, Some(37));
    assert_eq!(out[1].probability, None);
    assert_eq!(out[1].by_kind, [3, 1, 0]);
    let anonymous = failure_points(&rows, [0, 0, 0], d(2026, 8, 21), None);
    assert_eq!(anonymous[0].age, None);
}

// ---------------------------------------------------------------------------------------------
// The plan's inputs
// ---------------------------------------------------------------------------------------------

#[test]
fn the_retirement_month_follows_the_age_or_the_threshold() {
    let today = d(2026, 1, 15);
    let mut p = default_retirement_profile();
    let mut w: Vec<String> = Vec::new();
    assert_eq!(
        resolve_forced_month(&p, None, today, &mut w),
        ForcedMonth::Absent(PLAN_ABSENT_BIRTH_DATE_MISSING)
    );
    assert_eq!(w, vec![WARN_BIRTH_DATE_MISSING.to_string()]);

    let mut w: Vec<String> = Vec::new();
    assert_eq!(resolve_forced_month(&p, Some(d(1990, 1, 1)), today, &mut w), ForcedMonth::NeedsSolve);
    assert!(w.is_empty());

    p.strategy = RetirementStrategy::RetireAtAge;
    assert_eq!(resolve_forced_month(&p, Some(d(1990, 1, 1)), today, &mut w), ForcedMonth::NeedsSolve);
    assert_eq!(w, vec![WARN_TARGET_AGE_MISSING.to_string()]);

    // Born on 1990-06-01: 40 on 2030-06-01, grid month 53, loop month 54.
    p.target_retirement_age = Some(40);
    let mut w: Vec<String> = Vec::new();
    assert_eq!(resolve_forced_month(&p, Some(d(1990, 6, 1)), today, &mut w), ForcedMonth::Known(54));
    assert!(w.is_empty());
    // Already older than the age: the first month.
    p.target_retirement_age = Some(30);
    assert_eq!(resolve_forced_month(&p, Some(d(1990, 6, 1)), today, &mut w), ForcedMonth::Known(1));
}

#[test]
fn the_fire_need_follows_the_number_mode() {
    let mut p = default_retirement_profile();
    assert_eq!(
        compute_fire_need(&p, whole(3000), whole(400), whole(2000)),
        Ok(FireNeed::ExpenseMinusPension { expense_monthly: whole(2000), pension_monthly: whole(400) })
    );
    assert_eq!(compute_fire_need(&p, whole(3000), whole(2000), whole(2000)), Err(FIRE_ABSENT_NET_NEED_NOT_POSITIVE));

    p.fire_number_mode = FireNumberMode::CurrentIncome;
    assert_eq!(
        compute_fire_need(&p, whole(3000), whole(500), whole(2000)),
        Ok(FireNeed::Indexed { annual_net_today: whole(30_000) })
    );

    p.fire_number_mode = FireNumberMode::Manual;
    assert_eq!(compute_fire_need(&p, whole(3000), whole(500), whole(2000)), Err(FIRE_ABSENT_MANUAL_AMOUNT_MISSING));
    p.fire_number_manual_amount = Some(whole(0));
    assert_eq!(compute_fire_need(&p, whole(3000), whole(500), whole(2000)), Err(FIRE_ABSENT_MANUAL_AMOUNT_MISSING));
    p.fire_number_manual_amount = Some(whole(36_000));
    assert_eq!(
        compute_fire_need(&p, whole(3000), whole(500), whole(2000)),
        Ok(FireNeed::Indexed { annual_net_today: whole(36_000) })
    );
    p.swr_pct = Dec::zero();
    assert_eq!(compute_fire_need(&p, whole(3000), whole(500), whole(2000)), Err(FIRE_ABSENT_SWR_NOT_POSITIVE));
}

#[test]
fn the_engine_rule_inherits_the_swr_and_fills_zeros() {
    let swr = Dec::new(35, 1);
    assert_eq!(withdrawal_rule_to_engine(&WithdrawalRule::default(), swr), EngineWithdrawalRule::FixedReal);
    let percent = WithdrawalRule { kind: WithdrawalRuleKind::PercentOfBalance, ..WithdrawalRule::default() };
    assert_eq!(withdrawal_rule_to_engine(&percent, swr), EngineWithdrawalRule::PercentOfBalance { pct: swr });
    let hybrid = WithdrawalRule { kind: WithdrawalRuleKind::Hybrid, ..WithdrawalRule::default() };
    assert_eq!(
        withdrawal_rule_to_engine(&hybrid, swr),
        EngineWithdrawalRule::Hybrid { start_pct: swr, end_pct: Dec::zero() }
    );
    assert_eq!(strategy_label(RetirementStrategy::RetireAtAge), "retire_at_age");
}

#[test]
fn money_is_published_with_four_decimals() {
    assert_eq!(money_out(Dec::new(123456789, 6)), Dec::new(1234568, 4));
    assert_eq!(money_out(Dec::new(12, 1)).scale_u32(), 1);
    assert_eq!(pair_delta(Some(whole(100)), Some(Dec::new(1505, 1))), Some(Dec::new(505, 1)));
    assert_eq!(pair_delta(None, Some(whole(1))), None);
    assert_eq!(require_non_negative("lump_sum", None), Ok(Dec::zero()));
    assert_eq!(require_non_negative("lump_sum", Some(whole(5))), Ok(whole(5)));
    let err = require_non_negative("lump_sum", Some(whole(-5))).unwrap_err();
    assert_eq!(err.name, "lump_sum");
    assert_eq!(err.code(), "amount_negative");
}

// ---------------------------------------------------------------------------------------------
// Liabilities and assets
// ---------------------------------------------------------------------------------------------

#[test]
fn weekly_payments_become_monthly() {
    assert_eq!(monthly_payment_from(whole(120), Some("weekly")), whole(520));
    assert_eq!(monthly_payment_from(whole(120), Some("monthly")), whole(120));
    assert_eq!(monthly_payment_from(whole(120), None), whole(120));
    assert_eq!(liability_monthly_payment(None, Some("weekly")), Dec::zero());
    assert_eq!(liability_monthly_payment(Some(whole(12)), Some("weekly")), whole(52));
}

#[test]
fn a_liability_is_active_until_its_end_date() {
    let today = d(2026, 3, 10);
    assert!(liability_is_active(None, today));
    assert!(liability_is_active(Some(d(2026, 3, 10)), today));
    assert!(!liability_is_active(Some(d(2026, 3, 9)), today));
}

fn asset(value: i64, purchase: Option<i64>) -> SimAsset {
    SimAsset { value: whole(value), purchase_price: purchase.map(whole) }
}

#[test]
fn the_gain_readings_of_the_assets() {
    assert_eq!(unallocated_reason_of(&Vec::new(), whole(100)), Some("no_assets"));
    assert_eq!(unallocated_reason_of(&vec![asset(1, None)], whole(100)), Some("no_sink"));
    assert_eq!(unallocated_reason_of(&vec![asset(1, None)], whole(0)), None);

    assert_eq!(drawdown_gain_basis_of(&vec![asset(1, None)]), "declared_ratio");
    assert_eq!(drawdown_gain_basis_of(&vec![asset(1, Some(1))]), "cost_basis");
    assert_eq!(drawdown_gain_basis_of(&vec![asset(1, Some(1)), asset(1, None)]), "mixed");

    let assets = vec![asset(1000, Some(600)), asset(1000, Some(1200))];
    assert_eq!(taxable_gain_ratio_today_of(&assets), Some(Dec::new(2, 1)));
    assert_eq!(taxable_gain_ratio_today_of(&Vec::new()), None);
}

// ---------------------------------------------------------------------------------------------
// Savings inputs
// ---------------------------------------------------------------------------------------------

fn side(avg: i64, months: u32) -> AvgSide {
    AvgSide {
        avg: whole(avg),
        months_with_data: months,
        window: AvgWindow { months: 12, mode: AvgWindowMode::Data },
        first_month: Some("2025-01".to_string()),
        last_month: Some("2025-12".to_string()),
        has_gaps: false,
    }
}

#[test]
fn each_side_falls_back_to_the_budget_on_its_own() {
    let avg = TransactionsAvg { income: side(3100, 0), expense: side(2100, 6) };
    let r = resolve_effective_savings_inputs(SavingsSource::TransactionsAvg, whole(3000), whole(2000), Some(&avg));
    assert_eq!(r.income, whole(3000));
    assert_eq!(r.expense, whole(2100));
    assert!(r.expense_from_avg);
    assert_eq!(r.effective_source, SavingsSource::TransactionsAvg);
    assert_eq!(r.income_basis.basis, "budget");
    assert_eq!(r.expense_basis.basis, "average");
    assert_eq!(r.expense_basis.avg_months, 6);
    assert_eq!(r.expense_basis.window_mode, Some("data"));

    let none = resolve_effective_savings_inputs(SavingsSource::TransactionsAvg, whole(3000), whole(2000), None);
    assert_eq!(none.effective_source, SavingsSource::Budget);
    let budget = resolve_effective_savings_inputs(SavingsSource::Budget, whole(3000), whole(2000), Some(&avg));
    assert_eq!(budget.expense, whole(2000));
    assert_eq!(budget.effective_source, SavingsSource::Budget);
}

#[test]
fn texts_compare_lexicographically() {
    assert!(str_less("Alquiler", "IRPF"));
    assert!(str_less("IRP", "IRPF"));
    assert!(!str_less("IRPF", "IRPF"));
    assert!(!str_less("b", "a"));
}
