use futurefin_api::decimal::Dec;
use futurefin_api::member::{
    add_run_warnings, member_plan_absent_reason, negative_amortization_of, negative_amortization_rows,
    pension_unpaid_during_partial,
};
use futurefin_api::profile::PensionPlan;
use rust_decimal::Decimal;

fn whole(n: i64) -> Dec {
    Dec::from_i64(n)
}

fn rd(x: Dec) -> Decimal {
    Decimal::from_i128_with_scale(x.mantissa_i128(), x.scale_u32())
}

fn pension(fraction: Dec) -> PensionPlan {
    PensionPlan {
        monthly_amount_today: whole(1200),
        starts_at_age: 67,
        indexed: true,
        fraction_while_partial: fraction,
        bridge_enabled: false,
        bridge_max_pct: None,
        bridge_max_years: None,
    }
}

#[test]
fn the_household_never_solves_a_member_plan() {
    assert_eq!(member_plan_absent_reason(true, None, None), Some("household_not_solved"));
    assert_eq!(member_plan_absent_reason(true, Some(240), None), Some("household_not_solved"));
}

#[test]
fn a_custom_horizon_vetoes_the_plan_before_the_missing_birth_date() {
    assert_eq!(
        member_plan_absent_reason(false, Some(240), Some("birth_date_missing")),
        Some("months_override")
    );
    assert_eq!(member_plan_absent_reason(false, None, Some("birth_date_missing")), Some("birth_date_missing"));
    assert_eq!(member_plan_absent_reason(false, None, None), None);
}

#[test]
fn a_pension_inside_an_unpaid_half_time_phase_is_flagged() {
    // Half time from month 100, pension from 120, full retirement at 180.
    assert!(pension_unpaid_during_partial(Some(120), Some(100), Some(180), Some(pension(Dec::zero()))));
    // The pension starting the very month of full retirement is outside the phase.
    assert!(!pension_unpaid_during_partial(Some(180), Some(100), Some(180), Some(pension(Dec::zero()))));
    // Never fully retired within the horizon: the phase lasts to the end.
    assert!(pension_unpaid_during_partial(Some(300), Some(100), None, Some(pension(Dec::zero()))));
    // Before the phase, or paid during it, or without a pension: nothing to say.
    assert!(!pension_unpaid_during_partial(Some(90), Some(100), Some(180), Some(pension(Dec::zero()))));
    assert!(!pension_unpaid_during_partial(Some(120), Some(100), Some(180), Some(pension(Dec::new(5, 1)))));
    assert!(!pension_unpaid_during_partial(Some(120), Some(100), Some(180), None));
    assert!(!pension_unpaid_during_partial(None, Some(100), Some(180), Some(pension(Dec::zero()))));
}

#[test]
fn the_unpaid_pension_warning_is_added_once() {
    let mut w: Vec<String> = vec!["birth_date_missing".to_string()];
    add_run_warnings(&mut w, Some(120), Some(100), Some(180), Some(pension(Dec::zero())));
    assert_eq!(w, vec!["birth_date_missing".to_string(), "pension_unpaid_during_partial".to_string()]);
    add_run_warnings(&mut w, Some(120), Some(100), Some(180), Some(pension(Dec::zero())));
    assert_eq!(w.len(), 2);
    let mut quiet: Vec<String> = Vec::new();
    add_run_warnings(&mut quiet, Some(120), Some(100), Some(180), Some(pension(Dec::one())));
    assert!(quiet.is_empty());
}

#[test]
fn a_negative_repayment_month_flags_the_liability() {
    let schedule = vec![whole(10), whole(0), Dec::new(-25, 1), whole(3)];
    let r = negative_amortization_of(&schedule, whole(1000), whole(1100)).unwrap();
    assert_eq!((rd(r.0), rd(r.1)), (Decimal::new(1000, 0), Decimal::new(1100, 0)));
}

#[test]
fn an_interest_only_schedule_is_not_negative_amortization() {
    let frozen = vec![whole(0), whole(0), whole(0)];
    assert!(negative_amortization_of(&frozen, whole(1000), whole(1000)).is_none());
    assert!(negative_amortization_of(&Vec::new(), whole(1000), whole(1000)).is_none());
}

#[test]
fn only_flagged_liabilities_are_published_in_order_as_money() {
    let ids = vec![(1u128, "Hipoteca".to_string()), (2u128, "Coche".to_string()), (3u128, "Tarjeta".to_string())];
    let flags = vec![Some((Dec::new(1_000_123_456, 5), whole(11000))), None, Some((whole(500), whole(650)))];
    let rows = negative_amortization_rows(&ids, &flags, 360);
    assert_eq!(rows.len(), 2);
    assert_eq!(rows[0].liability_id, 1);
    assert_eq!(rows[0].label, "Hipoteca");
    // 10001.23456 is published at four decimals.
    assert_eq!(rd(rows[0].opening_principal), Decimal::new(100_012_346, 4));
    assert_eq!(rd(rows[0].final_principal), Decimal::new(11000, 0));
    assert_eq!(rows[0].horizon_months, 360);
    assert_eq!(rows[1].liability_id, 3);
    assert_eq!(rows[1].label, "Tarjeta");
    assert_eq!(rd(rows[1].final_principal), Decimal::new(650, 0));
}

#[test]
fn liabilities_beyond_the_flags_are_not_read() {
    let ids = vec![(1u128, "A".to_string()), (2u128, "B".to_string())];
    let flags = vec![Some((whole(1), whole(2)))];
    let rows = negative_amortization_rows(&ids, &flags, 12);
    assert_eq!(rows.len(), 1);
    assert_eq!(rows[0].liability_id, 1);
}
