use futurefin_api::compound::compound_outpaces_true_savings_month;
use futurefin_api::date::Date;
use futurefin_api::decimal::Dec;
use futurefin_api::deflate::{
    deflate_amount_core, deflate_points_to_today, deflator_at_month_index, month_diff,
    real_growth_factor_at_month_index, NwPoint,
};
use futurefin_api::milestones::{milestone_baseline, projection_unique_reached_milestones};
use futurefin_api::planning::{
    expense_end_date_monthly_adjustments, expense_end_date_monthly_adjustments_checked,
    planning_monthly_cash_adjustments_checked, planning_monthly_cash_adjustments_from_flows,
    planning_upcoming_net_checked, planning_upcoming_net_for_milestone_baseline,
    projection_events_from_flows, sum_series, sum_series_checked, PlanningFlowProjRow,
};
use futurefin_api::series::RequestError;
use rust_decimal::Decimal;

fn d(y: i32, m: u32, day: u32) -> Date {
    Date::from_ymd_opt(y, m, day).unwrap()
}

fn whole(n: i64) -> Dec {
    Dec::from_i64(n)
}

fn rd(x: Dec) -> Decimal {
    Decimal::from_i128_with_scale(x.mantissa_i128(), x.scale_u32())
}

fn point(month_index: u32, net_worth: i64) -> NwPoint {
    NwPoint { month_index, net_worth: whole(net_worth) }
}

fn windowed(scope: &str, amount: i64, start: Option<Date>, end: Option<Date>, title: &str) -> PlanningFlowProjRow {
    PlanningFlowProjRow {
        scope: scope.to_string(),
        expected_amount: whole(amount),
        amount_basis: "per_month".to_string(),
        due_date: None,
        window_start_date: start,
        window_end_date: end,
        title: title.to_string(),
    }
}

// ---------------------------------------------------------------------------------------------
// Upcoming flows on the monthly grid
// ---------------------------------------------------------------------------------------------

#[test]
fn dated_planning_hits_single_calendar_month() {
    let ref_d = d(2026, 3, 20);
    let flows = vec![PlanningFlowProjRow::one_off("expense", whole(500), Some(d(2026, 5, 2)), "Derrama")];
    let adj = planning_monthly_cash_adjustments_from_flows(ref_d, 4, &flows);
    assert_eq!(adj[2], whole(-500));
    assert_eq!(rd(adj[0]) + rd(adj[1]) + rd(adj[3]), Decimal::ZERO);
}

#[test]
fn dated_before_anchor_month_loads_into_month_zero() {
    let ref_d = d(2026, 3, 10);
    let flows = vec![PlanningFlowProjRow::one_off("income", whole(9999), Some(d(2026, 2, 28)), "Cobro pasado")];
    let adj = planning_monthly_cash_adjustments_from_flows(ref_d, 3, &flows);
    assert_eq!(adj[0], whole(9999));
    assert_eq!(rd(adj[1]) + rd(adj[2]), Decimal::ZERO);
}

#[test]
fn undated_splits_over_ninety_days_from_the_anchor_month_first() {
    let ref_d = d(2026, 1, 1);
    let flows = vec![PlanningFlowProjRow::one_off("expense", whole(900), None, "Sin fecha")];
    let adj = planning_monthly_cash_adjustments_from_flows(ref_d, 3, &flows);
    assert_eq!(sum_series(&adj), whole(-900));
    assert_eq!(adj[0], whole(-310));
    assert_eq!(adj[1], whole(-280));
    assert_eq!(adj[2], whole(-310));
}

#[test]
fn undated_ramp_is_identical_for_every_day_of_the_anchor_month() {
    let flows = vec![PlanningFlowProjRow::one_off("expense", whole(900), None, "Sin fecha")];
    let expected = vec![whole(-310), whole(-300), whole(-290)];
    for day in [1u32, 15, 30, 31] {
        let ref_d = d(2026, 8, day);
        let adj = planning_monthly_cash_adjustments_from_flows(ref_d, 3, &flows);
        assert_eq!(adj, expected, "ref_date = 2026-08-{day:02}");
    }
}

#[test]
fn per_month_charges_every_calendar_month_its_window_touches() {
    let ref_d = d(2026, 8, 15);
    let flows = vec![windowed("expense", 800, Some(d(2026, 10, 20)), Some(d(2027, 1, 5)), "Alquiler")];
    let adj = planning_monthly_cash_adjustments_from_flows(ref_d, 8, &flows);
    let expected: Vec<Dec> = [0, 0, -800, -800, -800, -800, 0, 0].iter().map(|v| whole(*v)).collect();
    assert_eq!(adj, expected);
}

#[test]
fn per_month_with_open_window_reaches_the_horizon() {
    let ref_d = d(2026, 8, 15);
    let flows = vec![windowed("income", 500, Some(d(2026, 7, 1)), None, "Alquiler cobrado")];
    let adj = planning_monthly_cash_adjustments_from_flows(ref_d, 6, &flows);
    assert_eq!(adj, vec![whole(500); 6]);
}

#[test]
fn flows_of_an_unknown_scope_or_outside_the_horizon_add_nothing() {
    let ref_d = d(2026, 3, 20);
    let flows = vec![
        PlanningFlowProjRow::one_off("transfer", whole(500), Some(d(2026, 4, 2)), "Traspaso"),
        PlanningFlowProjRow::one_off("expense", whole(700), Some(d(2027, 4, 2)), "Lejos"),
    ];
    let adj = planning_monthly_cash_adjustments_from_flows(ref_d, 4, &flows);
    assert_eq!(adj, vec![whole(0); 4]);
    assert_eq!(planning_monthly_cash_adjustments_from_flows(ref_d, 0, &flows), Vec::<Dec>::new());
}

#[test]
fn baseline_adjustment_derives_from_the_shared_monthly_mapping() {
    let flows = vec![
        PlanningFlowProjRow::one_off("income", whole(1200), Some(d(2026, 1, 15)), "Paga extra"),
        PlanningFlowProjRow::one_off("expense", whole(300), Some(d(2026, 4, 5)), "IRPF"),
        PlanningFlowProjRow::one_off("expense", whole(90), None, "Varios"),
    ];
    for day in [1u32, 20] {
        let ref_d = d(2026, 1, day);
        assert_eq!(
            planning_upcoming_net_for_milestone_baseline(ref_d, &flows),
            whole(1110),
            "ref_date = 2026-01-{day:02}"
        );
    }
}

#[test]
fn an_ended_expense_comes_back_from_the_next_month() {
    let today = d(2026, 1, 10);
    let entries = vec![(whole(100), d(2026, 2, 15)), (whole(50), d(2025, 12, 31))];
    let adj = expense_end_date_monthly_adjustments(today, 5, &entries);
    assert_eq!(adj, vec![whole(50), whole(50), whole(150), whole(150), whole(150)]);
}

#[test]
fn events_are_ordered_by_month_then_amount_and_flag_overdue_flows() {
    let ref_d = d(2026, 3, 10);
    let flows = vec![
        PlanningFlowProjRow::one_off("expense", whole(100), Some(d(2026, 5, 2)), "Pequeño"),
        PlanningFlowProjRow::one_off("income", whole(400), Some(d(2026, 5, 20)), "Grande"),
        PlanningFlowProjRow::one_off("expense", whole(50), Some(d(2026, 1, 5)), "Vencido"),
        PlanningFlowProjRow::one_off("expense", whole(70), None, "Sin fecha"),
    ];
    let (events, truncated) = projection_events_from_flows(ref_d, 6, &flows);
    assert!(!truncated);
    assert_eq!(events.len(), 3);
    assert_eq!(events[0].title, "Vencido");
    assert_eq!(events[0].month_index, 0);
    assert!(events[0].overdue);
    assert_eq!(events[0].direction, "outflow");
    assert_eq!(events[1].title, "Grande");
    assert_eq!(events[1].month_index, 2);
    assert_eq!(events[1].direction, "inflow");
    assert_eq!(events[1].date_ymd, "2026-05-20");
    assert_eq!(events[2].title, "Pequeño");
    assert!(!events[2].overdue);
}

#[test]
fn at_most_a_hundred_events_are_published() {
    let ref_d = d(2026, 3, 10);
    let flows: Vec<PlanningFlowProjRow> = (0..101)
        .map(|i| PlanningFlowProjRow::one_off("expense", whole(i + 1), Some(d(2026, 4, 1)), "X"))
        .collect();
    let (events, truncated) = projection_events_from_flows(ref_d, 6, &flows);
    assert!(truncated);
    assert_eq!(events.len(), 100);
    assert_eq!(events[0].amount, whole(101));
}

// ---------------------------------------------------------------------------------------------
// Milestones
// ---------------------------------------------------------------------------------------------

fn ladder(values: &[i64]) -> Vec<Dec> {
    values.iter().map(|v| whole(*v)).collect()
}

#[test]
fn milestones_deduplicate_by_year_keeping_highest_target() {
    let points = vec![point(0, 900), point(1, 1200), point(3, 2700), point(9, 6000), point(15, 11000)];
    // The candidate targets after a baseline of 900.
    let generated = ladder(&[1000, 2500, 5000, 10_000, 25_000, 50_000, 100_000, 250_000]);
    let out = projection_unique_reached_milestones(&points, d(2026, 1, 10), 3, &generated);
    assert_eq!(out.len(), 2);
    assert_eq!(out[0].target, whole(5000));
    assert_eq!(out[1].target, whole(10_000));
    assert_eq!(out[0].reached_month_index, 9);
    assert_eq!(out[0].reached_date_ymd, "2026-10-01");
    assert_eq!(out[1].reached_date_ymd, "2027-04-01");
}

#[test]
fn milestones_stop_at_the_limit_and_on_empty_input() {
    let points = vec![point(0, 0), point(12, 2000), point(24, 6000), point(36, 20_000)];
    let generated = ladder(&[1000, 2500, 5000, 10_000]);
    let out = projection_unique_reached_milestones(&points, d(2026, 1, 10), 2, &generated);
    assert_eq!(out.len(), 2);
    assert_eq!(out[0].target, whole(1000));
    assert_eq!(out[1].target, whole(2500));
    assert!(projection_unique_reached_milestones(&Vec::new(), d(2026, 1, 10), 3, &generated).is_empty());
    assert!(projection_unique_reached_milestones(&points, d(2026, 1, 10), 0, &generated).is_empty());
}

#[test]
fn the_milestone_baseline_is_the_first_point_plus_the_adjustment() {
    assert_eq!(milestone_baseline(&vec![point(0, 900), point(1, 5)], whole(210)), Some(whole(1110)));
    assert_eq!(milestone_baseline(&Vec::new(), whole(210)), None);
}

// ---------------------------------------------------------------------------------------------
// Today's euros
// ---------------------------------------------------------------------------------------------

#[test]
fn deflate_points_to_today_is_identity_with_zero_inflation() {
    let points = vec![point(0, 1000), point(12, 2000)];
    let out = deflate_points_to_today(&points, Dec::zero());
    assert_eq!(out[0].net_worth, whole(1000));
    assert_eq!(out[1].net_worth, whole(2000));
}

#[test]
fn deflate_points_to_today_discounts_future_to_present() {
    let points = vec![point(0, 1000), point(12, 1100)];
    let out = deflate_points_to_today(&points, whole(10));
    assert_eq!(out[0].net_worth, whole(1000));
    let diff = (rd(out[1].net_worth) - Decimal::from(1000)).abs();
    assert!(diff < Decimal::new(1, 6), "expected about 1000 of today, got {:?}", out[1].net_worth);
}

#[test]
fn real_milestones_are_reached_later_than_nominal() {
    let points: Vec<NwPoint> = (0u32..=120).map(|m| point(m, 1000 + 75 * m as i64)).collect();
    let anchor = d(2026, 1, 10);
    // The candidate targets after a baseline of 1000 (both series start at 1000).
    let generated = ladder(&[2500, 5000, 10_000, 25_000, 50_000, 100_000]);
    let nominal = projection_unique_reached_milestones(&points, anchor, 3, &generated);
    let real_points = deflate_points_to_today(&points, whole(8));
    let real = projection_unique_reached_milestones(&real_points, anchor, 3, &generated);
    let mut found_strictly_later = false;
    for n in &nominal {
        if let Some(r) = real.iter().find(|r| r.target == n.target) {
            assert!(
                r.reached_month_index >= n.reached_month_index,
                "target {:?} crossed earlier in today's euros ({} < {})",
                n.target,
                r.reached_month_index,
                n.reached_month_index
            );
            if r.reached_month_index > n.reached_month_index {
                found_strictly_later = true;
            }
        }
    }
    assert!(found_strictly_later, "some common target should be crossed later in today's euros");
}

#[test]
fn the_deflator_is_one_at_month_zero_and_without_inflation() {
    assert_eq!(deflator_at_month_index(whole(10), 0), Dec::one());
    assert_eq!(deflator_at_month_index(Dec::zero(), 120), Dec::one());
    assert!(rd(deflator_at_month_index(whole(-2), 120)) > Decimal::ONE, "deflation makes future euros worth more");
    let year = rd(deflator_at_month_index(whole(10), 12));
    assert!((year - Decimal::new(909_090_909, 9)).abs() < Decimal::new(1, 8), "{year}");
    let growth = rd(real_growth_factor_at_month_index(whole(10), 12));
    assert!((growth - Decimal::new(11, 1)).abs() < Decimal::new(1, 8), "{growth}");
}

#[test]
fn the_conversion_names_exactly_one_month() {
    let today = d(2026, 3, 10);
    let by_index = deflate_amount_core(today, whole(10), whole(1100), Some(12), None).unwrap();
    assert_eq!(by_index.month_index, 12);
    assert_eq!(by_index.month_ymd, "2027-03-01");
    assert_eq!(by_index.anchor_date_ymd, "2026-03-10");
    assert_eq!(by_index.amount_in_today_euros, whole(1000));
    assert_eq!(by_index.amount_in_month_euros, whole(1210));
    let by_date = deflate_amount_core(today, whole(10), whole(1100), None, Some(d(2027, 3, 31))).unwrap();
    assert_eq!(by_date.month_index, 12);
    assert_eq!(
        deflate_amount_core(today, whole(10), whole(1), Some(1), Some(d(2027, 3, 31))).unwrap_err(),
        RequestError::DeflateTimingAmbiguous
    );
    assert_eq!(
        deflate_amount_core(today, whole(10), whole(1), None, None).unwrap_err(),
        RequestError::DeflateTimingAmbiguous
    );
    assert_eq!(
        deflate_amount_core(today, whole(10), whole(1), None, Some(d(2026, 2, 28))).unwrap_err(),
        RequestError::DeflateDateInPast
    );
    assert_eq!(
        deflate_amount_core(today, whole(10), whole(1), Some(841), None).unwrap_err(),
        RequestError::DeflateMonthOutOfRange
    );
    assert_eq!(month_diff(d(2026, 3, 10), d(2025, 12, 1)), -3);
}

// ---------------------------------------------------------------------------------------------
// The compound-interest marker
// ---------------------------------------------------------------------------------------------

#[test]
fn compound_marker_requires_persistent_crossover() {
    // Savings of 100 a month; the market adds 50, then 150 for three months.
    let contributed = ladder(&[0, 100, 200, 300, 400, 500, 600]);
    let net_worth = ladder(&[0, 150, 400, 650, 900, 1150, 1300]);
    assert_eq!(compound_outpaces_true_savings_month(whole(100), &net_worth, &contributed), Some(2));
    // Two months ahead and then behind: no run of three.
    let short = ladder(&[0, 250, 500, 650, 800, 950, 1100]);
    assert_eq!(compound_outpaces_true_savings_month(whole(100), &short, &contributed), None);
}

#[test]
fn compound_marker_needs_positive_savings() {
    let contributed = ladder(&[0, 100, 200, 300, 400]);
    let net_worth = ladder(&[0, 1000, 2000, 3000, 4000]);
    assert_eq!(compound_outpaces_true_savings_month(Dec::zero(), &net_worth, &contributed), None);
    assert_eq!(compound_outpaces_true_savings_month(whole(-5), &net_worth, &contributed), None);
    let flat = ladder(&[0, 0, 0, 0, 0]);
    assert_eq!(compound_outpaces_true_savings_month(whole(100), &net_worth, &flat), None);
}

#[test]
fn flows_far_above_any_household_still_add_up() {
    let ref_d = d(2026, 1, 15);
    let amount = Dec::from_mantissa_scale(100_000_000_000_000_000_000i128, 0).unwrap(); // 10^20
    let flows = vec![
        PlanningFlowProjRow::one_off("income", amount, Some(d(2026, 2, 1)), "A"),
        PlanningFlowProjRow::one_off("income", amount, Some(d(2026, 2, 20)), "B"),
    ];
    let adj = planning_monthly_cash_adjustments_from_flows(ref_d, 3, &flows);
    assert_eq!(rd(adj[1]), Decimal::from_i128_with_scale(200_000_000_000_000_000_000, 0));
    assert_eq!(adj[0], Dec::zero());
}

#[test]
fn a_large_amount_deflates_at_a_positive_rate() {
    let v = Dec::from_mantissa_scale(50_000_000_000_000_000_000_000_000_000i128, 0).unwrap(); // 5 * 10^28
    let out = deflate_points_to_today(&vec![NwPoint { month_index: 12, net_worth: v }], whole(2));
    assert!(rd(out[0].net_worth) < rd(v));
    assert!(rd(out[0].net_worth) > Decimal::from_i128_with_scale(48_000_000_000_000_000_000_000_000_000, 0));
}

fn huge() -> Dec {
    Dec::from_mantissa_scale(50_000_000_000_000_000_000_000_000_000i128, 0).unwrap() // 5 * 10^28
}

#[test]
fn the_checked_adjustments_refuse_a_month_that_would_overflow() {
    let ref_d = d(2026, 1, 15);
    let over = vec![
        PlanningFlowProjRow::one_off("income", huge(), Some(d(2026, 2, 1)), "A"),
        PlanningFlowProjRow::one_off("income", huge(), Some(d(2026, 2, 20)), "B"),
    ];
    assert!(planning_monthly_cash_adjustments_checked(ref_d, 3, &over).is_none());
    assert!(planning_upcoming_net_checked(ref_d, &over).is_none());
    // Opposite signs in the same month cancel and fit.
    let netted = vec![
        PlanningFlowProjRow::one_off("income", huge(), Some(d(2026, 2, 1)), "A"),
        PlanningFlowProjRow::one_off("expense", huge(), Some(d(2026, 2, 20)), "B"),
    ];
    let adj = planning_monthly_cash_adjustments_checked(ref_d, 3, &netted).unwrap();
    assert!(adj[1].is_zero());
    // Each month fits, but the sum of the three does not.
    let spread = vec![
        PlanningFlowProjRow::one_off("income", huge(), Some(d(2026, 1, 20)), "A"),
        PlanningFlowProjRow::one_off("income", huge(), Some(d(2026, 2, 20)), "B"),
    ];
    assert!(planning_monthly_cash_adjustments_checked(ref_d, 3, &spread).is_some());
    assert!(planning_upcoming_net_checked(ref_d, &spread).is_none());
    let small = vec![PlanningFlowProjRow::one_off("income", whole(1200), Some(d(2026, 1, 20)), "A")];
    assert_eq!(planning_upcoming_net_checked(ref_d, &small), Some(whole(1200)));
    assert_eq!(sum_series_checked(&vec![huge(), huge()]), None);
    assert_eq!(sum_series_checked(&vec![huge(), whole(-1)]).map(|x| rd(x)), Some(rd(huge()) - Decimal::ONE));
}

#[test]
fn the_checked_end_date_adjustments_refuse_an_overflow() {
    let today = d(2026, 1, 10);
    let entries = vec![(huge(), d(2025, 12, 31)), (huge(), d(2025, 11, 30))];
    assert!(expense_end_date_monthly_adjustments_checked(today, 3, &entries).is_none());
    let fine = vec![(whole(100), d(2026, 2, 15))];
    assert_eq!(
        expense_end_date_monthly_adjustments_checked(today, 3, &fine),
        Some(vec![whole(0), whole(0), whole(100)])
    );
}

#[test]
fn two_days_of_the_same_month_give_the_same_adjustments() {
    let flows = vec![PlanningFlowProjRow::one_off("expense", whole(900), None, "Sin fecha")];
    let first = planning_monthly_cash_adjustments_from_flows(d(2026, 8, 1), 3, &flows);
    let last = planning_monthly_cash_adjustments_from_flows(d(2026, 8, 31), 3, &flows);
    assert_eq!(first, last);
    assert_eq!(first.iter().map(|x| rd(*x)).collect::<Vec<_>>(), vec![Decimal::from(-310), Decimal::from(-300), Decimal::from(-290)]);
}
