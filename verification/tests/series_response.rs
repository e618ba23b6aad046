use futurefin_api::bands::{band_points, bands_scenario_source, bands_view_allowed, BandsScenarioSource};
use futurefin_api::decimal::Dec;
use futurefin_api::response::{
    curve_state, household_depletion_month, phase_transitions_of, projection_points,
    series_horizon, series_position, uncovered_deficit_out, uses_age_axis, ExtrasSlot,
    MonthlySeries, Phase,
};
use futurefin_api::series::{density_month_indices, Density, RequestError};

fn whole(n: i64) -> Dec {
    Dec::from_i64(n)
}

fn series(n: usize) -> MonthlySeries {
    MonthlySeries {
        net_worth: (0..n).map(|i| whole(1000 + 10 * i as i64)).collect(),
        contributed_capital: (0..n).map(|i| whole(i as i64)).collect(),
        liquid_worth: vec![whole(7); n],
        withdrawal: Vec::new(),
        withdrawal_shortfall: vec![whole(1); n],
        withdrawal_excess: vec![whole(2); n],
        unmet_need: vec![Dec::new(-5, 25); n],
    }
}

#[test]
fn points_are_read_at_their_own_month_and_deflated_by_it() {
    let s = series(30);
    let kept = density_month_indices(Density::Hybrid, 30);
    let points = projection_points(&kept, &s, Dec::zero());
    assert_eq!(points.len(), kept.len());
    let last = points.last().unwrap();
    assert_eq!(last.month_index, 29);
    assert_eq!(last.net_worth, whole(1290));
    assert_eq!(last.net_worth_real, whole(1290), "no inflation, no deflation");
    assert_eq!(last.contributed_capital, whole(29));
    assert_eq!(last.withdrawal, Dec::zero(), "a missing column reads as zero");
    assert_eq!(last.unmet_need, Dec::zero(), "the rounding dust is published as zero");

    let real = projection_points(&vec![0, 12], &s, whole(10));
    assert_eq!(real[0].net_worth_real, whole(1000));
    let deflated = real[1].net_worth_real;
    let v = rust_decimal::Decimal::from_i128_with_scale(deflated.mantissa_i128(), deflated.scale_u32());
    assert!((v - rust_decimal::Decimal::new(1018181818, 6)).abs() < rust_decimal::Decimal::new(1, 5), "{v}");
    assert_eq!(projection_points(&vec![0, 40], &s, Dec::zero()).len(), 1, "beyond the series there is no point");
}

#[test]
fn the_retirement_position_is_the_last_point_not_past_it() {
    let s = series(40);
    let kept = density_month_indices(Density::Hybrid, 40);
    let points = projection_points(&kept, &s, Dec::zero());
    assert_eq!(series_position(&points, None), None);
    assert_eq!(series_position(&points, Some(5)), Some(5));
    assert_eq!(series_position(&points, Some(30)), Some(13), "month 24 is the last point before 30");
    assert_eq!(series_position(&points, Some(39)), Some(15));
}

#[test]
fn the_household_depletes_with_its_first_member() {
    assert_eq!(household_depletion_month(&vec![None, Some(30), Some(12), None]), Some(11));
    assert_eq!(household_depletion_month(&vec![None, None]), None);
    assert_eq!(household_depletion_month(&vec![Some(0)]), Some(0));
}

#[test]
fn the_household_horizon_is_the_longest_member_horizon() {
    let (m, basis) = series_horizon(false, true, 360, "lifespan_age", &vec![300, 540, 420]);
    assert_eq!((m, basis.as_str()), (540, "household_max_lifespan"));
    let (m, basis) = series_horizon(true, true, 120, "months_override", &vec![300, 540]);
    assert_eq!((m, basis.as_str()), (120, "months_override"));
    let (m, _) = series_horizon(false, false, 360, "lifespan_age", &vec![540]);
    assert_eq!(m, 360);
    let (m, _) = series_horizon(false, true, 360, "lifespan_age", &Vec::new());
    assert_eq!(m, 360);
}

#[test]
fn transitions_move_to_the_grid() {
    let t = phase_transitions_of(&vec![(Phase::Accumulating, 1), (Phase::Partial, 61), (Phase::Retired, 0)]);
    assert_eq!(t[0].phase, "accumulating");
    assert_eq!(t[0].month_index, 0);
    assert_eq!(t[1].phase, "partial");
    assert_eq!(t[1].month_index, 60);
    assert_eq!(t[2].month_index, 0);
}

#[test]
fn small_readings_of_the_response() {
    assert!(uses_age_axis(" ages ", true));
    assert!(!uses_age_axis("ages", false));
    assert!(!uses_age_axis("dates", true));
    assert_eq!(uncovered_deficit_out(Dec::new(-5, 25)), Dec::zero());
    assert_eq!(uncovered_deficit_out(Dec::new(123456, 5)), Dec::new(12346, 4));
    assert_eq!(curve_state(true, ExtrasSlot::Pending), "unavailable");
    assert_eq!(curve_state(false, ExtrasSlot::Missing), "unavailable");
    assert_eq!(curve_state(false, ExtrasSlot::Pending), "computing");
    assert_eq!(curve_state(false, ExtrasSlot::Done { ready: false }), "unavailable");
    assert_eq!(curve_state(false, ExtrasSlot::Done { ready: true }), "ready");
}

#[test]
fn the_fan_is_laid_on_the_hybrid_grid_with_two_decimals() {
    let row = |base: i64| -> Vec<Option<Dec>> { (0..30).map(|i| Some(Dec::new(base * 1000 + i, 3))).collect() };
    let net_worth = vec![row(1), row(2), row(3)];
    let liquid = vec![row(4), row(5)];
    let points = band_points(&net_worth, &liquid, 29);
    assert_eq!(points.len(), density_month_indices(Density::Hybrid, 30).len());
    let last = points.last().unwrap();
    assert_eq!(last.month_index, 29);
    assert_eq!(last.net_worth_p10, Dec::new(103, 2), "1.029 rounds to 1.03");
    assert_eq!(last.net_worth_p90, Dec::new(303, 2));
    assert_eq!(last.net_worth_liquid_p90, Some(Dec::zero()), "a missing percentile is zero");
    let empty = band_points(&Vec::new(), &Vec::new(), 12);
    assert_eq!(empty.len(), 13);
    assert_eq!(empty[0].net_worth_p50, Dec::zero());
}

#[test]
fn the_household_view_has_no_bands() {
    assert_eq!(bands_view_allowed(true), Err(RequestError::HouseholdBandsUnavailable));
    assert_eq!(RequestError::HouseholdBandsUnavailable.code(), "household_bands_unavailable");
    assert_eq!(bands_view_allowed(false), Ok(()));
}

#[test]
fn the_bands_reuse_a_plan_before_solving_one() {
    assert_eq!(bands_scenario_source(true, true, true), (BandsScenarioSource::Assembled, false));
    assert_eq!(bands_scenario_source(false, true, true), (BandsScenarioSource::Cached, false));
    assert_eq!(bands_scenario_source(false, false, true), (BandsScenarioSource::Solve, true));
    assert_eq!(bands_scenario_source(false, false, false), (BandsScenarioSource::Unplanned, false));
}
