use futurefin_api::calendar::{
    age_completed_years, jubilacion_civil, proj_add_months, proj_month_first,
    projection_horizon_months,
};
use futurefin_api::date::Date;
use futurefin_api::decimal::Dec;
use futurefin_api::series::{
    density_month_indices, engine_month_to_grid, merge_warnings, plan_curve_parallel_to_points,
    push_warning, resolve_density, validate_months_override, Density, ProjectionSeriesQuery,
    RequestError,
};

fn d(y: i32, m: u32, day: u32) -> Date {
    Date::from_ymd_opt(y, m, day).unwrap()
}

fn whole(n: i64) -> Dec {
    Dec::from_i64(n)
}

// ---------------------------------------------------------------------------------------------
// Horizon
// ---------------------------------------------------------------------------------------------

#[test]
fn horizon_fallback_without_birth_dates() {
    let today = d(2026, 5, 2);
    let (m, basis) = projection_horizon_months(today, &vec![None], 90);
    assert_eq!(m, 30 * 12);
    assert_eq!(basis, "fallback_no_demographics");
}

#[test]
fn horizon_uses_lifespan_age_from_birth_date() {
    let today = d(2026, 5, 2);
    let bd = vec![Some(d(1990, 1, 1)), Some(d(1985, 1, 1))];
    let (m, basis) = projection_horizon_months(today, &bd, 90);
    assert_eq!(m, 54 * 12);
    assert_eq!(basis, "lifespan_age");
}

#[test]
fn horizon_minimum_five_years_when_already_near_lifespan() {
    let today = d(2026, 5, 2);
    let bd = vec![Some(d(1940, 1, 1))];
    let (m, basis) = projection_horizon_months(today, &bd, 90);
    assert_eq!(basis, "lifespan_age");
    assert_eq!(m, 5 * 12);
}

#[test]
fn horizon_follows_the_configured_lifespan_age() {
    let today = d(2026, 5, 2);
    let bd = vec![Some(d(1990, 1, 1))];
    let (m, basis) = projection_horizon_months(today, &bd, 100);
    assert_eq!(m, 64 * 12);
    assert_eq!(basis, "lifespan_age");

    let joven = vec![Some(d(1996, 1, 1))];
    let (m, _) = projection_horizon_months(today, &joven, 105);
    assert_eq!(m, 70 * 12, "the [5, 70] clamp holds: 75 years asked give 840 months");
}

#[test]
fn horizon_ignores_missing_birth_dates_among_known_ones() {
    let today = d(2026, 5, 2);
    let bd = vec![None, Some(d(1985, 1, 1)), None];
    let (m, basis) = projection_horizon_months(today, &bd, 90);
    assert_eq!(m, 49 * 12);
    assert_eq!(basis, "lifespan_age");
    let (m, basis) = projection_horizon_months(today, &Vec::new(), 90);
    assert_eq!(m, 360);
    assert_eq!(basis, "fallback_no_demographics");
}

// ---------------------------------------------------------------------------------------------
// Civil reading of a grid month
// ---------------------------------------------------------------------------------------------

#[test]
fn sin_cruce_no_hay_ni_fecha_ni_edad() {
    let (date, age) = jubilacion_civil(d(2026, 8, 21), Some(d(1990, 5, 10)), None);
    assert_eq!(date, None);
    assert_eq!(age, None);
}

#[test]
fn mes_cero_es_hoy_y_no_se_trata_como_no_alcanzado() {
    let (date, age) = jubilacion_civil(d(2026, 8, 21), Some(d(1990, 5, 10)), Some(0));
    assert_eq!(date.as_deref(), Some("2026-08-21"));
    assert_eq!(age, Some(36));
}

#[test]
fn conserva_el_dia_del_ancla_igual_que_add_months_civil() {
    let (date, _) = jubilacion_civil(d(2026, 8, 21), None, Some(137));
    assert_eq!(date.as_deref(), Some("2038-01-21"));
}

#[test]
fn recorta_a_fin_de_mes_cuando_el_dia_no_existe() {
    let (date, _) = jubilacion_civil(d(2026, 1, 31), None, Some(1));
    assert_eq!(date.as_deref(), Some("2026-02-28"));
    let (date, _) = jubilacion_civil(d(2027, 8, 31), None, Some(6));
    assert_eq!(date.as_deref(), Some("2028-02-29"));
}

#[test]
fn salta_de_ano_correctamente() {
    let (date, _) = jubilacion_civil(d(2026, 8, 21), None, Some(5));
    assert_eq!(date.as_deref(), Some("2027-01-21"));
    let (date, _) = jubilacion_civil(d(2026, 12, 15), None, Some(13));
    assert_eq!(date.as_deref(), Some("2028-01-15"));
}

#[test]
fn sin_fecha_de_nacimiento_hay_fecha_pero_no_edad() {
    let (date, age) = jubilacion_civil(d(2026, 8, 21), None, Some(12));
    assert_eq!(date.as_deref(), Some("2027-08-21"));
    assert_eq!(age, None);
}

#[test]
fn la_edad_son_anos_cumplidos_en_la_fecha_del_cruce() {
    let birth = d(1990, 5, 10);
    let (_, age) = jubilacion_civil(d(2026, 8, 21), Some(birth), Some(137));
    assert_eq!(age, Some(47));
    let (_, age) = jubilacion_civil(d(2026, 8, 21), Some(birth), Some(142));
    assert_eq!(age, Some(48));
}

#[test]
fn anclar_al_dia_1_restaria_un_ano_en_el_mes_del_cumpleanos() {
    let birth = d(1990, 5, 10);
    let today = d(2026, 8, 21);
    let (_, age) = jubilacion_civil(today, Some(birth), Some(129));
    assert_eq!(age, Some(47), "with the anchor's day the birthday has passed");
    let dia_1 = age_completed_years(proj_add_months(proj_month_first(today), 129), birth);
    assert_eq!(dia_1, 46, "anchored on day 1 it would be a year less");
}

#[test]
fn month_arithmetic_keeps_the_first_of_the_month() {
    assert_eq!(proj_month_first(d(2026, 8, 21)), d(2026, 8, 1));
    assert_eq!(proj_add_months(d(2026, 12, 1), 1), d(2027, 1, 1));
    assert_eq!(proj_add_months(d(2026, 1, 31), 1), d(2026, 2, 28));
    assert_eq!(age_completed_years(d(2026, 5, 9), d(1990, 5, 10)), 35);
    assert_eq!(age_completed_years(d(2026, 5, 10), d(1990, 5, 10)), 36);
}

// ---------------------------------------------------------------------------------------------
// Density and grid
// ---------------------------------------------------------------------------------------------

#[test]
fn hybrid_density_always_includes_the_last_month_of_the_horizon() {
    for horizonte in [12u32, 18, 24, 25, 100, 119, 120, 121, 840] {
        let v = density_month_indices(Density::Hybrid, horizonte + 1);
        assert_eq!(
            v.last(),
            Some(&horizonte),
            "horizon {horizonte}: the last index must be the horizon itself, not {:?}",
            v.last()
        );
        assert!(
            v.windows(2).all(|w| w[0] < w[1]),
            "horizon {horizonte}: indices not increasing: {v:?}"
        );
        let esperados: Vec<u32> = (0..=12u32.min(horizonte)).collect();
        assert_eq!(v[..esperados.len()], esperados[..], "horizon {horizonte}");
    }
}

#[test]
fn monthly_density_lists_every_month() {
    assert_eq!(density_month_indices(Density::Monthly, 4), vec![0, 1, 2, 3]);
    assert_eq!(density_month_indices(Density::Monthly, 0), Vec::<u32>::new());
    assert_eq!(
        density_month_indices(Density::Hybrid, 30),
        vec![0, 1, 2, 3, 4, 5, 6, 7, 8, 9, 10, 11, 12, 24, 29]
    );
}

fn query(density: Option<&str>) -> ProjectionSeriesQuery {
    ProjectionSeriesQuery { view: None, months: None, density: density.map(String::from) }
}

#[test]
fn the_density_literal_is_strict() {
    assert_eq!(resolve_density(&query(None)), Ok(Density::Monthly));
    assert_eq!(resolve_density(&query(Some(""))), Ok(Density::Monthly));
    assert_eq!(resolve_density(&query(Some(" monthly "))), Ok(Density::Monthly));
    assert_eq!(resolve_density(&query(Some("hybrid"))), Ok(Density::Hybrid));
    let err = resolve_density(&query(Some("yearly"))).unwrap_err();
    assert_eq!(err, RequestError::InvalidDensity);
    assert_eq!(err.code(), "invalid_density");
}

#[test]
fn the_months_override_is_refused_outside_its_range() {
    assert!(validate_months_override(None).is_ok());
    assert!(validate_months_override(Some(12)).is_ok());
    assert!(validate_months_override(Some(840)).is_ok());
    assert_eq!(validate_months_override(Some(11)), Err(RequestError::MonthsOutOfRange));
    assert_eq!(validate_months_override(Some(841)), Err(RequestError::MonthsOutOfRange));
}

#[test]
fn the_engine_month_moves_one_step_back_on_the_grid() {
    assert_eq!(engine_month_to_grid(None), None);
    assert_eq!(engine_month_to_grid(Some(0)), Some(0));
    assert_eq!(engine_month_to_grid(Some(1)), Some(0));
    assert_eq!(engine_month_to_grid(Some(13)), Some(12));
}

#[test]
fn warnings_are_kept_once_in_order() {
    let mut w: Vec<String> = Vec::new();
    push_warning(&mut w, "a");
    push_warning(&mut w, "b");
    push_warning(&mut w, "a");
    assert_eq!(w, vec!["a".to_string(), "b".to_string()]);
    let merged = merge_warnings(&w, &vec!["b".to_string(), "c".to_string(), "c".to_string()]);
    assert_eq!(merged, vec!["a".to_string(), "b".to_string(), "c".to_string()]);
}

#[test]
fn the_plan_curve_follows_the_published_months() {
    let curve = vec![(0u32, whole(100)), (12, whole(200)), (24, whole(300))];
    let out = plan_curve_parallel_to_points(&vec![0, 5, 12, 30], &curve);
    assert_eq!(out, vec![Some(whole(100)), Some(whole(200)), Some(whole(300)), None]);
    let late = vec![(3u32, whole(7))];
    assert_eq!(plan_curve_parallel_to_points(&vec![0, 3], &late), vec![Some(whole(7)), None]);
}
