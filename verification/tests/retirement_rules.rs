use futurefin_api::decimal::Dec;
use rust_decimal::Decimal;
use futurefin_api::profile::{
    default_bridge_pct, default_retirement_profile, parse_profile_decimal,
    parse_retirement_strategy, patch_retirement_profile_core, requires_target_age,
    resolve_retirement_profile, validate_retirement_profile, CoastMode, FireNumberMode,
    PartialExpenseBasis, PartialRetirement, PartialStartMode, PatchRetirementProfileBody,
    PctLabel, PctSource, PensionPlan, ProfileError, RetirementProfile, RetirementProfilePatch,
    RetirementStrategy, SpendMode, WithdrawalRule, WithdrawalRuleKind, DEFAULT_BRIDGE_YEARS,
    DEFAULT_SUCCESS_THRESHOLD_PCT, MAX_BRIDGE_PCT, MAX_BRIDGE_YEARS, MAX_HORIZON_LIFESPAN_AGE,
    MAX_SUCCESS_THRESHOLD_PCT, MAX_SWR_PCT, MIN_BRIDGE_YEARS, MIN_PROFILE_AGE,
    MIN_SUCCESS_THRESHOLD_PCT,
};

fn rd(x: Dec) -> Decimal {
    Decimal::from_i128_with_scale(x.mantissa_i128(), x.scale_u32())
}

fn whole(n: u32) -> Dec {
    Dec::from_u32(n)
}

fn pension(amount: u32, age: u32) -> PensionPlan {
    PensionPlan {
        monthly_amount_today: whole(amount),
        starts_at_age: age,
        indexed: true,
        fraction_while_partial: Dec::zero(),
        bridge_enabled: false,
        bridge_max_pct: None,
        bridge_max_years: None,
    }
}

fn code_of(r: Result<(), ProfileError>) -> &'static str {
    match r {
        Ok(()) => "ok",
        Err(e) => e.code(),
    }
}

fn rule(kind: WithdrawalRuleKind) -> WithdrawalRule {
    WithdrawalRule { kind, ..WithdrawalRule::default() }
}

// ---------------------------------------------------------------------------------------------
// Resolution on read
// ---------------------------------------------------------------------------------------------

#[test]
fn an_absent_profile_is_the_v2_default() {
    let p = resolve_retirement_profile(None);
    assert_eq!(p.strategy, RetirementStrategy::Asap);
    assert_eq!(p.swr_pct, Dec::new(35, 1));
    assert_eq!(p.horizon_lifespan_age, 90);
    assert_eq!(p.fire_number_mode, FireNumberMode::AnnualExpense);
    assert_eq!(p.withdrawal_rule.kind, WithdrawalRuleKind::FixedReal);
    assert_eq!(p.withdrawal_rule.spend_mode, SpendMode::Ceiling);
    assert_eq!(p.success_threshold_pct, DEFAULT_SUCCESS_THRESHOLD_PCT);
    assert_eq!(p.coast_mode, CoastMode::FixedRetirementAge);
    assert_eq!(p.coast_stop_age, None);
    assert!(!p.migrated_from_pension_bridge);
}

#[test]
fn a_stored_default_resolves_like_an_absent_profile() {
    let stored = default_retirement_profile();
    assert_eq!(resolve_retirement_profile(Some(stored)), resolve_retirement_profile(None));
    assert_eq!(RetirementProfile::default(), default_retirement_profile());
}

#[test]
fn the_pension_bridge_literal_migrates_to_asap_with_the_bridge_on() {
    let (strategy, migrated) = parse_retirement_strategy("pension_bridge").expect("the alias still parses");
    assert_eq!(strategy, RetirementStrategy::Asap);
    assert!(migrated, "the alias must be recorded");
    let stored = RetirementProfile {
        strategy,
        migrated_from_pension_bridge: migrated,
        pension: Some(pension(1200, 67)),
        ..default_retirement_profile()
    };
    let p = resolve_retirement_profile(Some(stored));
    let pen = p.pension.expect("the pension is still there");
    assert!(pen.bridge_enabled, "the alias switches the bridge on");
    assert_eq!(pen.bridge_max_pct, Some(whole(5)));
    assert_eq!(pen.bridge_max_years, Some(DEFAULT_BRIDGE_YEARS));
    assert_eq!(p.strategy.as_str(), "asap");

    let plain = RetirementProfile { pension: Some(pension(1200, 67)), ..default_retirement_profile() };
    assert!(!plain.migrated_from_pension_bridge);
    assert!(!resolve_retirement_profile(Some(plain)).pension.unwrap().bridge_enabled);
}

#[test]
fn only_the_four_live_literals_and_the_alias_are_strategies() {
    assert_eq!(parse_retirement_strategy("asap"), Some((RetirementStrategy::Asap, false)));
    assert_eq!(parse_retirement_strategy("retire_at_age"), Some((RetirementStrategy::RetireAtAge, false)));
    assert_eq!(parse_retirement_strategy("coast"), Some((RetirementStrategy::Coast, false)));
    assert_eq!(parse_retirement_strategy("partial"), Some((RetirementStrategy::Partial, false)));
    assert_eq!(parse_retirement_strategy("no_existe"), None);
    assert_eq!(parse_retirement_strategy("Asap"), None);
}

#[test]
fn the_default_bridge_pct_is_five_or_the_swr_plus_one() {
    assert_eq!(default_bridge_pct(Dec::new(35, 1)), whole(5));
    assert_eq!(default_bridge_pct(whole(3)), whole(5));
    assert_eq!(default_bridge_pct(whole(5)), whole(6));
    assert_eq!(default_bridge_pct(Dec::new(55, 1)), Dec::new(65, 1));
    for swr in [Dec::zero(), whole(4), whole(MAX_SWR_PCT)] {
        assert!(rd(default_bridge_pct(swr)) > rd(swr), "swr = {swr:?}");
        assert!(rd(default_bridge_pct(swr)) <= Decimal::from(MAX_BRIDGE_PCT));
    }
}

#[test]
fn enabling_the_bridge_without_numbers_fills_the_defaults() {
    let mut p = default_retirement_profile();
    p.strategy = RetirementStrategy::Coast;
    p.target_retirement_age = Some(60);
    p.swr_pct = whole(5);
    p.pension = Some(PensionPlan { bridge_enabled: true, ..pension(1200, 67) });
    let r = resolve_retirement_profile(Some(p));
    let pen = r.pension.expect("pension");
    assert_eq!(pen.bridge_max_pct, Some(whole(6)));
    assert_eq!(pen.bridge_max_years, Some(7));
}

#[test]
fn out_of_range_values_are_clamped_on_read_never_rejected() {
    let mut p = default_retirement_profile();
    p.swr_pct = whole(99);
    p.horizon_lifespan_age = 200;
    p.target_retirement_age = Some(3);
    p.success_threshold_pct = 500;
    p.coast_stop_age = Some(2);
    let r = resolve_retirement_profile(Some(p));
    assert_eq!(r.swr_pct, whole(MAX_SWR_PCT));
    assert_eq!(r.horizon_lifespan_age, MAX_HORIZON_LIFESPAN_AGE);
    assert_eq!(r.target_retirement_age, Some(MIN_PROFILE_AGE));
    assert_eq!(r.success_threshold_pct, MAX_SUCCESS_THRESHOLD_PCT);
    assert_eq!(r.coast_stop_age, Some(MIN_PROFILE_AGE));

    p.success_threshold_pct = 0;
    p.target_retirement_age = Some(60);
    p.coast_stop_age = Some(200);
    let r = resolve_retirement_profile(Some(p));
    assert_eq!(r.success_threshold_pct, MIN_SUCCESS_THRESHOLD_PCT);
    assert_eq!(r.coast_stop_age, Some(60));
}

#[test]
fn the_bridge_numbers_are_clamped_on_read() {
    let mut p = default_retirement_profile();
    p.swr_pct = whole(4);
    p.pension = Some(PensionPlan {
        bridge_enabled: true,
        bridge_max_pct: Some(whole(99)),
        bridge_max_years: Some(999),
        ..pension(1000, 65)
    });
    let pen = resolve_retirement_profile(Some(p)).pension.expect("pension");
    assert_eq!(pen.bridge_max_pct, Some(whole(MAX_BRIDGE_PCT)));
    assert_eq!(pen.bridge_max_years, Some(MAX_BRIDGE_YEARS));

    p.pension = Some(PensionPlan {
        bridge_enabled: true,
        bridge_max_pct: Some(whole(1)),
        bridge_max_years: Some(0),
        ..pension(1000, 65)
    });
    let pen = resolve_retirement_profile(Some(p)).pension.expect("pension");
    assert_eq!(pen.bridge_max_pct, Some(whole(4)));
    assert_eq!(pen.bridge_max_years, Some(MIN_BRIDGE_YEARS));
}

#[test]
fn a_missing_withdrawal_pct_inherits_the_swr_and_says_so() {
    let mut stored = default_retirement_profile();
    stored.swr_pct = Dec::new(30, 1);
    stored.withdrawal_rule = rule(WithdrawalRuleKind::PercentOfBalance);
    let r = resolve_retirement_profile(Some(stored));
    assert_eq!(r.withdrawal_rule.pct, Some(Dec::new(30, 1)));
    assert_eq!(r.withdrawal_rule.pct_source, Some(PctSource::Swr));

    stored.withdrawal_rule.pct = Some(whole(2));
    let r = resolve_retirement_profile(Some(stored));
    assert_eq!(r.withdrawal_rule.pct, Some(whole(2)));
    assert_eq!(r.withdrawal_rule.pct_source, Some(PctSource::Explicit));

    stored.withdrawal_rule = WithdrawalRule { end_pct: Some(whole(2)), ..rule(WithdrawalRuleKind::Hybrid) };
    let r = resolve_retirement_profile(Some(stored));
    assert_eq!(r.withdrawal_rule.start_pct, Some(Dec::new(30, 1)));
    assert_eq!(r.withdrawal_rule.end_pct, Some(whole(2)));
    assert_eq!(r.withdrawal_rule.pct_source, Some(PctSource::Swr));

    stored.withdrawal_rule = WithdrawalRule::default();
    let r = resolve_retirement_profile(Some(stored));
    assert_eq!(r.withdrawal_rule.pct_source, None);
}

#[test]
fn re_resolving_re_inherits_the_swr_but_never_touches_an_explicit_pct() {
    let mut p = default_retirement_profile();
    p.withdrawal_rule = rule(WithdrawalRuleKind::PercentOfBalance);
    let resolved = resolve_retirement_profile(Some(p));
    assert_eq!(resolved.withdrawal_rule.pct, Some(Dec::new(35, 1)));

    let mut moved = resolved;
    moved.swr_pct = whole(2);
    let again = resolve_retirement_profile(Some(moved));
    assert_eq!(again.withdrawal_rule.pct, Some(whole(2)));
    assert_eq!(again.withdrawal_rule.pct_source, Some(PctSource::Swr));

    let mut explicit = resolved;
    explicit.withdrawal_rule.pct = Some(whole(1));
    explicit.withdrawal_rule.pct_source = Some(PctSource::Explicit);
    explicit.swr_pct = whole(2);
    let again = resolve_retirement_profile(Some(explicit));
    assert_eq!(again.withdrawal_rule.pct, Some(whole(1)));
    assert_eq!(again.withdrawal_rule.pct_source, Some(PctSource::Explicit));
}

#[test]
fn resolving_twice_changes_nothing() {
    let mut p = default_retirement_profile();
    p.swr_pct = whole(9);
    p.horizon_lifespan_age = 40;
    p.withdrawal_rule = rule(WithdrawalRuleKind::Guardrails);
    p.pension = Some(PensionPlan { bridge_enabled: true, ..pension(900, 66) });
    let once = resolve_retirement_profile(Some(p));
    assert_eq!(resolve_retirement_profile(Some(once)), once);
}

// ---------------------------------------------------------------------------------------------
// Validation on write
// ---------------------------------------------------------------------------------------------

#[test]
fn only_the_age_driven_plans_require_the_retirement_age() {
    assert!(requires_target_age(RetirementStrategy::RetireAtAge, CoastMode::FixedRetirementAge));
    assert!(requires_target_age(RetirementStrategy::RetireAtAge, CoastMode::FixedStopAge));
    assert!(requires_target_age(RetirementStrategy::Coast, CoastMode::FixedRetirementAge));
    assert!(!requires_target_age(RetirementStrategy::Coast, CoastMode::FixedStopAge));
    for s in [RetirementStrategy::Asap, RetirementStrategy::Partial] {
        assert!(!requires_target_age(s, CoastMode::FixedRetirementAge));
        assert!(!requires_target_age(s, CoastMode::FixedStopAge));
    }
}

#[test]
fn strategies_by_age_require_the_age() {
    for s in [RetirementStrategy::RetireAtAge, RetirementStrategy::Coast] {
        let mut p = default_retirement_profile();
        p.strategy = s;
        assert_eq!(code_of(validate_retirement_profile(&p)), "target_retirement_age_required");
    }
    let mut p = default_retirement_profile();
    p.strategy = RetirementStrategy::Coast;
    p.coast_mode = CoastMode::FixedStopAge;
    assert_eq!(code_of(validate_retirement_profile(&p)), "coast_stop_age_required");
    p.coast_stop_age = Some(50);
    validate_retirement_profile(&p).expect("coast B with a stop age and no retirement age");
}

#[test]
fn a_bridge_pct_at_or_below_the_swr_is_rejected() {
    let mut p = default_retirement_profile();
    p.swr_pct = whole(4);
    for pct in [whole(3), whole(4)] {
        p.pension = Some(PensionPlan { bridge_enabled: true, bridge_max_pct: Some(pct), ..pension(1000, 65) });
        let err = validate_retirement_profile(&p).expect_err("a bridge rate <= swr must fail");
        assert_eq!(err.code(), "bridge_max_pct_not_above_swr");
        assert_eq!(err, ProfileError::BridgeMaxPctNotAboveSwr { swr: whole(4) }, "it names the SWR");
    }
    p.pension = Some(PensionPlan { bridge_enabled: true, bridge_max_pct: Some(whole(5)), ..pension(1000, 65) });
    validate_retirement_profile(&p).expect("above the SWR is accepted");

    p.pension = Some(PensionPlan { bridge_enabled: true, bridge_max_pct: Some(whole(25)), ..pension(1000, 65) });
    assert_eq!(code_of(validate_retirement_profile(&p)), "bridge_max_pct_out_of_range");
    p.pension = Some(PensionPlan {
        bridge_enabled: true,
        bridge_max_pct: Some(whole(5)),
        bridge_max_years: Some(50),
        ..pension(1000, 65)
    });
    assert_eq!(code_of(validate_retirement_profile(&p)), "bridge_max_years_out_of_range");
}

#[test]
fn the_success_threshold_is_bounded_on_write() {
    let mut p = default_retirement_profile();
    for bad in [0u32, 79, 101, 1_000] {
        p.success_threshold_pct = bad;
        assert_eq!(code_of(validate_retirement_profile(&p)), "success_threshold_out_of_range");
    }
    for ok in [MIN_SUCCESS_THRESHOLD_PCT, 95, MAX_SUCCESS_THRESHOLD_PCT] {
        p.success_threshold_pct = ok;
        validate_retirement_profile(&p).expect("in range");
    }
}

#[test]
fn each_withdrawal_kind_demands_its_own_fields() {
    let mut p = default_retirement_profile();
    p.withdrawal_rule = rule(WithdrawalRuleKind::PercentOfBalance);
    validate_retirement_profile(&p).expect("percent without pct inherits the SWR");
    p.withdrawal_rule.pct = Some(whole(4));
    validate_retirement_profile(&p).expect("percent with pct");

    p.withdrawal_rule = WithdrawalRule {
        start_pct: Some(whole(3)),
        end_pct: Some(whole(5)),
        ..rule(WithdrawalRuleKind::Hybrid)
    };
    let err = validate_retirement_profile(&p).expect_err("end >= start");
    assert_eq!(err.code(), "hybrid_end_pct_not_below_start");
    assert_eq!(err, ProfileError::HybridEndPctNotBelowStart { start: whole(3) }, "it names the start");
    p.withdrawal_rule.end_pct = Some(whole(2));
    validate_retirement_profile(&p).expect("a coherent hybrid");

    p.withdrawal_rule = WithdrawalRule {
        pct: Some(whole(4)),
        band_pct: Some(whole(20)),
        ..rule(WithdrawalRuleKind::Guardrails)
    };
    assert!(validate_retirement_profile(&p).is_err(), "guardrails without adjust");
    p.withdrawal_rule.adjust_pct = Some(whole(10));
    validate_retirement_profile(&p).expect("complete guardrails");

    p.withdrawal_rule = rule(WithdrawalRuleKind::Hybrid);
    let err = validate_retirement_profile(&p).expect_err("hybrid without end_pct");
    assert_eq!(err, ProfileError::WithdrawalPctRequired { label: PctLabel::EndPct });
    assert_eq!(err.code(), "withdrawal_pct_required");
}

#[test]
fn the_partial_start_age_is_required_only_in_at_age_mode() {
    let mut p = default_retirement_profile();
    p.strategy = RetirementStrategy::Partial;
    p.partial_retirement = Some(PartialRetirement {
        starts_at_age: None,
        income_monthly_today: whole(900),
        expense_basis: PartialExpenseBasis::Retirement,
        mode: PartialStartMode::AtAge,
    });
    assert_eq!(code_of(validate_retirement_profile(&p)), "partial_start_age_required");
    p.partial_retirement.as_mut().unwrap().mode = PartialStartMode::AsSoonAsPossible;
    validate_retirement_profile(&p).expect("mode B without an age");
}

#[test]
fn the_partial_phase_must_start_before_the_full_retirement() {
    let mut p = default_retirement_profile();
    p.strategy = RetirementStrategy::Partial;
    p.target_retirement_age = Some(60);
    p.partial_retirement = Some(PartialRetirement {
        starts_at_age: Some(60),
        income_monthly_today: whole(1000),
        expense_basis: PartialExpenseBasis::Retirement,
        mode: PartialStartMode::AtAge,
    });
    assert_eq!(code_of(validate_retirement_profile(&p)), "partial_not_before_retirement");
    p.partial_retirement.as_mut().unwrap().starts_at_age = Some(55);
    validate_retirement_profile(&p).expect("partial before the full retirement");
}

#[test]
fn the_first_broken_rule_is_the_one_reported() {
    let mut p = default_retirement_profile();
    p.swr_pct = whole(7);
    p.success_threshold_pct = 10;
    assert_eq!(code_of(validate_retirement_profile(&p)), "swr_out_of_range");
    p.swr_pct = Dec::from_i64(-1);
    assert_eq!(code_of(validate_retirement_profile(&p)), "swr_out_of_range");
    p.swr_pct = whole(4);
    p.fire_number_mode = FireNumberMode::Manual;
    assert_eq!(code_of(validate_retirement_profile(&p)), "fire_manual_amount_required");
    p.fire_number_manual_amount = Some(Dec::zero());
    assert_eq!(code_of(validate_retirement_profile(&p)), "fire_manual_amount_not_positive");
    p.fire_number_manual_amount = Some(whole(40_000));
    assert_eq!(code_of(validate_retirement_profile(&p)), "success_threshold_out_of_range");
    p.success_threshold_pct = 95;
    p.horizon_lifespan_age = 84;
    assert_eq!(code_of(validate_retirement_profile(&p)), "horizon_lifespan_age_out_of_range");
    p.horizon_lifespan_age = 90;
    validate_retirement_profile(&p).expect("valid");
    p.strategy = RetirementStrategy::Partial;
    assert_eq!(code_of(validate_retirement_profile(&p)), "partial_retirement_required");
}

// ---------------------------------------------------------------------------------------------
// The patch
// ---------------------------------------------------------------------------------------------

#[test]
fn the_patch_only_touches_what_it_names() {
    let base = RetirementProfile {
        swr_pct: Dec::new(30, 1),
        pension: Some(pension(1100, 67)),
        ..default_retirement_profile()
    };
    let patch = RetirementProfilePatch { swr_pct: Some(Dec::new(35, 1)), ..RetirementProfilePatch::default() };
    let after = patch.apply_to(&base);
    assert_eq!(after.swr_pct, Dec::new(35, 1));
    assert_eq!(after.pension, base.pension, "the pension is not reset");
    assert_eq!(after.success_threshold_pct, base.success_threshold_pct);

    let clear = RetirementProfilePatch { pension: Some(None), ..RetirementProfilePatch::default() };
    assert_eq!(clear.apply_to(&base).pension, None);
    assert!(RetirementProfilePatch::default().is_empty());
    assert!(!clear.is_empty());

    let threshold = RetirementProfilePatch { success_threshold_pct: Some(90), ..RetirementProfilePatch::default() };
    assert!(!threshold.is_empty());
    assert_eq!(threshold.apply_to(&base).success_threshold_pct, 90);

    let base_coast = RetirementProfile { coast_stop_age: Some(50), ..default_retirement_profile() };
    assert_eq!(
        RetirementProfilePatch { coast_mode: Some(CoastMode::FixedStopAge), ..RetirementProfilePatch::default() }
            .apply_to(&base_coast)
            .coast_stop_age,
        Some(50),
        "leaving it out does not touch it"
    );
    assert_eq!(
        RetirementProfilePatch { coast_stop_age: Some(None), ..RetirementProfilePatch::default() }
            .apply_to(&base_coast)
            .coast_stop_age,
        None,
        "null clears"
    );
}

#[test]
fn an_empty_patch_is_refused_unless_the_birth_date_moves() {
    let empty = RetirementProfilePatch::default();
    assert_eq!(patch_retirement_profile_core(None, &empty, false).unwrap_err(), ProfileError::PatchEmpty);
    let outcome = patch_retirement_profile_core(None, &empty, true).expect("birth date only");
    assert_eq!(outcome.before, outcome.after);
    assert_eq!(outcome.after_stored, default_retirement_profile());
}

#[test]
fn the_patch_merges_onto_the_stored_profile_and_validates_unclamped() {
    let stored = RetirementProfile { horizon_lifespan_age: 200, ..default_retirement_profile() };
    let patch = RetirementProfilePatch { swr_pct: Some(whole(4)), ..RetirementProfilePatch::default() };
    let err = patch_retirement_profile_core(Some(stored), &patch, false).unwrap_err();
    assert_eq!(err.code(), "horizon_lifespan_age_out_of_range");

    let stored = RetirementProfile { horizon_lifespan_age: 95, ..default_retirement_profile() };
    let outcome = patch_retirement_profile_core(Some(stored), &patch, false).expect("valid");
    assert_eq!(outcome.before.swr_pct, Dec::new(35, 1));
    assert_eq!(outcome.after.swr_pct, whole(4));
    assert_eq!(outcome.after_stored.horizon_lifespan_age, 95);
}

fn body() -> PatchRetirementProfileBody {
    PatchRetirementProfileBody {
        strategy: None,
        target_retirement_age: None,
        fire_number_mode: None,
        fire_number_manual_amount: None,
        swr_pct: None,
        horizon_lifespan_age: None,
        success_threshold_pct: None,
        coast_mode: None,
        coast_stop_age: None,
        withdrawal_rule: None,
        pension: None,
        partial_retirement: None,
    }
}

#[test]
fn the_body_decimals_are_parsed_or_refused_by_name() {
    let mut b = body();
    b.swr_pct = Some(" 3.25 ".to_string());
    b.fire_number_manual_amount = Some(None);
    let patch = b.to_patch().expect("parses");
    assert_eq!(patch.swr_pct, Some(Dec::new(325, 2)));
    assert_eq!(patch.fire_number_manual_amount, Some(None));
    assert!(body().to_patch().unwrap().is_empty());

    b.swr_pct = Some("tres".to_string());
    let err = b.to_patch().unwrap_err();
    assert_eq!(err, ProfileError::DecimalInvalid { label: "swr_pct".to_string() });
    b.fire_number_manual_amount = Some(Some("x".to_string()));
    let err = b.to_patch().unwrap_err();
    assert_eq!(err, ProfileError::DecimalInvalid { label: "fire_number_manual_amount".to_string() });

    assert_eq!(parse_profile_decimal("swr_pct", "4").unwrap(), whole(4));
    assert_eq!(parse_profile_decimal("swr_pct", "").unwrap_err().code(), "decimal_invalid");
}
