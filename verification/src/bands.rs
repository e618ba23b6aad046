//! The request rules of the Monte Carlo bands surface: the seed travels as text, the number of
//! paths is refused (never clamped) outside its surface's ceiling, the success figures are absent
//! for a stated reason, and the failure table is laid on the published grid.
use crate::calendar::{add_months_ymd, completed_years, jubilacion_civil, ymd};
use crate::date::Date;
use crate::decimal::Dec;
use crate::series::{density_month_indices, engine_month_to_grid, month_indices, Density, RequestError};
use crate::text::{
    decimal_text, is_white_space, law_decimal_text_round_trip, parse_u64, str_trim, trimmed,
    u64_text_value,
};
use vstd::prelude::*;

verus! {

/// Paths drawn by default on the bands surface (the plan's confirmation budget).
pub const DEFAULT_BANDS_PATHS: u32 = 2500;

/// Ceiling of paths over HTTP.
pub const HTTP_MAX_PATHS: u32 = 5000;

/// Ceiling of paths over the tool surface (half of HTTP).
pub const MCP_MAX_PATHS: u32 = 2500;

pub const VERDICT_GREEN: &'static str = "green";

pub const VERDICT_AMBER: &'static str = "amber";

pub const VERDICT_RED: &'static str = "red";

/// Decimal places of the band amounts and of the sampling error (percentage points).
pub const BANDS_VALUE_DP: u32 = 2;

pub const SAMPLING_ERROR_DP: u32 = 1;

/// The date basis of a plan with no month that meets the threshold.
pub const DATE_BASIS_NOT_REACHABLE: &'static str = "not_reachable";

/// The query of the bands endpoint.
#[derive(Clone, Debug)]
pub struct ProjectionBandsQuery {
    /// `mine` (the default) or `household` (refused).
    pub view: Option<String>,
    /// Paths to draw (1 to 5000; default 2500); outside the range it is refused.
    pub paths: Option<u32>,
    /// A 64-bit seed written in decimal digits.
    pub seed: Option<String>,
}

/// The seed a text parameter holds: none when absent or blank, refused when it is not an
/// unsigned 64-bit integer in decimal digits.
pub open spec fn seed_of_text(raw: Option<Seq<char>>) -> Result<Option<u64>, RequestError> {
    match raw {
        None => Ok(None),
        Some(s) => {
            let t = trimmed(s);
            if t.len() == 0 {
                Ok(None)
            } else {
                match u64_text_value(t) {
                    Some(v) => Ok(Some(v)),
                    None => Err(RequestError::InvalidSeed),
                }
            }
        },
    }
}

/// Parses the seed of a text parameter. A malformed seed is refused rather than falling back to
/// the stable one: a silent fallback would be indistinguishable from success.
pub fn parse_seed(raw: Option<&str>) -> (r: Result<Option<u64>, RequestError>)
    ensures
        r == seed_of_text(
            match raw {
                Some(s) => Some(s@),
                None => None,
            },
        ),
{
    match raw {
        None => Ok(None),
        Some(s) => {
            let t = str_trim(s);
            if t.is_empty() {
                return Ok(None);
            }
            match parse_u64(t) {
                Some(v) => Ok(Some(v)),
                None => Err(RequestError::InvalidSeed),
            }
        },
    }
}

/// Law: a 64-bit seed survives the trip through its text exactly: its decimal digits, with any
/// whitespace around them, are read back as the same seed (never as "no seed").
pub proof fn law_seed_survives_its_text(n: u64, before: Seq<char>, after: Seq<char>)
    requires
        forall|i: int| 0 <= i < before.len() ==> is_white_space(#[trigger] before[i]),
        forall|i: int| 0 <= i < after.len() ==> is_white_space(#[trigger] after[i]),
    ensures
        seed_of_text(Some(before + decimal_text(n as nat) + after)) == Ok::<Option<u64>, RequestError>(
            Some(n),
        ),
{
    law_decimal_text_round_trip(n, before, after);
    crate::text::lemma_decimal_text(n as nat);
}

/// Validates `paths` against the surface's ceiling: the default is 2500, and anything outside
/// `[1, max]` is refused, never clamped.
pub fn resolve_paths(paths: Option<u32>, max: u32) -> (r: Result<u32, RequestError>)
    ensures
        ({
            let p = match paths {
                Some(p) => p,
                None => DEFAULT_BANDS_PATHS,
            };
            if 1 <= p <= max {
                r == Ok::<u32, RequestError>(p)
            } else {
                r == Err::<u32, RequestError>(RequestError::PathsOutOfRange { max })
            }
        }),
{
    let p = match paths {
        Some(p) => p,
        None => DEFAULT_BANDS_PATHS,
    };
    if p < 1 || p > max {
        return Err(RequestError::PathsOutOfRange { max });
    }
    Ok(p)
}

/// Why the success figures of the bands are absent: the plan's own reason first (the question
/// was never asked), then `not_reachable` when the plan has no month (asked, no answer); present
/// figures otherwise.
pub fn success_absent_reason(plan_absent_reason: Option<&'static str>, forced_month: Option<u32>) -> (r: Option<&'static str>)
    ensures
        r == (match (plan_absent_reason, forced_month) {
            (Some(reason), _) => Some(reason),
            (None, None) => Some(DATE_BASIS_NOT_REACHABLE),
            (None, Some(_)) => None,
        }),
{
    match (plan_absent_reason, forced_month) {
        (Some(reason), _) => Some(reason),
        (None, None) => Some(DATE_BASIS_NOT_REACHABLE),
        (None, Some(_)) => None,
    }
}

/// The bands exist for the requester's own view only: the household view is refused.
pub fn bands_view_allowed(household: bool) -> (r: Result<(), RequestError>)
    ensures
        household ==> r == Err::<(), RequestError>(RequestError::HouseholdBandsUnavailable),
        !household ==> r is Ok,
{
    if household {
        Err(RequestError::HouseholdBandsUnavailable)
    } else {
        Ok(())
    }
}

/// Where the plan the bands draw comes from, cheapest first.
#[derive(Clone, Copy, Debug, PartialEq, Eq, Structural)]
pub enum BandsScenarioSource {
    /// The plan the assembly already carries.
    Assembled,
    /// The plan the level-1 cache holds for the same solve.
    Cached,
    /// Solved here with the user's stable seed (and then cached).
    Solve,
    /// No plan to solve: the input is drawn as it is.
    Unplanned,
}

/// The source of the drawn scenario: the assembled plan, else the cached one, else a solve when
/// there is a plan to solve, else the raw input.
pub open spec fn bands_source_of(assembled: bool, cached: bool, has_plan: bool) -> BandsScenarioSource {
    if assembled {
        BandsScenarioSource::Assembled
    } else if cached {
        BandsScenarioSource::Cached
    } else if has_plan {
        BandsScenarioSource::Solve
    } else {
        BandsScenarioSource::Unplanned
    }
}

/// Picks the source of the drawn scenario; only a plan solved here is stored in the level-1
/// cache afterwards (the second component).
pub fn bands_scenario_source(assembled: bool, cached: bool, has_plan: bool) -> (r: (
    BandsScenarioSource,
    bool,
))
    ensures
        r.0 == bands_source_of(assembled, cached, has_plan),
        r.1 <==> r.0 == BandsScenarioSource::Solve,
        // The assembled plan wins, then the cached one; a solve only without either, and only
        // when there is a plan to solve.
        assembled ==> r.0 == BandsScenarioSource::Assembled,
        !assembled && cached ==> r.0 == BandsScenarioSource::Cached,
        r.0 == BandsScenarioSource::Solve <==> !assembled && !cached && has_plan,
        r.0 == BandsScenarioSource::Unplanned <==> !assembled && !cached && !has_plan,
{
    if assembled {
        (BandsScenarioSource::Assembled, false)
    } else if cached {
        (BandsScenarioSource::Cached, false)
    } else if has_plan {
        (BandsScenarioSource::Solve, true)
    } else {
        (BandsScenarioSource::Unplanned, false)
    }
}

/// The grid month of an engine month (loop month `k` is grid month `k - 1`).
pub open spec fn grid_of(k: u32) -> int {
    if k > 0 {
        k - 1
    } else {
        0
    }
}

/// A point of the band fan: its grid month and the percentiles of the net worth and of the
/// liquid worth.
#[derive(Clone, Copy, Debug)]
pub struct ProjectionBandPoint {
    pub month_index: u32,
    pub net_worth_p10: Dec,
    pub net_worth_p50: Dec,
    pub net_worth_p90: Dec,
    pub net_worth_liquid_p10: Option<Dec>,
    pub net_worth_liquid_p50: Option<Dec>,
    pub net_worth_liquid_p90: Option<Dec>,
}

/// A row of the "when does the plan break" table: grid month, completed age on that month's
/// civil date, cumulative failure probability, and the split by failure kind of the whole run.
#[derive(Clone, Copy, Debug)]
pub struct FailureProbabilityPoint {
    pub month_index: u32,
    pub age: Option<u32>,
    pub probability: Option<Dec>,
    pub by_kind: [u32; 3],
}

/// The failure table on the published grid: each row's engine month becomes its grid month,
/// with the completed age on that month's civil date when the birth date is known, its
/// probability as given, and the same split by kind on every row.
pub fn failure_points(
    cumulative: &Vec<(u32, Option<Dec>)>,
    by_kind: [u32; 3],
    today: Date,
    birth_date: Option<Date>,
) -> (r: Vec<FailureProbabilityPoint>)
    ensures
        r@.len() == cumulative@.len(),
        forall|i: int|
            0 <= i < r@.len() ==> {
                let (k, p) = cumulative@[i];
                &&& (#[trigger] r@[i]).month_index == grid_of(k)
                &&& r@[i].probability == p
                &&& r@[i].by_kind == by_kind
                &&& match birth_date {
                    Some(b) => r@[i].age == Some(
                        completed_years(add_months_ymd(today, grid_of(k)), ymd(b)) as u32,
                    ),
                    None => r@[i].age is None,
                }
            },
{
    let mut out: Vec<FailureProbabilityPoint> = Vec::new();
    let mut i: usize = 0;
    while i < cumulative.len()
        invariant
            0 <= i <= cumulative@.len(),
            out@.len() == i,
            forall|j: int|
                0 <= j < i ==> {
                    let (k, p) = cumulative@[j];
                    &&& (#[trigger] out@[j]).month_index == grid_of(k)
                    &&& out@[j].probability == p
                    &&& out@[j].by_kind == by_kind
                    &&& match birth_date {
                        Some(b) => out@[j].age == Some(
                            completed_years(add_months_ymd(today, grid_of(k)), ymd(b)) as u32,
                        ),
                        None => out@[j].age is None,
                    }
                },
        decreases cumulative@.len() - i,
    {
        let (engine_month, p) = cumulative[i];
        let month_index = match engine_month_to_grid(Some(engine_month)) {
            Some(m) => m,
            None => 0,
        };
        let (_, age) = jubilacion_civil(today, birth_date, Some(month_index));
        out.push(FailureProbabilityPoint { month_index, age, probability: p, by_kind });
        i = i + 1;
    }
    out
}


/// A percentile of a band at a month, as published: rounded to two decimals, zero where the draw
/// gave nothing.
pub open spec fn band_value(band: Seq<Vec<Option<Dec>>>, p: int, i: int) -> Dec {
    if 0 <= p < band.len() && 0 <= i < band[p]@.len() && band[p]@[i] is Some {
        let v = band[p]@[i].unwrap();
        let q = crate::decimal::decimal_round_dp(v.mantissa(), v.scale(), BANDS_VALUE_DP as nat);
        Dec::of(q.0, q.1)
    } else {
        Dec::of(0, 0)
    }
}

/// Law: a published percentile reads its own percentile at its own month and nothing else: two
/// fans that agree there publish the same value, and a month the draw left empty (or past the
/// fan) publishes zero.
pub proof fn law_band_value_reads_its_own_cell(
    a: Seq<Vec<Option<Dec>>>,
    b: Seq<Vec<Option<Dec>>>,
    p: int,
    i: int,
)
    ensures
        0 <= p < a.len() && 0 <= p < b.len() && 0 <= i < a[p]@.len() && 0 <= i < b[p]@.len()
            && a[p]@[i] == b[p]@[i] ==> band_value(a, p, i) == band_value(b, p, i),
        !(0 <= p < a.len() && 0 <= i < a[p]@.len() && a[p]@[i] is Some) ==> band_value(a, p, i)
            == Dec::of(0, 0),
{
}

fn band_at(band: &Vec<Vec<Option<Dec>>>, p: usize, i: usize) -> (r: Dec)
    ensures
        r == band_value(band@, p as int, i as int),
{
    if p < band.len() && i < band[p].len() {
        match band[p][i] {
            Some(v) => {
                let q = crate::decimal::dec_round_dp(v, BANDS_VALUE_DP);
                q.bounds();
                proof {
                    crate::decimal::lemma_dec_of(q.mantissa(), q.scale());
                }
                q
            },
            None => Dec::zero(),
        }
    } else {
        Dec::zero()
    }
}

/// The number of months of the fan: the first percentile's length, or the horizon's months.
pub open spec fn fan_len(net_worth: Seq<Vec<Option<Dec>>>, months: int) -> int {
    if net_worth.len() > 0 {
        net_worth[0]@.len() as int
    } else {
        months + 1
    }
}

/// The percentile fan (p10, p50, p90 of the net worth and of the liquid worth) on the hybrid grid
/// the series also serves, each value rounded to two decimals.
pub fn band_points(
    net_worth: &Vec<Vec<Option<Dec>>>,
    liquid: &Vec<Vec<Option<Dec>>>,
    months: u32,
) -> (r: Vec<ProjectionBandPoint>)
    requires
        months < 1_000_000,
        net_worth@.len() > 0 ==> net_worth@[0]@.len() < 1_000_000,
    ensures
        r@.len() == month_indices(Density::Hybrid, fan_len(net_worth@, months as int)).len(),
        forall|j: int|
            0 <= j < r@.len() ==> {
                let i = month_indices(Density::Hybrid, fan_len(net_worth@, months as int))[j] as int;
                &&& (#[trigger] r@[j]).month_index == i
                &&& r@[j].net_worth_p10 == band_value(net_worth@, 0, i)
                &&& r@[j].net_worth_p50 == band_value(net_worth@, 1, i)
                &&& r@[j].net_worth_p90 == band_value(net_worth@, 2, i)
                &&& r@[j].net_worth_liquid_p10 == Some(band_value(liquid@, 0, i))
                &&& r@[j].net_worth_liquid_p50 == Some(band_value(liquid@, 1, i))
                &&& r@[j].net_worth_liquid_p90 == Some(band_value(liquid@, 2, i))
            },
{
    let len: u32 = if net_worth.len() > 0 {
        net_worth[0].len() as u32
    } else {
        months + 1
    };
    let kept = density_month_indices(Density::Hybrid, len);
    let mut out: Vec<ProjectionBandPoint> = Vec::new();
    let mut j: usize = 0;
    while j < kept.len()
        invariant
            0 <= j <= kept@.len(),
            kept@ == month_indices(Density::Hybrid, fan_len(net_worth@, months as int)),
            out@.len() == j,
            forall|k: int|
                0 <= k < j ==> {
                    let i = kept@[k] as int;
                    &&& (#[trigger] out@[k]).month_index == i
                    &&& out@[k].net_worth_p10 == band_value(net_worth@, 0, i)
                    &&& out@[k].net_worth_p50 == band_value(net_worth@, 1, i)
                    &&& out@[k].net_worth_p90 == band_value(net_worth@, 2, i)
                    &&& out@[k].net_worth_liquid_p10 == Some(band_value(liquid@, 0, i))
                    &&& out@[k].net_worth_liquid_p50 == Some(band_value(liquid@, 1, i))
                    &&& out@[k].net_worth_liquid_p90 == Some(band_value(liquid@, 2, i))
                },
        decreases kept@.len() - j,
    {
        let i = kept[j];
        let idx = i as usize;
        out.push(
            ProjectionBandPoint {
                month_index: i,
                net_worth_p10: band_at(net_worth, 0, idx),
                net_worth_p50: band_at(net_worth, 1, idx),
                net_worth_p90: band_at(net_worth, 2, idx),
                net_worth_liquid_p10: Some(band_at(liquid, 0, idx)),
                net_worth_liquid_p50: Some(band_at(liquid, 1, idx)),
                net_worth_liquid_p90: Some(band_at(liquid, 2, idx)),
            },
        );
        j = j + 1;
    }
    out
}

} // verus!

