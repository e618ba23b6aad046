//! The series response from the engine's monthly output: the published points on the density's
//! grid, the position of the retirement month among them, the household's aggregates, the phase
//! transitions, and the percentile fan of the bands on the same grid.
use crate::decimal::{abs, dec_max, dec_mul, dec_round_dp, one_unit, Dec};
use crate::deflate::{deflatable_by, deflator_at_month_index, lemma_deflated_fits, deflator_of, rate_in_range, MAX_DEFLATE_MONTH_INDEX};
use crate::plan::{money_of, money_out};
use crate::planning::product_of;
use crate::profile::max_dec;
use crate::calendar::{horizon_months_of, max_remaining_years, projection_horizon_months};
use crate::date::Date;
use crate::series::{
    density_month_indices, engine_month_to_grid, month_indices, series_at, validate_months_override,
    Density, PhaseTransition, RequestError, MAX_PROJECTION_MONTHS, MIN_PROJECTION_MONTHS,
};
use crate::text::{str_eq, str_trim, trimmed};
use vstd::prelude::*;

verus! {

/// A published point of the series (all amounts in nominal euros of its month but the real one).
#[derive(Clone, Copy, Debug)]
pub struct ProjectionPoint {
    pub month_index: u32,
    pub net_worth: Dec,
    pub contributed_capital: Dec,
    pub net_worth_liquid: Dec,
    /// The net worth in today's euros, deflated by the point's own month.
    pub net_worth_real: Dec,
    pub withdrawal: Dec,
    pub withdrawal_shortfall: Dec,
    pub withdrawal_excess: Dec,
    /// What the portfolio could not give, as money (its sign reads as a verdict).
    pub unmet_need: Dec,
}

/// The value of a series at `i`, zero beyond its end.
pub open spec fn at_or_zero(s: Seq<Dec>, i: int) -> Dec {
    if 0 <= i < s.len() {
        s[i]
    } else {
        Dec::of(0, 0)
    }
}

/// The monthly series a response is built from.
#[derive(Clone, Debug)]
pub struct MonthlySeries {
    pub net_worth: Vec<Dec>,
    pub contributed_capital: Vec<Dec>,
    pub liquid_worth: Vec<Dec>,
    pub withdrawal: Vec<Dec>,
    pub withdrawal_shortfall: Vec<Dec>,
    pub withdrawal_excess: Vec<Dec>,
    pub unmet_need: Vec<Dec>,
}

/// Does the point say what the series say at month `i`?
pub open spec fn point_of(p: ProjectionPoint, s: MonthlySeries, i: int, inflation: Dec) -> bool {
    &&& p.month_index == i
    &&& p.net_worth == s.net_worth@[i]
    &&& p.contributed_capital == at_or_zero(s.contributed_capital@, i)
    &&& p.net_worth_liquid == at_or_zero(s.liquid_worth@, i)
    &&& p.net_worth_real == product_of(s.net_worth@[i], deflator_of(inflation, i))
    &&& p.withdrawal == at_or_zero(s.withdrawal@, i)
    &&& p.withdrawal_shortfall == at_or_zero(s.withdrawal_shortfall@, i)
    &&& p.withdrawal_excess == at_or_zero(s.withdrawal_excess@, i)
    &&& p.unmet_need == money_of(at_or_zero(s.unmet_need@, i))
}

/// The kept months that the net-worth series reaches, in order.
pub open spec fn kept_within(kept: Seq<u32>, len: int) -> Seq<u32>
    decreases kept.len(),
{
    if kept.len() == 0 {
        Seq::empty()
    } else {
        let prev = kept_within(kept.drop_last(), len);
        if kept.last() < len {
            prev.push(kept.last())
        } else {
            prev
        }
    }
}

/// The published points: one per kept month that the net worth reaches, each read at its own
/// month (missing columns read as zero), the real net worth deflated by the point's month and
/// never by its position, and the unmet need at money scale.
pub fn projection_points(kept: &Vec<u32>, s: &MonthlySeries, inflation: Dec) -> (r: Vec<ProjectionPoint>)
    requires
        rate_in_range(inflation),
        forall|i: int| 0 <= i < kept@.len() ==> #[trigger] kept@[i] <= MAX_DEFLATE_MONTH_INDEX,
        forall|i: int| 0 <= i < s.net_worth@.len() ==> abs((#[trigger] s.net_worth@[i]).units()) <= deflatable_by(inflation),
    ensures
        r@.len() == kept_within(kept@, s.net_worth@.len() as int).len(),
        forall|j: int|
            0 <= j < r@.len() ==> point_of(
                #[trigger] r@[j],
                *s,
                kept_within(kept@, s.net_worth@.len() as int)[j] as int,
                inflation,
            ),
        // Each column of a point comes from the series of the same name, at the point's month.
        forall|j: int|
            #![trigger r@[j]]
            0 <= j < r@.len() ==> {
                let i = kept_within(kept@, s.net_worth@.len() as int)[j] as int;
                &&& r@[j].month_index == i
                &&& i < s.net_worth@.len()
                &&& r@[j].net_worth == s.net_worth@[i]
                &&& r@[j].contributed_capital == at_or_zero(s.contributed_capital@, i)
                &&& r@[j].net_worth_liquid == at_or_zero(s.liquid_worth@, i)
                &&& r@[j].withdrawal == at_or_zero(s.withdrawal@, i)
                &&& r@[j].withdrawal_shortfall == at_or_zero(s.withdrawal_shortfall@, i)
                &&& r@[j].withdrawal_excess == at_or_zero(s.withdrawal_excess@, i)
            },
{
    let mut out: Vec<ProjectionPoint> = Vec::new();
    let mut n: usize = 0;
    while n < kept.len()
        invariant
            0 <= n <= kept@.len(),
            rate_in_range(inflation),
            forall|i: int| 0 <= i < kept@.len() ==> #[trigger] kept@[i] <= MAX_DEFLATE_MONTH_INDEX,
            forall|i: int| 0 <= i < s.net_worth@.len() ==> abs((#[trigger] s.net_worth@[i]).units()) <= deflatable_by(inflation),
            out@.len() == kept_within(kept@.take(n as int), s.net_worth@.len() as int).len(),
            forall|j: int|
                0 <= j < out@.len() ==> point_of(
                    #[trigger] out@[j],
                    *s,
                    kept_within(kept@.take(n as int), s.net_worth@.len() as int)[j] as int,
                    inflation,
                ),
        decreases kept@.len() - n,
    {
        assert(kept@.take(n + 1).drop_last() =~= kept@.take(n as int));
        let i = kept[n];
        assert(kept@.take(n + 1).last() == i);
        let idx = i as usize;
        if idx < s.net_worth.len() {
            let nw = s.net_worth[idx];
            let d = deflator_at_month_index(inflation, i);
            proof {
                lemma_deflated_fits(nw, inflation, d);
            }
            let deflated = dec_mul(nw, d);
            deflated.bounds();
            proof {
                crate::decimal::lemma_dec_of(deflated.mantissa(), deflated.scale());
            }
            let p = ProjectionPoint {
                month_index: i,
                net_worth: nw,
                contributed_capital: series_at(&s.contributed_capital, idx),
                net_worth_liquid: series_at(&s.liquid_worth, idx),
                net_worth_real: deflated,
                withdrawal: series_at(&s.withdrawal, idx),
                withdrawal_shortfall: series_at(&s.withdrawal_shortfall, idx),
                withdrawal_excess: series_at(&s.withdrawal_excess, idx),
                unmet_need: money_out(series_at(&s.unmet_need, idx)),
            };
            let ghost before = out@;
            out.push(p);
            proof {
                let k_new = kept_within(kept@.take(n + 1), s.net_worth@.len() as int);
                let k_old = kept_within(kept@.take(n as int), s.net_worth@.len() as int);
                assert(k_new == k_old.push(i));
                assert forall|j: int| 0 <= j < out@.len() implies point_of(
                    #[trigger] out@[j],
                    *s,
                    k_new[j] as int,
                    inflation,
                ) by {
                    if j < before.len() {
                        assert(out@[j] == before[j]);
                        assert(k_new[j] == k_old[j]);
                    }
                }
            }
        } else {
            assert(kept_within(kept@.take(n + 1), s.net_worth@.len() as int) == kept_within(
                kept@.take(n as int),
                s.net_worth@.len() as int,
            ));
        }
        n = n + 1;
    }
    assert(kept@.take(kept@.len() as int) =~= kept@);
    proof {
        assert forall|j: int| 0 <= j < out@.len() implies kept_within(
            kept@,
            s.net_worth@.len() as int,
        )[j] < s.net_worth@.len() by {
            lemma_kept_within_reached(kept@, s.net_worth@.len() as int, j);
        }
    }
    out
}

/// Every month kept by `kept_within` is one the series reaches.
proof fn lemma_kept_within_reached(kept: Seq<u32>, len: int, j: int)
    requires
        0 <= j < kept_within(kept, len).len(),
    ensures
        kept_within(kept, len)[j] < len,
    decreases kept.len(),
{
    if kept.len() > 0 {
        let prev = kept_within(kept.drop_last(), len);
        if j < prev.len() {
            lemma_kept_within_reached(kept.drop_last(), len, j);
        }
    }
}

/// Law: a point read at month `i` takes each column from the series of the same name at `i`
/// (zero past that series' end), the net worth from the net-worth series, and its month is `i`.
pub proof fn law_point_reads_its_own_month(
    p: ProjectionPoint,
    s: MonthlySeries,
    i: int,
    inflation: Dec,
)
    requires
        point_of(p, s, i, inflation),
    ensures
        p.month_index == i,
        p.net_worth == s.net_worth@[i],
        0 <= i < s.withdrawal_shortfall@.len() ==> p.withdrawal_shortfall
            == s.withdrawal_shortfall@[i],
        !(0 <= i < s.withdrawal_shortfall@.len()) ==> p.withdrawal_shortfall == Dec::of(0, 0),
        0 <= i < s.withdrawal_excess@.len() ==> p.withdrawal_excess == s.withdrawal_excess@[i],
        !(0 <= i < s.withdrawal_excess@.len()) ==> p.withdrawal_excess == Dec::of(0, 0),
        0 <= i < s.withdrawal@.len() ==> p.withdrawal == s.withdrawal@[i],
        !(0 <= i < s.withdrawal@.len()) ==> p.withdrawal == Dec::of(0, 0),
        0 <= i < s.contributed_capital@.len() ==> p.contributed_capital
            == s.contributed_capital@[i],
        !(0 <= i < s.contributed_capital@.len()) ==> p.contributed_capital == Dec::of(0, 0),
        0 <= i < s.liquid_worth@.len() ==> p.net_worth_liquid == s.liquid_worth@[i],
        !(0 <= i < s.liquid_worth@.len()) ==> p.net_worth_liquid == Dec::of(0, 0),
        0 <= i < s.unmet_need@.len() ==> p.unmet_need == money_of(s.unmet_need@[i]),
        !(0 <= i < s.unmet_need@.len()) ==> p.unmet_need == money_of(Dec::of(0, 0)),
{
}

/// The last position among the first `n` points whose month is at most `k`.
pub open spec fn last_point_at_or_before(points: Seq<ProjectionPoint>, k: int, n: int) -> Option<int>
    decreases n,
{
    if n <= 0 {
        None
    } else if points[n - 1].month_index <= k {
        Some(n - 1)
    } else {
        last_point_at_or_before(points, k, n - 1)
    }
}

/// Law: the position found is the last point whose month does not pass `k`: its month is at
/// most `k` and every point after it (among the first `n`) is past `k`; with none found, every
/// point is past `k`.
pub proof fn law_position_is_the_last_not_past(points: Seq<ProjectionPoint>, k: int, n: int)
    requires
        0 <= n <= points.len(),
    ensures
        last_point_at_or_before(points, k, n) matches Some(p) ==> 0 <= p < n && points[p].month_index
            <= k && forall|j: int| p < j < n ==> (#[trigger] points[j]).month_index > k,
        last_point_at_or_before(points, k, n) is None ==> forall|j: int|
            0 <= j < n ==> (#[trigger] points[j]).month_index > k,
    decreases n,
{
    if n > 0 && points[n - 1].month_index > k {
        law_position_is_the_last_not_past(points, k, n - 1);
    }
}

/// The position of a grid month among the published points: the last point whose month does not
/// pass it (with the hybrid density the month itself may not be published).
pub fn series_position(points: &Vec<ProjectionPoint>, month: Option<u32>) -> (r: Option<u32>)
    requires
        points@.len() <= u32::MAX,
    ensures
        month is None ==> r is None,
        month matches Some(k) ==> match last_point_at_or_before(points@, k as int, points@.len() as int) {
            Some(p) => r == Some(p as u32),
            None => r is None,
        },
{
    let k = match month {
        None => {
            return None;
        },
        Some(k) => k,
    };
    let mut n: usize = points.len();
    while n > 0
        invariant
            0 <= n <= points@.len() <= u32::MAX,
            month == Some(k),
            last_point_at_or_before(points@, k as int, points@.len() as int)
                == last_point_at_or_before(points@, k as int, n as int),
        decreases n,
    {
        if points[n - 1].month_index <= k {
            assert(last_point_at_or_before(points@, k as int, n as int) == Some(n - 1));
            return Some((n - 1) as u32);
        }
        n = n - 1;
    }
    None
}

/// The household runs out of portfolio when the first member does: the least grid month among
/// the members' depletion months (each taken from the loop to the grid first).
pub open spec fn first_depletion(months: Seq<Option<u32>>) -> Option<u32>
    decreases months.len(),
{
    if months.len() == 0 {
        None
    } else {
        let prev = first_depletion(months.drop_last());
        match months.last() {
            None => prev,
            Some(k) => {
                let g = if k > 0 {
                    (k - 1) as u32
                } else {
                    0u32
                };
                match prev {
                    None => Some(g),
                    Some(a) => Some(if g < a {
                        g
                    } else {
                        a
                    }),
                }
            },
        }
    }
}

/// The grid month of a loop month (loop month `k` is grid month `k - 1`; month 0 stays 0).
pub open spec fn depletion_grid(k: u32) -> int {
    if k > 0 {
        k - 1
    } else {
        0
    }
}

/// Law: the household runs out of portfolio when the first of its members does (the least month,
/// never a sum): there is no month exactly when no member depletes; no member depletes before
/// it; and it is one member's own month, on the grid.
pub proof fn law_household_depletes_with_its_first_member(months: Seq<Option<u32>>)
    ensures
        first_depletion(months) is None <==> (forall|i: int|
            0 <= i < months.len() ==> #[trigger] months[i] is None),
        forall|i: int|
            0 <= i < months.len() && #[trigger] months[i] is Some ==> (first_depletion(months) matches Some(
                g,
            ) && g <= depletion_grid(months[i].unwrap())),
        first_depletion(months) is Some ==> exists|i: int|
            0 <= i < months.len() && #[trigger] months[i] is Some && first_depletion(months).unwrap()
                == depletion_grid(months[i].unwrap()),
    decreases months.len(),
{
    if months.len() > 0 {
        let init = months.drop_last();
        let n = months.len() - 1;
        law_household_depletes_with_its_first_member(init);
        assert forall|i: int| 0 <= i < n implies months[i] == #[trigger] init[i] by {}
        let prev = first_depletion(init);
        match months.last() {
            None => {
                assert(months[n] is None);
                if prev is Some {
                    let w = choose|i: int|
                        0 <= i < init.len() && #[trigger] init[i] is Some && prev.unwrap()
                            == depletion_grid(init[i].unwrap());
                    assert(months[w] == init[w]);
                }
                assert forall|i: int| 0 <= i < months.len() && #[trigger] months[i] is Some implies (
                first_depletion(months) matches Some(g) && g <= depletion_grid(months[i].unwrap())) by {
                    assert(i < n);
                    assert(init[i] is Some);
                }
                if first_depletion(months) is None {
                    assert forall|i: int| 0 <= i < months.len() implies #[trigger] months[i] is None by {
                        if i < n {
                            assert(init[i] is None);
                        }
                    }
                }
            },
            Some(k) => {
                assert(months[n] == Some(k));
                assert(first_depletion(months) is Some);
                if prev is Some {
                    let w = choose|i: int|
                        0 <= i < init.len() && #[trigger] init[i] is Some && prev.unwrap()
                            == depletion_grid(init[i].unwrap());
                    assert(months[w] == init[w]);
                }
                assert forall|i: int| 0 <= i < months.len() && #[trigger] months[i] is Some implies (
                first_depletion(months) matches Some(g) && g <= depletion_grid(months[i].unwrap())) by {
                    if i < n {
                        assert(init[i] is Some);
                    }
                }
            },
        }
    }
}

/// The household's depletion month from the members' (loop) depletion months.
pub fn household_depletion_month(months: &Vec<Option<u32>>) -> (r: Option<u32>)
    ensures
        r == first_depletion(months@),
{
    let mut acc: Option<u32> = None;
    let mut i: usize = 0;
    while i < months.len()
        invariant
            0 <= i <= months@.len(),
            acc == first_depletion(months@.take(i as int)),
        decreases months@.len() - i,
    {
        assert(months@.take(i + 1).drop_last() =~= months@.take(i as int));
        if let Some(k) = engine_month_to_grid(months[i]) {
            acc = Some(
                match acc {
                    None => k,
                    Some(a) => if k < a {
                        k
                    } else {
                        a
                    },
                },
            );
        }
        i = i + 1;
    }
    assert(months@.take(months@.len() as int) =~= months@);
    acc
}

/// The largest of the members' horizons, or `fallback` when there is no member.
pub open spec fn longest_horizon(horizons: Seq<u32>, fallback: u32) -> u32
    decreases horizons.len(),
{
    if horizons.len() == 0 {
        fallback
    } else if horizons.len() == 1 {
        horizons[0]
    } else {
        let prev = longest_horizon(horizons.drop_last(), fallback);
        if prev < horizons.last() {
            horizons.last()
        } else {
            prev
        }
    }
}

/// Law: the household's common horizon is the longest of its members' own horizons: no member's
/// is longer, and it is one of them (the context's horizon only when there is no member). Cutting
/// at a shorter one would retire the others early.
pub proof fn law_household_horizon_is_the_longest(horizons: Seq<u32>, fallback: u32)
    ensures
        forall|i: int| 0 <= i < horizons.len() ==> #[trigger] horizons[i] <= longest_horizon(
            horizons,
            fallback,
        ),
        horizons.len() == 0 ==> longest_horizon(horizons, fallback) == fallback,
        horizons.len() > 0 ==> exists|i: int|
            0 <= i < horizons.len() && #[trigger] horizons[i] == longest_horizon(horizons, fallback),
    decreases horizons.len(),
{
    if horizons.len() == 1 {
        assert(horizons[0] == longest_horizon(horizons, fallback));
    } else if horizons.len() > 1 {
        let init = horizons.drop_last();
        let n = horizons.len() - 1;
        law_household_horizon_is_the_longest(init, fallback);
        assert forall|i: int| 0 <= i < n implies horizons[i] == #[trigger] init[i] by {}
        let w = choose|i: int| 0 <= i < init.len() && #[trigger] init[i] == longest_horizon(init, fallback);
        assert(horizons[w] == init[w]);
        assert(horizons[n] == horizons.last());
        assert forall|i: int| 0 <= i < horizons.len() implies #[trigger] horizons[i] <= longest_horizon(
            horizons,
            fallback,
        ) by {
            if i < n {
                assert(init[i] <= longest_horizon(init, fallback));
            }
        }
    }
}

/// The horizon of a series response and its basis: an explicit `months` or the `mine` view keep
/// the context's; the household takes the longest of its members' own horizons.
pub fn series_horizon(
    months_override_given: bool,
    household: bool,
    ctx_months: u32,
    ctx_basis: &str,
    member_horizons: &Vec<u32>,
) -> (r: (u32, String))
    ensures
        (months_override_given || !household) ==> r.0 == ctx_months && r.1@ == ctx_basis@,
        !(months_override_given || !household) ==> r.0 == longest_horizon(member_horizons@, ctx_months)
            && r.1@ == "household_max_lifespan"@,
{
    if months_override_given || !household {
        return (ctx_months, String::from_str(ctx_basis));
    }
    let mut best = ctx_months;
    let mut i: usize = 0;
    while i < member_horizons.len()
        invariant
            0 <= i <= member_horizons@.len(),
            best == longest_horizon(member_horizons@.take(i as int), ctx_months),
        decreases member_horizons@.len() - i,
    {
        assert(member_horizons@.take(i + 1).drop_last() =~= member_horizons@.take(i as int));
        let h = member_horizons[i];
        if i == 0 || best < h {
            best = h;
        }
        i = i + 1;
    }
    assert(member_horizons@.take(member_horizons@.len() as int) =~= member_horizons@);
    (best, String::from_str("household_max_lifespan"))
}

/// The phase of a transition as the engine reports it.
#[derive(Clone, Copy, Debug, PartialEq, Eq, Structural)]
pub enum Phase {
    Accumulating,
    Partial,
    Retired,
}

pub open spec fn phase_name(p: Phase) -> Seq<char> {
    match p {
        Phase::Accumulating => "accumulating"@,
        Phase::Partial => "partial"@,
        Phase::Retired => "retired"@,
    }
}

/// The engine's transitions (phase and loop month) on the published grid.
pub fn phase_transitions_of(v: &Vec<(Phase, u32)>) -> (r: Vec<PhaseTransition>)
    ensures
        r@.len() == v@.len(),
        forall|i: int|
            0 <= i < r@.len() ==> (#[trigger] r@[i]).phase@ == phase_name(v@[i].0)
                && r@[i].month_index == (if v@[i].1 > 0 {
                (v@[i].1 - 1) as u32
            } else {
                0u32
            }),
{
    let mut out: Vec<PhaseTransition> = Vec::new();
    let mut i: usize = 0;
    while i < v.len()
        invariant
            0 <= i <= v@.len(),
            out@.len() == i,
            forall|j: int|
                0 <= j < i ==> (#[trigger] out@[j]).phase@ == phase_name(v@[j].0)
                    && out@[j].month_index == (if v@[j].1 > 0 {
                    (v@[j].1 - 1) as u32
                } else {
                    0u32
                }),
        decreases v@.len() - i,
    {
        let (phase, k) = v[i];
        proof {
            reveal_strlit("accumulating");
            reveal_strlit("partial");
            reveal_strlit("retired");
        }
        let name: &'static str = match phase {
            Phase::Accumulating => "accumulating",
            Phase::Partial => "partial",
            Phase::Retired => "retired",
        };
        let month = match engine_month_to_grid(Some(k)) {
            Some(g) => g,
            None => 0,
        };
        out.push(PhaseTransition { phase: name, month_index: month });
        i = i + 1;
    }
    out
}

/// The chart puts ages on its axis when the viewer asked for ages and a birth date is known.
pub fn uses_age_axis(show_age_mode: &str, birth_known: bool) -> (r: bool)
    ensures
        r == (trimmed(show_age_mode@) == "ages"@ && birth_known),
{
    str_eq(str_trim(show_age_mode), "ages") && birth_known
}

/// The total uncovered deficit as published: never below zero (a rounding tail of the engine is
/// zero, not a deficit), at money scale.
pub fn uncovered_deficit_out(total: Dec) -> (r: Dec)
    ensures
        r == money_of(max_dec(total, Dec::of(0, 0))),
{
    proof {
        crate::decimal::lemma_int_units(0);
    }
    money_out(dec_max(total, Dec::zero()))
}

/// Where the second-level extras of a plan stand.
#[derive(Clone, Copy, Debug, PartialEq, Eq, Structural)]
pub enum ExtrasSlot {
    /// Nobody launched them.
    Missing,
    /// The task is running.
    Pending,
    /// The task ended, ready or not.
    Done { ready: bool },
}

pub const CURVE_STATE_UNAVAILABLE: &'static str = "unavailable";

pub const CURVE_STATE_COMPUTING: &'static str = "computing";

pub const CURVE_STATE_READY: &'static str = "ready";

/// The state of the needed-capital curve: "cannot" (no plan, nothing launched, or a failed task)
/// is not "not yet" (the task is running), and only a ready task publishes the curve.
pub fn curve_state(plan_absent: bool, slot: ExtrasSlot) -> (r: &'static str)
    ensures
        r == (if plan_absent {
            CURVE_STATE_UNAVAILABLE
        } else {
            match slot {
                ExtrasSlot::Missing => CURVE_STATE_UNAVAILABLE,
                ExtrasSlot::Pending => CURVE_STATE_COMPUTING,
                ExtrasSlot::Done { ready } => if ready {
                    CURVE_STATE_READY
                } else {
                    CURVE_STATE_UNAVAILABLE
                },
            }
        }),
{
    if plan_absent {
        return CURVE_STATE_UNAVAILABLE;
    }
    match slot {
        ExtrasSlot::Missing => CURVE_STATE_UNAVAILABLE,
        ExtrasSlot::Pending => CURVE_STATE_COMPUTING,
        ExtrasSlot::Done { ready } => if ready {
            CURVE_STATE_READY
        } else {
            CURVE_STATE_UNAVAILABLE
        },
    }
}


/// The horizon of a projection context and its basis: an explicit `months` (refused outside its
/// range, never clamped), or the lifespan horizon of the viewer's birth date (the session's, else
/// the household's first known one).
pub fn context_horizon(
    months_override: Option<u32>,
    today: Date,
    session_birth: Option<Date>,
    household_birth: Option<Date>,
    lifespan_age: u32,
) -> (r: Result<(u32, String), RequestError>)
    requires
        lifespan_age <= i32::MAX,
    ensures
        months_override matches Some(m) ==> if MIN_PROJECTION_MONTHS <= m <= MAX_PROJECTION_MONTHS {
            r matches Ok((k, b)) && k == m && b@ == "months_override"@
        } else {
            r == Err::<(u32, String), RequestError>(RequestError::MonthsOutOfRange)
        },
        months_override is None ==> {
            let birth = match session_birth {
                Some(b) => Some(b),
                None => household_birth,
            };
            &&& r matches Ok((k, b)) && k == horizon_months_of(seq![birth], today, lifespan_age as int)
            &&& (max_remaining_years(seq![birth], today, lifespan_age as int) is None ==> r->Ok_0.1@
                == "fallback_no_demographics"@)
            &&& (max_remaining_years(seq![birth], today, lifespan_age as int) is Some ==> r->Ok_0.1@
                == "lifespan_age"@)
        },
{
    match months_override {
        Some(m) => {
            match validate_months_override(Some(m)) {
                Ok(()) => {},
                Err(e) => {
                    return Err(e);
                },
            }
            Ok((m, String::from_str("months_override")))
        },
        None => {
            let birth = match session_birth {
                Some(b) => Some(b),
                None => household_birth,
            };
            let births = vec![birth];
            assert(births@ =~= seq![birth]);
            let (m, basis) = projection_horizon_months(today, &births, lifespan_age);
            Ok((m, String::from_str(basis)))
        },
    }
}

} // verus!

