//! Net-worth milestones reached along the series: for each candidate target in order, the first
//! point that reaches it, one milestone per calendar year (the highest target of the year wins),
//! up to a limit. The round targets themselves are generated elsewhere.
use crate::calendar::{add_months_ymd, proj_add_months, proj_month_first};
use crate::date::{date_text, ymd_text, Date};
use crate::decimal::{abs, dec_add, dec_le, safe_units, Dec};
use crate::deflate::NwPoint;
use crate::planning::sum_of;
use vstd::prelude::*;

verus! {

/// Lowest milestone, and how many candidates are searched and kept.
pub const PROJECTION_MILESTONE_MINIMUM: i64 = 1000;

pub const PROJECTION_MILESTONE_SEARCH_COUNT: usize = 64;

pub const PROJECTION_MILESTONE_LIMIT: usize = 3;

/// A milestone reached: the target, the grid month of the first point at or above it, and that
/// month's date (first of the month).
#[derive(Clone, Debug)]
pub struct ProjectionMilestone {
    pub target: Dec,
    pub reached_month_index: u32,
    pub reached_date_ymd: String,
}

/// The first position at or after `i` whose net worth reaches `m`.
pub open spec fn first_reaching_from(points: Seq<NwPoint>, m: Dec, i: int) -> Option<int>
    decreases points.len() - i,
{
    if i < 0 || i >= points.len() {
        None
    } else if m.units() <= points[i].net_worth.units() {
        Some(i)
    } else {
        first_reaching_from(points, m, i + 1)
    }
}

/// A milestone as a triple: target, grid month, date.
pub type MilestoneSpec = (Dec, u32, (int, int, int));

/// The milestones after the candidates, in order, and whether the search has stopped (a target
/// no point reaches, or the limit reached). A milestone in the same year as the last one kept
/// replaces it.
pub open spec fn milestones_after(
    points: Seq<NwPoint>,
    anchor: Date,
    generated: Seq<Dec>,
    limit: int,
) -> (Seq<MilestoneSpec>, bool)
    decreases generated.len(),
{
    if generated.len() == 0 {
        (Seq::empty(), false)
    } else {
        let (prev, stopped) = milestones_after(points, anchor, generated.drop_last(), limit);
        if stopped {
            (prev, true)
        } else {
            match first_reaching_from(points, generated.last(), 0) {
                None => (prev, true),
                Some(idx) => {
                    let mi = points[idx].month_index;
                    let d = add_months_ymd(anchor.first_of(), mi as int);
                    let ev: MilestoneSpec = (generated.last(), mi, d);
                    let next = if prev.len() > 0 && prev.last().2.0 == d.0 {
                        prev.update(prev.len() - 1, ev)
                    } else {
                        prev.push(ev)
                    };
                    (next, next.len() >= limit)
                },
            }
        }
    }
}

/// The milestones reached along the series: none without points or with a zero limit.
pub open spec fn reached_milestones(
    points: Seq<NwPoint>,
    anchor: Date,
    generated: Seq<Dec>,
    limit: int,
) -> Seq<MilestoneSpec> {
    if points.len() == 0 || limit == 0 {
        Seq::empty()
    } else {
        milestones_after(points, anchor, generated, limit).0
    }
}

/// Does the published milestone say what the triple says?
pub open spec fn publishes(m: ProjectionMilestone, s: MilestoneSpec) -> bool {
    &&& m.target == s.0
    &&& m.reached_month_index == s.1
    &&& m.reached_date_ymd@ == ymd_text(s.2.0, s.2.1, s.2.2)
}

/// The baseline of the candidate milestones: the first point plus the upcoming-flows adjustment.
pub fn milestone_baseline(points: &Vec<NwPoint>, baseline_adjustment: Dec) -> (r: Option<Dec>)
    requires
        points@.len() > 0 ==> abs(points@[0].net_worth.units() + baseline_adjustment.units())
            <= safe_units(),
    ensures
        points@.len() == 0 ==> r is None,
        points@.len() > 0 ==> r == Some(sum_of(points@[0].net_worth, baseline_adjustment)),
{
    if points.len() == 0 {
        return None;
    }
    let b = dec_add(points[0].net_worth, baseline_adjustment);
    b.bounds();
    proof {
        crate::decimal::lemma_dec_of(b.mantissa(), b.scale());
    }
    Some(b)
}

fn first_reaching(points: &Vec<NwPoint>, m: Dec) -> (r: Option<usize>)
    ensures
        r matches Some(i) ==> i < points@.len(),
        r matches Some(i) ==> first_reaching_from(points@, m, 0) == Some(i as int),
        match first_reaching_from(points@, m, 0) {
            Some(i) => r == Some(i as usize),
            None => r is None,
        },
{
    let mut i: usize = 0;
    while i < points.len()
        invariant
            0 <= i <= points@.len(),
            first_reaching_from(points@, m, 0) == first_reaching_from(points@, m, i as int),
        decreases points@.len() - i,
    {
        if dec_le(m, points[i].net_worth) {
            return Some(i);
        }
        i = i + 1;
    }
    None
}

/// The milestones reached along `points` for the candidate targets `generated`, in order: for
/// each target, the first point that reaches it; one milestone per calendar year (a later target
/// in the same year replaces the one kept); stopping at the first target never reached or once
/// `limit` milestones are kept.
pub fn projection_unique_reached_milestones(
    points: &Vec<NwPoint>,
    anchor_date: Date,
    limit: usize,
    generated: &Vec<Dec>,
) -> (r: Vec<ProjectionMilestone>)
    ensures
        r@.len() == reached_milestones(points@, anchor_date, generated@, limit as int).len(),
        forall|i: int|
            0 <= i < r@.len() ==> publishes(
                #[trigger] r@[i],
                reached_milestones(points@, anchor_date, generated@, limit as int)[i],
            ),
{
    let mut events: Vec<ProjectionMilestone> = Vec::new();
    if points.len() == 0 || limit == 0 {
        return events;
    }
    let anchor = proj_month_first(anchor_date);
    let mut last_year: Option<i32> = None;
    let mut g: usize = 0;
    while g < generated.len()
        invariant_except_break
            !milestones_after(points@, anchor_date, generated@.take(g as int), limit as int).1,
            ({
                let (spec_events, _) = milestones_after(
                    points@,
                    anchor_date,
                    generated@.take(g as int),
                    limit as int,
                );
                &&& events@.len() == spec_events.len()
                &&& forall|i: int|
                    0 <= i < events@.len() ==> publishes(#[trigger] events@[i], spec_events[i])
                &&& match last_year {
                    None => spec_events.len() == 0,
                    Some(y) => spec_events.len() > 0 && spec_events.last().2.0 == y,
                }
            }),
        invariant
            0 <= g <= generated@.len(),
            g == generated@.len() ==> generated@.take(g as int) =~= generated@,
            limit > 0,
            anchor == anchor_date.first_of(),
        ensures
            ({
                let (spec_events, _) = milestones_after(
                    points@,
                    anchor_date,
                    generated@,
                    limit as int,
                );
                &&& events@.len() == spec_events.len()
                &&& forall|i: int|
                    0 <= i < events@.len() ==> publishes(#[trigger] events@[i], spec_events[i])
            }),
        decreases generated@.len() - g,
    {
        let ghost before = milestones_after(points@, anchor_date, generated@.take(g as int), limit as int);
        proof {
            assert(generated@.take(g + 1).drop_last() =~= generated@.take(g as int));
            assert(generated@.take(g + 1).last() == generated@[g as int]);
        }
        let milestone = generated[g];
        let reached_idx = match first_reaching(points, milestone) {
            None => {
                proof {
                    lemma_stopped_stays(points@, anchor_date, generated@, limit as int, g as int + 1);
                    assert(generated@.take(generated@.len() as int) =~= generated@);
                }
                break;
            },
            Some(i) => i,
        };
        let reached_month_index = points[reached_idx].month_index;
        let reached_date = proj_add_months(anchor, reached_month_index);
        reached_date.bounds();
        let year = reached_date.year_i32();
        let event = ProjectionMilestone {
            target: milestone,
            reached_month_index,
            reached_date_ymd: date_text(reached_date),
        };
        let replace = match last_year {
            Some(prev_year) => prev_year == year,
            None => false,
        };
        if replace {
            let k = events.len() - 1;
            events.set(k, event);
        } else {
            events.push(event);
            last_year = Some(year);
        }
        proof {
            let prev = before.0;
            assert(!before.1);
            assert(first_reaching_from(points@, milestone, 0) == Some(reached_idx as int));
            assert(generated@.take(g + 1).last() == milestone);
            let d = add_months_ymd(anchor_date.first_of(), reached_month_index as int);
            assert(d.0 == year);
            let ev: MilestoneSpec = (milestone, reached_month_index, d);
            assert(publishes(event, ev));
            let next = if prev.len() > 0 && prev.last().2.0 == d.0 {
                prev.update(prev.len() - 1, ev)
            } else {
                prev.push(ev)
            };
            assert(milestones_after(points@, anchor_date, generated@.take(g + 1), limit as int) == (
            next, next.len() >= limit));
            let (after, st) = milestones_after(points@, anchor_date, generated@.take(g + 1), limit as int);
            assert(events@.len() == after.len());
            assert forall|i: int| 0 <= i < events@.len() implies publishes(#[trigger] events@[i], after[i]) by {
            }
        }
        if events.len() >= limit {
            proof {
                lemma_stopped_stays(points@, anchor_date, generated@, limit as int, g as int + 1);
                assert(generated@.take(generated@.len() as int) =~= generated@);
            }
            break;
        }
        g = g + 1;
    }
    events
}

/// Once the search has stopped, later candidates change nothing.
proof fn lemma_stopped_stays(
    points: Seq<NwPoint>,
    anchor: Date,
    generated: Seq<Dec>,
    limit: int,
    g: int,
)
    requires
        0 <= g <= generated.len(),
        milestones_after(points, anchor, generated.take(g), limit).1,
    ensures
        milestones_after(points, anchor, generated, limit) == milestones_after(
            points,
            anchor,
            generated.take(g),
            limit,
        ),
    decreases generated.len() - g,
{
    if g < generated.len() {
        assert(generated.take(g + 1).drop_last() =~= generated.take(g));
        lemma_stopped_stays(points, anchor, generated, limit, g + 1);
    } else {
        assert(generated.take(g) =~= generated);
    }
}

/// Consecutive milestones fall in different calendar years.
pub open spec fn one_per_year(s: Seq<MilestoneSpec>) -> bool {
    forall|i: int| 0 <= i < s.len() - 1 ==> (#[trigger] s[i]).2.0 != s[i + 1].2.0
}

/// Law: the published milestones never repeat a calendar year back to back (a later target
/// reached in the same year replaces the one kept), and there are never more than the limit.
pub proof fn law_milestones_one_per_year(
    points: Seq<NwPoint>,
    anchor: Date,
    generated: Seq<Dec>,
    limit: int,
)
    requires
        limit >= 1,
    ensures
        one_per_year(milestones_after(points, anchor, generated, limit).0),
        milestones_after(points, anchor, generated, limit).0.len() <= limit,
    decreases generated.len(),
{
    if generated.len() > 0 {
        law_milestones_one_per_year(points, anchor, generated.drop_last(), limit);
        let (prev, stopped) = milestones_after(points, anchor, generated.drop_last(), limit);
        if !stopped {
            assert(prev.len() < limit);
            match first_reaching_from(points, generated.last(), 0) {
                None => {},
                Some(idx) => {
                    let (next, _) = milestones_after(points, anchor, generated, limit);
                    assert forall|i: int| 0 <= i < next.len() - 1 implies (#[trigger] next[i]).2.0
                        != next[i + 1].2.0 by {
                        if i < prev.len() - 1 {
                            assert(next[i] == prev[i]);
                        }
                    }
                },
            }
        }
    }
}

/// Every milestone kept is reached at the first point that reaches its target.
proof fn lemma_milestone_months(points: Seq<NwPoint>, anchor: Date, generated: Seq<Dec>, limit: int)
    ensures
        forall|k: int|
            0 <= k < milestones_after(points, anchor, generated, limit).0.len() ==> exists|idx: int|
                first_reaching_from(points, (#[trigger] milestones_after(points, anchor, generated, limit).0[k]).0, 0)
                    == Some(idx) && 0 <= idx < points.len() && milestones_after(points, anchor, generated, limit).0[k].1
                    == points[idx].month_index,
    decreases generated.len(),
{
    if generated.len() > 0 {
        lemma_milestone_months(points, anchor, generated.drop_last(), limit);
        let (prev, stopped) = milestones_after(points, anchor, generated.drop_last(), limit);
        if !stopped {
            match first_reaching_from(points, generated.last(), 0) {
                None => {},
                Some(idx) => {
                    lemma_first_reaching_in_range(points, generated.last(), 0);
                    let next = milestones_after(points, anchor, generated, limit).0;
                    assert forall|k: int| 0 <= k < next.len() implies exists|j: int|
                        first_reaching_from(points, (#[trigger] next[k]).0, 0) == Some(j) && 0 <= j
                            < points.len() && next[k].1 == points[j].month_index by {
                        if k < prev.len() && next[k] == prev[k] {
                            assert(prev[k] == milestones_after(points, anchor, generated.drop_last(), limit).0[k]);
                        } else {
                            assert(next[k].0 == generated.last());
                            assert(next[k].1 == points[idx].month_index);
                        }
                    }
                },
            }
        }
    }
}

/// What the search from `i` finds is a position of the series.
proof fn lemma_first_reaching_in_range(points: Seq<NwPoint>, m: Dec, i: int)
    ensures
        first_reaching_from(points, m, i) matches Some(j) ==> i <= j < points.len() && j >= 0
            && m.units() <= points[j].net_worth.units(),
    decreases points.len() - i,
{
    if i >= 0 && i < points.len() && m.units() > points[i].net_worth.units() {
        lemma_first_reaching_in_range(points, m, i + 1);
    }
}

/// A series that is nowhere above another reaches a target (of the same value) no earlier.
proof fn lemma_lower_reaches_later(nominal: Seq<NwPoint>, lower: Seq<NwPoint>, a: Dec, b: Dec, i: int)
    requires
        0 <= i,
        lower.len() == nominal.len(),
        a.units() == b.units(),
        forall|k: int| 0 <= k < lower.len() ==> (#[trigger] lower[k]).net_worth.units() <= nominal[k].net_worth.units(),
    ensures
        first_reaching_from(lower, b, i) matches Some(r) ==> (first_reaching_from(nominal, a, i) matches Some(
            n,
        ) && n <= r),
    decreases lower.len() - i,
{
    if i < lower.len() {
        if b.units() > lower[i].net_worth.units() {
            lemma_lower_reaches_later(nominal, lower, a, b, i + 1);
            lemma_first_reaching_in_range(lower, b, i + 1);
        } else {
            assert(lower[i].net_worth.units() <= nominal[i].net_worth.units());
            assert(first_reaching_from(nominal, a, i) == Some(i));
        }
    }
}

/// Law: a series that is nowhere above another, month by month, reaches no milestone earlier:
/// for every target that both lists of milestones hold, the lower series reaches it in the same
/// month or later. (The lower series, deflated month by month, is such a series whenever its
/// deflated values do not exceed the nominal ones.)
pub proof fn law_lower_series_reaches_no_earlier(
    nominal: Seq<NwPoint>,
    lower: Seq<NwPoint>,
    anchor: Date,
    generated_nominal: Seq<Dec>,
    generated_real: Seq<Dec>,
    limit: int,
)
    requires
        lower.len() == nominal.len(),
        forall|k: int|
            0 <= k < lower.len() ==> (#[trigger] lower[k]).month_index == nominal[k].month_index
                && lower[k].net_worth.units() <= nominal[k].net_worth.units(),
        forall|i: int, j: int|
            0 <= i <= j < nominal.len() ==> (#[trigger] nominal[i]).month_index
                <= (#[trigger] nominal[j]).month_index,
    ensures
        forall|x: int, y: int|
            0 <= x < reached_milestones(nominal, anchor, generated_nominal, limit).len() && 0 <= y
                < reached_milestones(lower, anchor, generated_real, limit).len() && (#[trigger] reached_milestones(
                nominal,
                anchor,
                generated_nominal,
                limit,
            )[x]).0.units() == (#[trigger] reached_milestones(lower, anchor, generated_real, limit)[y]).0.units()
                ==> reached_milestones(nominal, anchor, generated_nominal, limit)[x].1
                <= reached_milestones(lower, anchor, generated_real, limit)[y].1,
{
    let nn = reached_milestones(nominal, anchor, generated_nominal, limit);
    let rr = reached_milestones(lower, anchor, generated_real, limit);
    if nominal.len() > 0 && limit != 0 {
        lemma_milestone_months(nominal, anchor, generated_nominal, limit);
        lemma_milestone_months(lower, anchor, generated_real, limit);
        assert forall|x: int, y: int|
            0 <= x < nn.len() && 0 <= y < rr.len() && (#[trigger] nn[x]).0.units()
                == (#[trigger] rr[y]).0.units() implies nn[x].1 <= rr[y].1 by {
            let n_idx = choose|j: int|
                first_reaching_from(nominal, nn[x].0, 0) == Some(j) && 0 <= j < nominal.len()
                    && nn[x].1 == nominal[j].month_index;
            let r_idx = choose|j: int|
                first_reaching_from(lower, rr[y].0, 0) == Some(j) && 0 <= j < lower.len() && rr[y].1
                    == lower[j].month_index;
            assert(milestones_after(nominal, anchor, generated_nominal, limit).0[x] == nn[x]);
            assert(milestones_after(lower, anchor, generated_real, limit).0[y] == rr[y]);
            lemma_lower_reaches_later(nominal, lower, nn[x].0, rr[y].0, 0);
            assert(n_idx <= r_idx);
            assert(nominal[n_idx].month_index <= nominal[r_idx].month_index);
        }
    }
}

} // verus!
