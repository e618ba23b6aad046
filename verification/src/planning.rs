//! The upcoming flows ("Próximos") of the planning, mapped onto the monthly cash adjustments of
//! the projection grid: a dated flow lands in the month that contains its date (an overdue one in
//! month 0), a `per_month` flow loads every month its window touches, and an undated flow is
//! spread evenly over the 90 days that start on the first of the anchor month.
use crate::calendar::{
    add_months_ymd, lemma_first_shift, lemma_month_last, month_index_of, month_last_ymd,
    overlap_days, overlap_inclusive_days, proj_add_months, proj_month_first, proj_month_last,
    ymd,
};
use crate::date::{
    date_add_days, date_le, day_number, days_in_month, max_year, min_year, valid_ymd, ymd_le,
    Date,
};
use crate::decimal::{
    abs, dec_add, dec_div, dec_lt, dec_mul, decimal_product, decimal_quotient, decimal_sum, max_mantissa, one_unit,
    safe_units, sum_within_safe, Dec,
};
use crate::text::{str_eq, str_less, text_less};
use crate::date::{date_text, ymd_text};
use crate::plan::{money_of, money_out};
use vstd::prelude::*;
use vstd::string::StringExecFns;

verus! {

/// Days over which an undated flow is spread, from the first of the anchor month.
pub const PLANNING_UNDATED_SPREAD_DAYS: i64 = 90;

/// An upcoming flow as the projection reads it.
#[derive(Clone, Debug)]
pub struct PlanningFlowProjRow {
    /// `income` or `expense` (any other scope is ignored).
    pub scope: String,
    pub expected_amount: Dec,
    /// `one_off` or `per_month` (then the amount is per month over the window, whole months).
    pub amount_basis: String,
    pub due_date: Option<Date>,
    pub window_start_date: Option<Date>,
    pub window_end_date: Option<Date>,
    /// Only names the flow.
    pub title: String,
}

impl PlanningFlowProjRow {
    /// A one-off flow without a window.
    pub fn one_off(scope: &str, expected_amount: Dec, due_date: Option<Date>, title: &str) -> (r:
        Self)
        ensures
            r.scope@ == scope@,
            r.expected_amount == expected_amount,
            r.amount_basis@ == "one_off"@,
            r.due_date == due_date,
            r.window_start_date is None,
            r.window_end_date is None,
            r.title@ == title@,
    {
        PlanningFlowProjRow {
            scope: String::from_str(scope),
            expected_amount,
            amount_basis: String::from_str("one_off"),
            due_date,
            window_start_date: None,
            window_end_date: None,
            title: String::from_str(title),
        }
    }
}

/// `a + b`, `a / b` and `a * b` as `rust_decimal` computes them.
pub open spec fn sum_of(a: Dec, b: Dec) -> Dec {
    let p = decimal_sum(a.mantissa(), a.scale(), b.mantissa(), b.scale());
    Dec::of(p.0, p.1)
}

pub open spec fn quotient_of(a: Dec, b: Dec) -> Dec {
    let p = decimal_quotient(a.mantissa(), a.scale(), b.mantissa(), b.scale());
    Dec::of(p.0, p.1)
}

pub open spec fn product_of(a: Dec, b: Dec) -> Dec {
    let p = decimal_product(a.mantissa(), a.scale(), b.mantissa(), b.scale());
    Dec::of(p.0, p.1)
}

/// The signed amount of a flow: `+amount` for income, `-amount` for an expense, none otherwise.
pub open spec fn signed_amount(f: PlanningFlowProjRow) -> Option<Dec> {
    if f.scope@ == "income"@ {
        Some(f.expected_amount)
    } else if f.scope@ == "expense"@ {
        Some(Dec::of(-f.expected_amount.mantissa(), f.expected_amount.scale()))
    } else {
        None
    }
}

/// Month index of a date relative to the anchor month `(ay, am)`.
pub open spec fn offset_from(ay: int, am: int, d: Date) -> int {
    month_index_of(ymd(d)) - (ay * 12 + am)
}

/// The first and last day numbers of grid month `idx` from the anchor month `(ay, am)`.
pub open spec fn grid_month(ay: int, am: int, idx: int) -> (int, int) {
    let k = ay * 12 + am - 1 + idx;
    (k / 12, k % 12 + 1)
}

/// Days that grid month `idx` shares with the 90-day spread window of the anchor month.
pub open spec fn undated_days(ay: int, am: int, idx: int) -> int {
    let (y, m) = grid_month(ay, am, idx);
    let s1 = day_number(y, m, 1);
    let e1 = day_number(y, m, days_in_month(y, m));
    let s2 = day_number(ay, am, 1);
    let e2 = s2 + 89;
    let s = if s1 < s2 {
        s2
    } else {
        s1
    };
    let e = if e1 < e2 {
        e1
    } else {
        e2
    };
    if e < s {
        0
    } else {
        e - s + 1
    }
}

/// What a flow adds to grid month `idx` (none when it does not touch it).
pub open spec fn flow_contribution(f: PlanningFlowProjRow, ay: int, am: int, idx: int) -> Option<
    Dec,
> {
    match signed_amount(f) {
        None => None,
        Some(signed) => if f.amount_basis@ == "per_month"@ {
            match f.window_start_date {
                None => None,
                Some(ws) => if offset_from(ay, am, ws) <= idx && (match f.window_end_date {
                    None => true,
                    Some(e) => offset_from(ay, am, e) >= idx,
                }) {
                    Some(signed)
                } else {
                    None
                },
            }
        } else {
            match f.due_date {
                Some(due) => if offset_from(ay, am, due) < 0 {
                    if idx == 0 {
                        Some(signed)
                    } else {
                        None
                    }
                } else if offset_from(ay, am, due) == idx {
                    Some(signed)
                } else {
                    None
                },
                None => if undated_days(ay, am, idx) > 0 {
                    Some(
                        product_of(
                            quotient_of(signed, Dec::of(90, 0)),
                            Dec::of(undated_days(ay, am, idx), 0),
                        ),
                    )
                } else {
                    None
                },
            }
        },
    }
}

pub open spec fn applied(v: Dec, c: Option<Dec>) -> Dec {
    match c {
        None => v,
        Some(x) => sum_of(v, x),
    }
}

/// The adjustments after the flows, in order: every slot starts at 0 and each flow adds its
/// contribution to the slots it touches.
pub open spec fn adjustments_after(flows: Seq<PlanningFlowProjRow>, ay: int, am: int, horizon: nat) -> Seq<Dec>
    decreases flows.len(),
{
    if flows.len() == 0 {
        Seq::new(horizon, |i: int| Dec::of(0, 0))
    } else {
        let prev = adjustments_after(flows.drop_last(), ay, am, horizon);
        Seq::new(horizon, |i: int| applied(prev[i], flow_contribution(flows.last(), ay, am, i)))
    }
}

/// Every flow's addition to a month keeps that month's running total within the range of a
/// decimal (past it, the sum overflows).
pub open spec fn adjustments_fit(flows: Seq<PlanningFlowProjRow>, ay: int, am: int, horizon: nat) -> bool {
    forall|k: int, j: int|
        0 <= k < flows.len() && 0 <= j < horizon ==> #[trigger] flow_fits(flows, ay, am, horizon, k, j)
}

/// Flow `k`'s addition to month `j` keeps the month's running total within the range of a decimal.
pub open spec fn flow_fits(flows: Seq<PlanningFlowProjRow>, ay: int, am: int, horizon: nat, k: int, j: int) -> bool {
    match flow_contribution(flows[k], ay, am, j) {
        Some(c) => abs(adjustments_after(flows.take(k), ay, am, horizon)[j].units() + c.units())
            <= safe_units(),
        None => true,
    }
}

/// The bound of a flow's daily share: a decimal's largest value over 90, plus a unit of rounding.
pub open spec fn daily_bound() -> int {
    max_mantissa() * one_unit() / 90 + one_unit()
}

/// The calendar range the grid needs: a year of slack on both ends.
pub open spec fn grid_in_range(anchor_year: int, horizon: int) -> bool {
    min_year() < anchor_year && anchor_year + horizon / 12 + 2 <= max_year()
}

proof fn lemma_le_iff_number(a: Date, b: Date)
    requires
        valid_ymd(a.year(), a.month(), a.day()),
        valid_ymd(b.year(), b.month(), b.day()),
    ensures
        a.le(b) <==> a.number() <= b.number(),
{
    if a.le(b) {
        crate::date::lemma_number_monotone(a, b);
    } else {
        crate::date::lemma_number_strict(b, a);
    }
}

/// The first and last day of grid month `idx`.
fn month_window(anchor: Date, idx: u32) -> (r: (Date, Date))
    requires
        anchor.day() == 1,
        valid_ymd(anchor.year(), anchor.month(), anchor.day()),
        anchor.year() + (idx + 12) / 12 + 1 <= max_year(),
    ensures
        ({
            let (y, m) = grid_month(anchor.year(), anchor.month(), idx as int);
            &&& r.0.is_ymd(y, m, 1)
            &&& r.1.is_ymd(y, m, days_in_month(y, m))
            &&& month_index_of(ymd(r.0)) == anchor.year() * 12 + anchor.month() + idx
            &&& valid_ymd(y, m, 1)
            &&& valid_ymd(y, m, days_in_month(y, m))
        }),
{
    let first = proj_add_months(anchor, idx);
    first.bounds();
    proof {
        lemma_first_shift(anchor, idx as int);
        let k = anchor.year() * 12 + anchor.month() - 1 + idx;
        vstd::arithmetic::div_mod::lemma_fundamental_div_mod(k, 12);
        lemma_month_last(first);
    }
    let last = proj_month_last(first);
    (first, last)
}

/// What the flow adds to grid month `idx`, computed with the calendar of the grid: the window of
/// the month, the dates of the flow compared against it, and the spread's overlap in days.
fn slot_contribution(
    flow: &PlanningFlowProjRow,
    signed: Dec,
    per_month: bool,
    daily: Dec,
    anchor: Date,
    spread_last: Date,
    idx: u32,
) -> (r: Option<Dec>)
    requires
        signed_amount(*flow) == Some(signed),
        per_month == (flow.amount_basis@ == "per_month"@),
        !per_month && flow.due_date is None ==> daily == quotient_of(signed, Dec::of(90, 0)),
        abs(daily.units()) <= daily_bound(),
        anchor.day() == 1,
        valid_ymd(anchor.year(), anchor.month(), anchor.day()),
        anchor.year() + (idx + 12) / 12 + 1 <= max_year(),
        spread_last.number() == anchor.number() + 89,
    ensures
        r == flow_contribution(*flow, anchor.year(), anchor.month(), idx as int),
{
    let (m_first, m_last) = month_window(anchor, idx);
    m_first.bounds();
    m_last.bounds();
    anchor.bounds();
    spread_last.bounds();
    let ghost ay = anchor.year();
    let ghost am = anchor.month();
    if per_month {
        match flow.window_start_date {
            None => None,
            Some(ws) => {
                ws.bounds();
                let live_end = match flow.window_end_date {
                    None => true,
                    Some(e) => {
                        e.bounds();
                        date_le(m_first, e)
                    },
                };
                if date_le(ws, m_last) && live_end {
                    Some(signed)
                } else {
                    None
                }
            },
        }
    } else {
        match flow.due_date {
            Some(due) => {
                due.bounds();
                if !date_le(anchor, due) {
                    if idx == 0 {
                        Some(signed)
                    } else {
                        None
                    }
                } else if date_le(m_first, due) && date_le(due, m_last) {
                    Some(signed)
                } else {
                    None
                }
            },
            None => {
                let days = overlap_inclusive_days(m_first, m_last, anchor, spread_last);
                proof {
                    lemma_le_iff_number(m_first, anchor);
                    lemma_le_iff_number(m_last, spread_last);
                    lemma_le_iff_number(anchor, m_last);
                    lemma_le_iff_number(m_first, spread_last);
                    lemma_le_iff_number(anchor, m_first);
                    lemma_le_iff_number(m_last, anchor);
                    lemma_le_iff_number(spread_last, m_last);
                    lemma_le_iff_number(spread_last, m_first);
                    lemma_le_iff_number(m_first, m_last);
                    crate::date::lemma_number_range(m_first);
                    crate::date::lemma_number_range(m_last);
                    assert(days == undated_days(ay, am, idx as int));
                    assert(days <= 31);
                }
                if days > 0 {
                    proof {
                        crate::decimal::lemma_int_units(days as int);
                        crate::decimal::lemma_dec_of(days as int, 0);
                    }
                    let d = Dec::from_i64(days);
                    proof {
                        assert(abs(daily.units() * d.units()) <= safe_units() * one_unit())
                            by (nonlinear_arith)
                            requires
                                abs(daily.units()) <= daily_bound(),
                                d.units() == days * one_unit(),
                                0 < days <= 31,
                                daily_bound() == max_mantissa() * one_unit() / 90 + one_unit(),
                                max_mantissa() == 79228162514264337593543950335,
                                safe_units() == 7 * one_unit() * one_unit(),
                                one_unit() == 10000000000000000000000000000,
                        ;
                    }
                    let c = dec_mul(daily, d);
                    c.bounds();
                    proof {
                        crate::decimal::lemma_dec_of(c.mantissa(), c.scale());
                    }
                    Some(c)
                } else {
                    None
                }
            },
        }
    }
}

/// The signed amount of a flow, and whether the flow is `per_month`.
fn signed_of(flow: &PlanningFlowProjRow) -> (r: Option<Dec>)
    ensures
        r == signed_amount(*flow),
        r matches Some(x) ==> abs(x.units()) == abs(flow.expected_amount.units()),
{
    if str_eq(flow.scope.as_str(), "income") {
        Some(flow.expected_amount)
    } else if str_eq(flow.scope.as_str(), "expense") {
        let n = flow.expected_amount.neg();
        n.bounds();
        proof {
            crate::decimal::lemma_dec_of(n.mantissa(), n.scale());
        }
        Some(n)
    } else {
        None
    }
}

/// Law: where and with which sign a flow lands. Only incomes and expenses count, an income adds
/// its amount and an expense subtracts it; a dated one-off lands whole in its own month and in no
/// other (one already past lands in the first month); a per-month flow touches exactly the months
/// of its window.
pub proof fn law_flow_lands_in_its_month(f: PlanningFlowProjRow, ay: int, am: int, idx: int)
    requires
        -crate::decimal::max_mantissa() <= f.expected_amount.mantissa()
            <= crate::decimal::max_mantissa(),
        f.expected_amount.scale() <= 28,
    ensures
        f.scope@ != "income"@ && f.scope@ != "expense"@ ==> flow_contribution(f, ay, am, idx) is None,
        f.scope@ == "income"@ && f.amount_basis@ != "per_month"@ && f.due_date is Some
            && offset_from(ay, am, f.due_date.unwrap()) == idx && idx >= 0 ==> flow_contribution(
            f,
            ay,
            am,
            idx,
        ) == Some(f.expected_amount),
        f.scope@ == "expense"@ && f.amount_basis@ != "per_month"@ && f.due_date is Some
            && offset_from(ay, am, f.due_date.unwrap()) == idx && idx >= 0 ==> flow_contribution(
            f,
            ay,
            am,
            idx,
        ) is Some && flow_contribution(f, ay, am, idx).unwrap().units()
            == -f.expected_amount.units(),
        f.amount_basis@ != "per_month"@ && f.due_date is Some && offset_from(
            ay,
            am,
            f.due_date.unwrap(),
        ) >= 0 && offset_from(ay, am, f.due_date.unwrap()) != idx ==> flow_contribution(
            f,
            ay,
            am,
            idx,
        ) is None,
        (f.scope@ == "income"@ || f.scope@ == "expense"@) && f.amount_basis@ != "per_month"@
            && f.due_date is Some && offset_from(ay, am, f.due_date.unwrap()) < 0 ==> (
        flow_contribution(f, ay, am, idx) is Some <==> idx == 0),
        (f.scope@ == "income"@ || f.scope@ == "expense"@) && f.amount_basis@ == "per_month"@
            && f.window_start_date is Some ==> (flow_contribution(f, ay, am, idx) is Some <==> (
        offset_from(ay, am, f.window_start_date.unwrap()) <= idx && (f.window_end_date is None
            || offset_from(ay, am, f.window_end_date.unwrap()) >= idx))),
{
    reveal_strlit("income");
    reveal_strlit("expense");
    assert("expense"@.len() != "income"@.len());
    assert("expense"@ != "income"@);
    if f.scope@ == "expense"@ {
        assert(signed_amount(f) == Some(Dec::of(-f.expected_amount.mantissa(), f.expected_amount.scale())));
    }
    let m = f.expected_amount.mantissa();
    let sc = f.expected_amount.scale();
    crate::decimal::lemma_dec_of(-m, sc);
    let p = crate::decimal::pow10((28 - sc) as nat) as int;
    assert(Dec::of(-m, sc).units() == -f.expected_amount.units()) by {
        assert((-m) * p == -(m * p)) by (nonlinear_arith);
    }
}

/// Law: the cash adjustments of the upcoming flows depend on the calendar month of the reference
/// date alone. Two reference dates in the same month (any two days of it) give the same
/// adjustments, the same overflow condition and the same calendar bound, so both functions
/// return the same result for both.
pub proof fn law_same_month_same_adjustments(
    d1: Date,
    d2: Date,
    horizon: nat,
    flows: Seq<PlanningFlowProjRow>,
)
    requires
        d1.year() == d2.year(),
        d1.month() == d2.month(),
    ensures
        adjustments_after(flows, d1.year(), d1.month(), horizon) == adjustments_after(
            flows,
            d2.year(),
            d2.month(),
            horizon,
        ),
        adjustments_fit(flows, d1.year(), d1.month(), horizon) == adjustments_fit(
            flows,
            d2.year(),
            d2.month(),
            horizon,
        ),
        grid_in_range(d1.year(), horizon as int) == grid_in_range(d2.year(), horizon as int),
{
}

/// The monthly cash adjustments of the upcoming flows, checked: `None` exactly when some flow's
/// addition would take a month's running total out of the range of a decimal, the adjustments of
/// `planning_monthly_cash_adjustments_from_flows` otherwise.
pub fn planning_monthly_cash_adjustments_checked(
    ref_date: Date,
    horizon_months: u32,
    flows: &Vec<PlanningFlowProjRow>,
) -> (r: Option<Vec<Dec>>)
    requires
        grid_in_range(ref_date.year(), horizon_months as int),
    ensures
        r is Some <==> adjustments_fit(flows@, ref_date.year(), ref_date.month(), horizon_months as nat),
        r matches Some(v) ==> v@ == adjustments_after(
            flows@,
            ref_date.year(),
            ref_date.month(),
            horizon_months as nat,
        ),
{
    ref_date.bounds();
    let ghost ay = ref_date.year();
    let ghost am = ref_date.month();
    let ghost h = horizon_months as nat;
    let mut adj: Vec<Dec> = Vec::new();
    let mut k: u32 = 0;
    while k < horizon_months
        invariant
            k <= horizon_months,
            adj@ == Seq::new(k as nat, |i: int| Dec::of(0, 0)),
        decreases horizon_months - k,
    {
        adj.push(Dec::zero());
        k = k + 1;
        assert(adj@ =~= Seq::new(k as nat, |i: int| Dec::of(0, 0)));
    }
    proof {
        crate::decimal::lemma_int_units(0);
        assert(flows@.take(0) =~= Seq::<PlanningFlowProjRow>::empty());
    }
    let anchor = proj_month_first(ref_date);
    anchor.bounds();
    let spread_last = date_add_days(anchor, PLANNING_UNDATED_SPREAD_DAYS - 1);
    let mut f: usize = 0;
    while f < flows.len()
        invariant
            0 <= f <= flows@.len(),
            ay == ref_date.year(),
            am == ref_date.month(),
            forall|kk: int, j: int|
                0 <= kk < f && 0 <= j < h ==> #[trigger] flow_fits(flows@, ay, am, h, kk, j),
            adj@ == adjustments_after(flows@.take(f as int), ay, am, h),
            adj@.len() == h,
            anchor.is_ymd(ay, am, 1),
            valid_ymd(ay, am, 1),
            grid_in_range(ay, horizon_months as int),
            spread_last.number() == anchor.number() + 89,
            h == horizon_months,
        decreases flows@.len() - f,
    {
        let flow = &flows[f];
        let ghost prev = adj@;
        proof {
            assert(flows@.take(f + 1).drop_last() =~= flows@.take(f as int));
            assert(flows@.take(f + 1).last() == flows@[f as int]);
        }
        match signed_of(flow) {
            None => {
                proof {
                    assert(adj@ =~= adjustments_after(flows@.take(f + 1), ay, am, h));
                    assert forall|j: int| 0 <= j < h implies #[trigger] flow_fits(
                        flows@,
                        ay,
                        am,
                        h,
                        f as int,
                        j,
                    ) by {}
                }
            },
            Some(signed) => {
                signed.bounds();
                let per_month = str_eq(flow.amount_basis.as_str(), "per_month");
                let daily = if !per_month && flow.due_date.is_none() {
                    let ninety = Dec::from_u32(90);
                    proof {
                        crate::decimal::lemma_int_units(90);
                        assert(abs(signed.units() * one_unit()) <= safe_units() * abs(
                            ninety.units(),
                        )) by (nonlinear_arith)
                            requires
                                abs(signed.units()) <= max_mantissa() * one_unit(),
                                ninety.units() == 90 * one_unit(),
                                max_mantissa() == 79228162514264337593543950335,
                                safe_units() == 7 * one_unit() * one_unit(),
                                one_unit() == 10000000000000000000000000000,
                        ;
                    }
                    let d = dec_div(signed, ninety);
                    d.bounds();
                    proof {
                        crate::decimal::lemma_dec_of(d.mantissa(), d.scale());
                        assert(abs(d.units()) <= daily_bound()) by (nonlinear_arith)
                            requires
                                abs(d.units() * (90 * one_unit()) - signed.units() * one_unit())
                                    <= one_unit() * abs(90 * one_unit()),
                                abs(signed.units()) <= max_mantissa() * one_unit(),
                                daily_bound() == max_mantissa() * one_unit() / 90 + one_unit(),
                                max_mantissa() == 79228162514264337593543950335,
                                one_unit() == 10000000000000000000000000000,
                        ;
                    }
                    d
                } else {
                    Dec::zero()
                };
                proof {
                    if per_month || flow.due_date is Some {
                        crate::decimal::lemma_int_units(0);
                    }
                }
                let mut idx: u32 = 0;
                while idx < horizon_months
                    invariant
                        idx <= horizon_months,
                        0 <= f < flows@.len(),
                        ay == ref_date.year(),
                        am == ref_date.month(),
                        forall|kk: int, j: int|
                            0 <= kk < f && 0 <= j < h ==> #[trigger] flow_fits(flows@, ay, am, h, kk, j),
                        adj@.len() == h,
                        prev.len() == h,
                        prev == adjustments_after(flows@.take(f as int), ay, am, h),
                        forall|j: int| 0 <= j < idx ==> #[trigger] flow_fits(flows@, ay, am, h, f as int, j),
                        forall|j: int| idx <= j < h ==> #[trigger] adj@[j] == prev[j],
                        forall|j: int|
                            0 <= j < idx ==> #[trigger] adj@[j] == applied(
                                prev[j],
                                flow_contribution(flows@[f as int], ay, am, j),
                            ),
                        signed_amount(*flow) == Some(signed),
                        per_month == (flow.amount_basis@ == "per_month"@),
                        !per_month && flow.due_date is None ==> daily == quotient_of(
                            signed,
                            Dec::of(90, 0),
                        ),
                        abs(daily.units()) <= daily_bound(),
                        anchor.is_ymd(ay, am, 1),
                        valid_ymd(ay, am, 1),
                        grid_in_range(ay, horizon_months as int),
                        spread_last.number() == anchor.number() + 89,
                        h == horizon_months,
                        *flow == flows@[f as int],
                    decreases horizon_months - idx,
                {
                    let c = slot_contribution(flow, signed, per_month, daily, anchor, spread_last, idx);
                    match c {
                        Some(c) => {
                            let cur = adj[idx as usize];
                            proof {
                                assert(cur == prev[idx as int]);
                                let fc = flow_contribution(flows@[f as int], ay, am, idx as int);
                                assert(fc == Some(c));
                            }
                            if !sum_within_safe(cur, c) {
                                proof {
                                    assert(!flow_fits(flows@, ay, am, h, f as int, idx as int));
                                    assert(f < flows@.len() && idx < h);
                                    assert(!adjustments_fit(flows@, ay, am, h));
                                }
                                return None;
                            }
                            proof {
                                assert(flow_fits(flows@, ay, am, h, f as int, idx as int));
                            }
                            let s = dec_add(cur, c);
                            s.bounds();
                            proof {
                                crate::decimal::lemma_dec_of(s.mantissa(), s.scale());
                            }
                            adj.set(idx as usize, s);
                        },
                        None => {
                            proof {
                                assert(flow_fits(flows@, ay, am, h, f as int, idx as int));
                            }
                        },
                    }
                    idx = idx + 1;
                }
                proof {
                    assert(adj@ =~= adjustments_after(flows@.take(f + 1), ay, am, h));
                }
            },
        }
        f = f + 1;
    }
    proof {
        assert(flows@.take(flows@.len() as int) =~= flows@);
    }
    Some(adj)
}

/// The monthly cash adjustments of the upcoming flows over `horizon_months` grid months
/// anchored on the month of `ref_date`: each flow, in order, adds to the months it touches. The
/// day of `ref_date` does not matter: the result depends on its year and month only.
pub fn planning_monthly_cash_adjustments_from_flows(
    ref_date: Date,
    horizon_months: u32,
    flows: &Vec<PlanningFlowProjRow>,
) -> (r: Vec<Dec>)
    requires
        grid_in_range(ref_date.year(), horizon_months as int),
        adjustments_fit(flows@, ref_date.year(), ref_date.month(), horizon_months as nat),
    ensures
        r@ == adjustments_after(flows@, ref_date.year(), ref_date.month(), horizon_months as nat),
{
    match planning_monthly_cash_adjustments_checked(ref_date, horizon_months, flows) {
        Some(v) => v,
        None => Vec::new(),
    }
}

/// The net of the flows over the first three grid months: the baseline of the milestones.
pub open spec fn sum_seq(v: Seq<Dec>) -> Dec
    decreases v.len(),
{
    if v.len() == 0 {
        Dec::of(0, 0)
    } else {
        sum_of(sum_seq(v.drop_last()), v.last())
    }
}

/// Every partial sum of a series, left to right, stays within the range of a decimal.
pub open spec fn partial_sums_fit(v: Seq<Dec>) -> bool {
    forall|k: int| 0 <= k < v.len() ==> #[trigger] sum_step_fits(v, k)
}

/// Adding element `k` to the sum of the ones before stays within the range of a decimal.
pub open spec fn sum_step_fits(v: Seq<Dec>, k: int) -> bool {
    abs(sum_seq(v.take(k)).units() + v[k].units()) <= safe_units()
}

/// Sums a series from zero, left to right (the `Sum` of `rust_decimal`), checked: `None` exactly
/// when some partial sum would leave the range of a decimal.
pub fn sum_series_checked(v: &Vec<Dec>) -> (r: Option<Dec>)
    ensures
        r is Some <==> partial_sums_fit(v@),
        r matches Some(x) ==> x == sum_seq(v@),
{
    let mut acc = Dec::zero();
    proof {
        crate::decimal::lemma_int_units(0);
        assert(v@.take(0) =~= Seq::<Dec>::empty());
    }
    let mut i: usize = 0;
    while i < v.len()
        invariant
            0 <= i <= v@.len(),
            forall|k: int| 0 <= k < i ==> #[trigger] sum_step_fits(v@, k),
            acc == sum_seq(v@.take(i as int)),
        decreases v@.len() - i,
    {
        proof {
            assert(v@.take(i + 1).drop_last() =~= v@.take(i as int));
            assert(v@.take(i + 1).last() == v@[i as int]);
        }
        if !sum_within_safe(acc, v[i]) {
            proof {
                assert(!sum_step_fits(v@, i as int));
                assert(!partial_sums_fit(v@));
            }
            return None;
        }
        proof {
            assert(sum_step_fits(v@, i as int));
        }
        let s = dec_add(acc, v[i]);
        s.bounds();
        proof {
            crate::decimal::lemma_dec_of(s.mantissa(), s.scale());
        }
        proof {
            assert(s == sum_seq(v@.take(i + 1)));
        }
        acc = s;
        i = i + 1;
    }
    proof {
        assert(v@.take(v@.len() as int) =~= v@);
    }
    Some(acc)
}

/// Sums a series from zero, left to right (the `Sum` of `rust_decimal`).
pub fn sum_series(v: &Vec<Dec>) -> (r: Dec)
    requires
        partial_sums_fit(v@),
    ensures
        r == sum_seq(v@),
{
    match sum_series_checked(v) {
        Some(x) => x,
        None => Dec::zero(),
    }
}

/// The net of the upcoming flows over the three first grid months, by the same date-to-month
/// mapping that feeds the engine: the baseline of the milestones.
pub fn planning_upcoming_net_for_milestone_baseline(ref_date: Date, flows: &Vec<PlanningFlowProjRow>) -> (r: Dec)
    requires
        grid_in_range(ref_date.year(), 3),
        adjustments_fit(flows@, ref_date.year(), ref_date.month(), 3),
        partial_sums_fit(adjustments_after(flows@, ref_date.year(), ref_date.month(), 3)),
    ensures
        r == sum_seq(adjustments_after(flows@, ref_date.year(), ref_date.month(), 3)),
{
    let adj = planning_monthly_cash_adjustments_from_flows(ref_date, 3, flows);
    sum_series(&adj)
}

/// The milestones' baseline, checked: `None` exactly when a month's running total or the sum of
/// the three months would leave the range of a decimal.
pub fn planning_upcoming_net_checked(ref_date: Date, flows: &Vec<PlanningFlowProjRow>) -> (r: Option<Dec>)
    requires
        grid_in_range(ref_date.year(), 3),
    ensures
        r is Some <==> (adjustments_fit(flows@, ref_date.year(), ref_date.month(), 3)
            && partial_sums_fit(adjustments_after(flows@, ref_date.year(), ref_date.month(), 3))),
        r matches Some(x) ==> x == sum_seq(adjustments_after(flows@, ref_date.year(), ref_date.month(), 3)),
{
    match planning_monthly_cash_adjustments_checked(ref_date, 3, flows) {
        None => None,
        Some(adj) => sum_series_checked(&adj),
    }
}


// ---------------------------------------------------------------------------------------------
// Budget lines that end inside the horizon
// ---------------------------------------------------------------------------------------------

/// What an ended expense gives back to grid month `i`: its amount from the first month after the
/// month of its end date (every month when it ended before the anchor month), nothing before.
pub open spec fn end_date_contribution(e: (Dec, Date), ay: int, am: int, i: int) -> Option<Dec> {
    if offset_from(ay, am, e.1) < i {
        Some(e.0)
    } else {
        None
    }
}

/// The adjustments after the ended expenses, in order, from zero.
pub open spec fn end_date_adjustments(entries: Seq<(Dec, Date)>, ay: int, am: int, horizon: nat) -> Seq<
    Dec,
>
    decreases entries.len(),
{
    if entries.len() == 0 {
        Seq::new(horizon, |i: int| Dec::of(0, 0))
    } else {
        let prev = end_date_adjustments(entries.drop_last(), ay, am, horizon);
        Seq::new(
            horizon,
            |i: int| applied(prev[i], end_date_contribution(entries.last(), ay, am, i)),
        )
    }
}

/// Every ended expense's addition to a month keeps that month's running total within the range
/// of a decimal.
pub open spec fn end_adjustments_fit(entries: Seq<(Dec, Date)>, ay: int, am: int, horizon: nat) -> bool {
    forall|k: int, j: int|
        0 <= k < entries.len() && 0 <= j < horizon ==> #[trigger] end_entry_fits(entries, ay, am, horizon, k, j)
}

/// Ended expense `k`'s addition to month `j` keeps the month's running total within the range of
/// a decimal.
pub open spec fn end_entry_fits(entries: Seq<(Dec, Date)>, ay: int, am: int, horizon: nat, k: int, j: int) -> bool {
    match end_date_contribution(entries[k], ay, am, j) {
        Some(c) => abs(end_date_adjustments(entries.take(k), ay, am, horizon)[j].units() + c.units())
            <= safe_units(),
        None => true,
    }
}

/// The month of `d` counted from the anchor month `(ay, am)`.
fn month_offset_of(ay: i32, am: u32, d: Date) -> (r: i64)
    requires
        1 <= am <= 12,
        min_year() <= ay <= max_year(),
    ensures
        r == offset_from(ay as int, am as int, d),
{
    d.bounds();
    (d.year_i32() as i64) * 12 + (d.month_u32() as i64) - ((ay as i64) * 12 + (am as i64))
}

/// The monthly adjustments of the budget expenses that end inside the horizon, checked: `None`
/// exactly when an addition would take a month's running total out of the range of a decimal.
pub fn expense_end_date_monthly_adjustments_checked(
    today: Date,
    horizon_months: u32,
    entries: &Vec<(Dec, Date)>,
) -> (r: Option<Vec<Dec>>)
    ensures
        r is Some <==> end_adjustments_fit(entries@, today.year(), today.month(), horizon_months as nat),
        r matches Some(v) ==> v@ == end_date_adjustments(
            entries@,
            today.year(),
            today.month(),
            horizon_months as nat,
        ),
{
    today.bounds();
    let ghost ay = today.year();
    let ghost am = today.month();
    let ghost h = horizon_months as nat;
    let y = today.year_i32();
    let m = today.month_u32();
    let mut adj: Vec<Dec> = Vec::new();
    let mut k: u32 = 0;
    while k < horizon_months
        invariant
            k <= horizon_months,
            adj@ == Seq::new(k as nat, |i: int| Dec::of(0, 0)),
        decreases horizon_months - k,
    {
        adj.push(Dec::zero());
        k = k + 1;
        assert(adj@ =~= Seq::new(k as nat, |i: int| Dec::of(0, 0)));
    }
    proof {
        assert(entries@.take(0) =~= Seq::<(Dec, Date)>::empty());
    }
    let mut f: usize = 0;
    while f < entries.len()
        invariant
            0 <= f <= entries@.len(),
            y == ay,
            m == am,
            1 <= am <= 12,
            min_year() <= ay <= max_year(),
            ay == today.year(),
            am == today.month(),
            forall|kk: int, j: int|
                0 <= kk < f && 0 <= j < h ==> #[trigger] end_entry_fits(entries@, ay, am, h, kk, j),
            adj@ == end_date_adjustments(entries@.take(f as int), ay, am, h),
            adj@.len() == h,
            h == horizon_months,
        decreases entries@.len() - f,
    {
        let (amount, end) = entries[f];
        let ghost prev = adj@;
        proof {
            assert(entries@.take(f + 1).drop_last() =~= entries@.take(f as int));
            assert(entries@.take(f + 1).last() == entries@[f as int]);
        }
        let off = month_offset_of(y, m, end);
        let mut idx: u32 = 0;
        while idx < horizon_months
            invariant
                idx <= horizon_months,
                0 <= f < entries@.len(),
                (amount, end) == entries@[f as int],
                off == offset_from(ay, am, end),
                adj@.len() == h,
                prev.len() == h,
                ay == today.year(),
                am == today.month(),
                forall|kk: int, j: int|
                    0 <= kk < f && 0 <= j < h ==> #[trigger] end_entry_fits(entries@, ay, am, h, kk, j),
                forall|j: int| 0 <= j < idx ==> #[trigger] end_entry_fits(entries@, ay, am, h, f as int, j),
                prev == end_date_adjustments(entries@.take(f as int), ay, am, h),
                forall|j: int| idx <= j < h ==> #[trigger] adj@[j] == prev[j],
                forall|j: int|
                    0 <= j < idx ==> #[trigger] adj@[j] == applied(
                        prev[j],
                        end_date_contribution(entries@[f as int], ay, am, j),
                    ),
                h == horizon_months,
            decreases horizon_months - idx,
        {
            if off < idx as i64 {
                let cur = adj[idx as usize];
                proof {
                    assert(cur == prev[idx as int]);
                    assert(end_date_contribution(entries@[f as int], ay, am, idx as int) == Some(
                        amount,
                    ));
                }
                if !sum_within_safe(cur, amount) {
                    proof {
                        assert(!end_entry_fits(entries@, ay, am, h, f as int, idx as int));
                        assert(!end_adjustments_fit(entries@, ay, am, h));
                    }
                    return None;
                }
                proof {
                    assert(end_entry_fits(entries@, ay, am, h, f as int, idx as int));
                }
                let s = dec_add(cur, amount);
                s.bounds();
                proof {
                    crate::decimal::lemma_dec_of(s.mantissa(), s.scale());
                }
                adj.set(idx as usize, s);
            } else {
                proof {
                    assert(end_entry_fits(entries@, ay, am, h, f as int, idx as int));
                }
            }
            idx = idx + 1;
        }
        proof {
            assert(adj@ =~= end_date_adjustments(entries@.take(f + 1), ay, am, h));
        }
        f = f + 1;
    }
    proof {
        assert(entries@.take(entries@.len() as int) =~= entries@);
    }
    Some(adj)
}

/// The monthly adjustments of the budget expenses that end inside the horizon: each one (amount
/// and end date, in order) is given back from the first month after the month it ends.
pub fn expense_end_date_monthly_adjustments(
    today: Date,
    horizon_months: u32,
    entries: &Vec<(Dec, Date)>,
) -> (r: Vec<Dec>)
    requires
        end_adjustments_fit(entries@, today.year(), today.month(), horizon_months as nat),
    ensures
        r@ == end_date_adjustments(entries@, today.year(), today.month(), horizon_months as nat),
{
    match expense_end_date_monthly_adjustments_checked(today, horizon_months, entries) {
        Some(v) => v,
        None => Vec::new(),
    }
}

// ---------------------------------------------------------------------------------------------
// The events of the series
// ---------------------------------------------------------------------------------------------

/// The direction of an inflow and of an outflow.
pub const EVENT_INFLOW: &'static str = "inflow";

pub const EVENT_OUTFLOW: &'static str = "outflow";

/// The most events a series response publishes.
pub const PROJECTION_EVENTS_MAX: usize = 100;

/// A dated upcoming flow, as the step it makes in the series.
#[derive(Clone, Debug)]
pub struct ProjectionEvent {
    /// The grid month it lands in (0 is the anchor month), not a position in the points.
    pub month_index: u32,
    /// Its due date, `YYYY-MM-DD`.
    pub date_ymd: String,
    pub title: String,
    /// Its amount as a magnitude, at four decimals; the sign is `direction`.
    pub amount: Dec,
    /// `inflow` (income) or `outflow` (expense).
    pub direction: &'static str,
    /// Due before the anchor month, and so loaded whole in month 0.
    pub overdue: bool,
}

/// What an event reads as.
pub struct EventView {
    pub month_index: u32,
    pub date_ymd: Seq<char>,
    pub title: Seq<char>,
    pub amount: Dec,
    pub direction: Seq<char>,
    pub overdue: bool,
}

impl View for ProjectionEvent {
    type V = EventView;

    open spec fn view(&self) -> EventView {
        EventView {
            month_index: self.month_index,
            date_ymd: self.date_ymd@,
            title: self.title@,
            amount: self.amount,
            direction: self.direction@,
            overdue: self.overdue,
        }
    }
}

/// The direction of a flow's scope; none for a scope that is neither income nor expense.
pub open spec fn direction_of(scope: Seq<char>) -> Option<Seq<char>> {
    if scope == "income"@ {
        Some(EVENT_INFLOW@)
    } else if scope == "expense"@ {
        Some(EVENT_OUTFLOW@)
    } else {
        None
    }
}

/// The event of a flow: only a dated one-off income or expense makes a step. An overdue one lands
/// in month 0 (when there is a month at all), any other in the month of its date when that month
/// is inside the horizon.
pub open spec fn event_of(f: PlanningFlowProjRow, ay: int, am: int, horizon: int) -> Option<EventView> {
    match direction_of(f.scope@) {
        None => None,
        Some(dir) => if f.amount_basis@ == "per_month"@ {
            None
        } else {
            match f.due_date {
                None => None,
                Some(due) => {
                    let off = offset_from(ay, am, due);
                    let ev = EventView {
                        month_index: if off < 0 {
                            0u32
                        } else {
                            off as u32
                        },
                        date_ymd: ymd_text(due.year(), due.month(), due.day()),
                        title: f.title@,
                        amount: money_of(Dec::of(abs(f.expected_amount.mantissa()), f.expected_amount.scale())),
                        direction: dir,
                        overdue: off < 0,
                    };
                    if off < 0 {
                        if horizon > 0 {
                            Some(ev)
                        } else {
                            None
                        }
                    } else if off < horizon {
                        Some(ev)
                    } else {
                        None
                    }
                },
            }
        },
    }
}

/// The events of the flows, in the flows' order.
pub open spec fn event_candidates(flows: Seq<PlanningFlowProjRow>, ay: int, am: int, horizon: int) -> Seq<
    EventView,
>
    decreases flows.len(),
{
    if flows.len() == 0 {
        Seq::empty()
    } else {
        let prev = event_candidates(flows.drop_last(), ay, am, horizon);
        match event_of(flows.last(), ay, am, horizon) {
            Some(e) => prev.push(e),
            None => prev,
        }
    }
}

/// The order of the events: by month, then the larger amount first, then by title.
pub open spec fn event_before(a: EventView, b: EventView) -> bool {
    ||| a.month_index < b.month_index
    ||| a.month_index == b.month_index && a.amount.units() > b.amount.units()
    ||| a.month_index == b.month_index && a.amount.units() == b.amount.units() && text_less(
        a.title,
        b.title,
    )
}

/// Where a stable sort puts `e` among the events already sorted: before the first one it
/// strictly precedes, after all the others.
pub open spec fn insert_pos(s: Seq<EventView>, e: EventView) -> nat
    decreases s.len(),
{
    if s.len() == 0 {
        0
    } else if event_before(e, s[0]) {
        0
    } else {
        1 + insert_pos(s.drop_first(), e)
    }
}

/// The events sorted stably by `event_before`: each one, in order, placed by `insert_pos`.
pub open spec fn sorted_events(c: Seq<EventView>) -> Seq<EventView>
    decreases c.len(),
{
    if c.len() == 0 {
        Seq::empty()
    } else {
        let s = sorted_events(c.drop_last());
        s.insert(insert_pos(s, c.last()) as int, c.last())
    }
}

proof fn lemma_insert_pos(s: Seq<EventView>, e: EventView, i: int)
    requires
        0 <= i <= s.len(),
        forall|j: int| 0 <= j < i ==> !event_before(e, #[trigger] s[j]),
        i < s.len() ==> event_before(e, s[i]),
    ensures
        insert_pos(s, e) == i,
    decreases s.len(),
{
    if s.len() > 0 && i > 0 {
        assert(!event_before(e, s[0]));
        assert forall|j: int| 0 <= j < i - 1 implies !event_before(e, #[trigger] s.drop_first()[j]) by {
            assert(s.drop_first()[j] == s[j + 1]);
        }
        if i - 1 < s.len() - 1 {
            assert(s.drop_first()[i - 1] == s[i]);
        }
        lemma_insert_pos(s.drop_first(), e, i - 1);
    }
}

/// The place `insert_pos` finds: after every event that `e` does not strictly precede, before
/// the first one it does.
proof fn lemma_insert_pos_place(s: Seq<EventView>, e: EventView)
    ensures
        insert_pos(s, e) <= s.len(),
        forall|j: int| 0 <= j < insert_pos(s, e) ==> !event_before(e, #[trigger] s[j]),
        insert_pos(s, e) < s.len() ==> event_before(e, s[insert_pos(s, e) as int]),
    decreases s.len(),
{
    if s.len() > 0 && !event_before(e, s[0]) {
        lemma_insert_pos_place(s.drop_first(), e);
        let p = insert_pos(s, e) as int;
        assert forall|j: int| 0 <= j < p implies !event_before(e, #[trigger] s[j]) by {
            if j > 0 {
                assert(s[j] == s.drop_first()[j - 1]);
            }
        }
        if p < s.len() {
            assert(s[p] == s.drop_first()[p - 1]);
        }
    }
}

/// Law: the events come out in month order, one per candidate: the sorted list has as many
/// events as there are candidates, holds every candidate, and never puts a later month before an
/// earlier one.
pub proof fn law_events_in_month_order(c: Seq<EventView>)
    ensures
        sorted_events(c).len() == c.len(),
        forall|k: int| 0 <= k < c.len() ==> sorted_events(c).contains(#[trigger] c[k]),
        forall|i: int, j: int|
            0 <= i <= j < c.len() ==> (#[trigger] sorted_events(c)[i]).month_index <= (
            #[trigger] sorted_events(c)[j]).month_index,
    decreases c.len(),
{
    if c.len() > 0 {
        let init = c.drop_last();
        law_events_in_month_order(init);
        let s = sorted_events(init);
        let e = c.last();
        lemma_insert_pos_place(s, e);
        let p = insert_pos(s, e) as int;
        let t = s.insert(p, e);
        assert(sorted_events(c) == t);
        assert forall|k: int| 0 <= k < c.len() implies t.contains(#[trigger] c[k]) by {
            if k < init.len() {
                assert(init[k] == c[k]);
                let w = choose|w: int| 0 <= w < s.len() && s[w] == init[k];
                if w < p {
                    assert(t[w] == c[k]);
                } else {
                    assert(t[w + 1] == c[k]);
                }
            } else {
                assert(t[p] == c[k]);
            }
        }
        assert forall|i: int, j: int|
            0 <= i <= j < c.len() implies (#[trigger] t[i]).month_index <= (
            #[trigger] t[j]).month_index by {
            if i < p && j < p {
                assert(s[i].month_index <= s[j].month_index);
            } else if i < p && j == p {
                assert(!event_before(e, s[i]));
            } else if i < p && j > p {
                assert(s[i].month_index <= s[j - 1].month_index);
            } else if i == p && j > p {
                assert(event_before(e, s[p]));
                assert(s[p].month_index <= s[j - 1].month_index);
            } else if i > p {
                assert(s[i - 1].month_index <= s[j - 1].month_index);
            }
        }
    }
}

/// Does `a` come strictly before `b`?
fn precedes(a: &ProjectionEvent, b: &ProjectionEvent) -> (r: bool)
    ensures
        r == event_before(a@, b@),
{
    if a.month_index < b.month_index {
        return true;
    }
    if a.month_index > b.month_index {
        return false;
    }
    if dec_lt(b.amount, a.amount) {
        return true;
    }
    if dec_lt(a.amount, b.amount) {
        return false;
    }
    str_less(a.title.as_str(), b.title.as_str())
}

/// The event of one flow, computed.
fn event_from_flow(flow: &PlanningFlowProjRow, ay: i32, am: u32, horizon_months: u32) -> (r: Option<
    ProjectionEvent,
>)
    requires
        1 <= am <= 12,
        min_year() <= ay <= max_year(),
    ensures
        match event_of(*flow, ay as int, am as int, horizon_months as int) {
            Some(ev) => r matches Some(e) && e@ == ev,
            None => r is None,
        },
{
    let direction: &'static str = if str_eq(flow.scope.as_str(), "income") {
        EVENT_INFLOW
    } else if str_eq(flow.scope.as_str(), "expense") {
        EVENT_OUTFLOW
    } else {
        return None;
    };
    if str_eq(flow.amount_basis.as_str(), "per_month") {
        return None;
    }
    let due = match flow.due_date {
        None => {
            return None;
        },
        Some(d) => d,
    };
    let off = month_offset_of(ay, am, due);
    let overdue = off < 0;
    if overdue {
        if horizon_months == 0 {
            return None;
        }
    } else if off >= horizon_months as i64 {
        return None;
    }
    let month_index: u32 = if overdue {
        0
    } else {
        off as u32
    };
    let a = flow.expected_amount.abs();
    a.bounds();
    flow.expected_amount.bounds();
    proof {
        crate::decimal::lemma_dec_of(a.mantissa(), a.scale());
    }
    Some(
        ProjectionEvent {
            month_index,
            date_ymd: date_text(due),
            title: flow.title.clone(),
            amount: money_out(a),
            direction,
            overdue,
        },
    )
}

/// The events of the series: each dated one-off income or expense of the upcoming flows as the
/// step it makes, by the same date-to-month mapping as the cash adjustments (an overdue one in
/// month 0, flagged). They come sorted by month, then the larger amount first, then by title
/// (ties keep the flows' order), and at most `PROJECTION_EVENTS_MAX` of them; the flag says
/// whether some were cut.
pub fn projection_events_from_flows(
    ref_date: Date,
    horizon_months: u32,
    flows: &Vec<PlanningFlowProjRow>,
) -> (r: (Vec<ProjectionEvent>, bool))
    requires
        grid_in_range(ref_date.year(), horizon_months as int),
    ensures
        ({
            let all = sorted_events(
                event_candidates(flows@, ref_date.year(), ref_date.month(), horizon_months as int),
            );
            &&& r.1 == (all.len() > PROJECTION_EVENTS_MAX)
            &&& r.0@.len() == (if r.1 {
                PROJECTION_EVENTS_MAX as int
            } else {
                all.len() as int
            })
            &&& forall|i: int| 0 <= i < r.0@.len() ==> #[trigger] r.0@[i]@ == all[i]
        }),
{
    ref_date.bounds();
    let ghost ay = ref_date.year();
    let ghost am = ref_date.month();
    let ghost h = horizon_months as int;
    let y = ref_date.year_i32();
    let m = ref_date.month_u32();
    let mut out: Vec<ProjectionEvent> = Vec::new();
    proof {
        assert(flows@.take(0) =~= Seq::<PlanningFlowProjRow>::empty());
        assert(sorted_events(event_candidates(flows@.take(0), ay, am, h)) =~= Seq::<EventView>::empty());
    }
    let mut f: usize = 0;
    while f < flows.len()
        invariant
            0 <= f <= flows@.len(),
            y == ay,
            m == am,
            1 <= am <= 12,
            min_year() <= ay <= max_year(),
            h == horizon_months,
            out@.len() == sorted_events(event_candidates(flows@.take(f as int), ay, am, h)).len(),
            forall|i: int|
                0 <= i < out@.len() ==> #[trigger] out@[i]@ == sorted_events(
                    event_candidates(flows@.take(f as int), ay, am, h),
                )[i],
        decreases flows@.len() - f,
    {
        let ghost before_f = sorted_events(event_candidates(flows@.take(f as int), ay, am, h));
        proof {
            assert(flows@.take(f + 1).drop_last() =~= flows@.take(f as int));
            assert(flows@.take(f + 1).last() == flows@[f as int]);
        }
        let ghost c0 = event_candidates(flows@.take(f as int), ay, am, h);
        let ghost c1 = event_candidates(flows@.take(f + 1), ay, am, h);
        match event_from_flow(&flows[f], y, m, horizon_months) {
            None => {
                proof {
                    assert(event_of(flows@[f as int], ay, am, h) is None);
                    assert(c1 == c0);
                }
            },
            Some(e) => {
                let mut i: usize = 0;
                while i < out.len() && !precedes(&e, &out[i])
                    invariant
                        0 <= i <= out@.len(),
                        out@.len() == before_f.len(),
                        forall|j: int| 0 <= j < out@.len() ==> #[trigger] out@[j]@ == before_f[j],
                        forall|j: int| 0 <= j < i ==> !event_before(e@, #[trigger] before_f[j]),
                    decreases out@.len() - i,
                {
                    i = i + 1;
                }
                proof {
                    if i < out@.len() {
                        assert(out@[i as int]@ == before_f[i as int]);
                        assert(event_before(e@, before_f[i as int]));
                    }
                    lemma_insert_pos(before_f, e@, i as int);
                    assert(event_of(flows@[f as int], ay, am, h) == Some(e@));
                    assert(c1.drop_last() =~= c0);
                    assert(c1.last() == e@);
                    assert(sorted_events(c1) == before_f.insert(i as int, e@));
                }
                let ghost old_out = out@;
                out.insert(i, e);
                proof {
                    assert forall|j: int| 0 <= j < out@.len() implies #[trigger] out@[j]@
                        == sorted_events(c1)[j] by {
                        if j < i {
                            assert(out@[j] == old_out[j]);
                        } else if j > i {
                            assert(out@[j] == old_out[j - 1]);
                        }
                    }
                }
            },
        }
        f = f + 1;
    }
    proof {
        assert(flows@.take(flows@.len() as int) =~= flows@);
    }
    let truncated = out.len() > PROJECTION_EVENTS_MAX;
    out.truncate(PROJECTION_EVENTS_MAX);
    (out, truncated)
}

} // verus!
