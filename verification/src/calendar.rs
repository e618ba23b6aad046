//! The civil calendar of the projection: month arithmetic on the anchor, completed ages, the
//! civil reading of a grid month, the horizon and the month in which an age is reached.
use crate::date::{
    date_checked_add_months, date_le, date_pred, date_text, days_between, max_year, min_year,
    month_first, months_later, opt_ymd, valid_ymd, ymd_before, ymd_le, ymd_text, Date,
};
use vstd::prelude::*;

verus! {

/// The first day of the month of `d`.
pub fn proj_month_first(d: Date) -> (r: Date)
    ensures
        r.is_ymd(d.year(), d.month(), 1),
        r == d.first_of(),
{
    month_first(d)
}

/// `(year, month, day)` of a date.
pub open spec fn ymd(d: Date) -> (int, int, int) {
    (d.year(), d.month(), d.day())
}

/// `d` moved `n` months (the day cut to the month's length); `d` itself when that leaves the
/// supported range.
pub open spec fn add_months_ymd(d: Date, n: int) -> (int, int, int) {
    match months_later(d, n) {
        Some(t) => t,
        None => ymd(d),
    }
}

/// `n` months after `d`, keeping its day (cut to the month's length); `d` where that leaves the
/// calendar's range.
pub fn proj_add_months(d: Date, n: u32) -> (r: Date)
    ensures
        ymd(r) == add_months_ymd(d, n as int),
{
    match date_checked_add_months(d, n) {
        Some(x) => x,
        None => d,
    }
}

/// The last day of the month that starts at `m_first`: the day before the first of the next
/// month (`m_first` itself at the edge of the range).
pub open spec fn month_last_ymd(m_first: Date) -> (int, int, int) {
    let next = add_months_ymd(m_first, 1);
    match ymd_before(next) {
        Some(t) => t,
        None => ymd(m_first),
    }
}

pub fn proj_month_last(m_first: Date) -> (r: Date)
    ensures
        ymd(r) == month_last_ymd(m_first),
{
    let next = proj_add_months(m_first, 1);
    match date_pred(next) {
        Some(x) => x,
        None => m_first,
    }
}

/// Days in common between two inclusive date ranges (0 when they do not meet).
pub open spec fn overlap_days(a_start: Date, a_end: Date, b_start: Date, b_end: Date) -> int {
    let start = if a_start.le(b_start) {
        b_start
    } else {
        a_start
    };
    let end = if a_end.le(b_end) {
        a_end
    } else {
        b_end
    };
    if end.lt(start) {
        0
    } else {
        end.number() - start.number() + 1
    }
}

pub fn overlap_inclusive_days(a_start: Date, a_end: Date, b_start: Date, b_end: Date) -> (r: i64)
    ensures
        r == overlap_days(a_start, a_end, b_start, b_end),
{
    let start = if date_le(a_start, b_start) {
        b_start
    } else {
        a_start
    };
    let end = if date_le(a_end, b_end) {
        a_end
    } else {
        b_end
    };
    if !date_le(start, end) {
        return 0;
    }
    start.bounds();
    end.bounds();
    proof {
        crate::date::lemma_number_monotone(start, end);
        crate::date::lemma_number_range(start);
        crate::date::lemma_number_range(end);
    }
    days_between(start, end) + 1
}

/// Completed years at the date `(ty, tm, td)` of someone born on `(by, bm, bd)`: 0 when the
/// birth is later.
pub open spec fn completed_years(t: (int, int, int), b: (int, int, int)) -> int {
    if !ymd_le(b.0, b.1, b.2, t.0, t.1, t.2) {
        0
    } else if t.1 < b.1 || (t.1 == b.1 && t.2 < b.2) {
        t.0 - b.0 - 1
    } else {
        t.0 - b.0
    }
}

/// Completed calendar age in years on `today` (0 when the birth is later).
pub fn age_completed_years(today: Date, birth: Date) -> (r: i32)
    ensures
        r == completed_years(ymd(today), ymd(birth)),
        r >= 0,
{
    today.bounds();
    birth.bounds();
    if !date_le(birth, today) {
        return 0;
    }
    let mut y = today.year_i32() - birth.year_i32();
    if today.month_u32() < birth.month_u32() || (today.month_u32() == birth.month_u32()
        && today.day_u32() < birth.day_u32()) {
        y = y - 1;
    }
    y
}

/// The civil reading of grid month `mi`: the date `mi` months after `today` (keeping its day)
/// and, with a birth date, the completed age on it. No month, no reading; month 0 is today.
pub fn jubilacion_civil(today: Date, birth: Option<Date>, mi: Option<u32>) -> (r: (
    Option<String>,
    Option<u32>,
))
    ensures
        mi is None ==> r.0 is None && r.1 is None,
        mi matches Some(m) ==> {
            let at = add_months_ymd(today, m as int);
            &&& r.0 matches Some(s) && s@ == ymd_text(at.0, at.1, at.2)
            &&& match birth {
                Some(b) => r.1 == Some(completed_years(at, ymd(b)) as u32),
                None => r.1 is None,
            }
        },
{
    match mi {
        None => (None, None),
        Some(m) => {
            let at = proj_add_months(today, m);
            let age = match birth {
                Some(b) => Some(age_completed_years(at, b) as u32),
                None => None,
            };
            (Some(date_text(at)), age)
        },
    }
}

/// The most years left until `lifespan` among the known birth dates (each at least 0), or `None`
/// when no birth date is known.
pub open spec fn max_remaining_years(births: Seq<Option<Date>>, today: Date, lifespan: int) -> Option<
    int,
>
    decreases births.len(),
{
    if births.len() == 0 {
        None
    } else {
        let prev = max_remaining_years(births.drop_last(), today, lifespan);
        match births.last() {
            None => prev,
            Some(b) => {
                let rem = if lifespan - completed_years(ymd(today), ymd(b)) > 0 {
                    lifespan - completed_years(ymd(today), ymd(b))
                } else {
                    0
                };
                match prev {
                    None => Some(rem),
                    Some(m) => Some(
                        if m < rem {
                            rem
                        } else {
                            m
                        },
                    ),
                }
            },
        }
    }
}

/// The horizon in months: the most years anyone has left until `lifespan`, clamped into
/// `[5, 70]` years, or 30 years when no birth date is known.
pub open spec fn horizon_months_of(births: Seq<Option<Date>>, today: Date, lifespan: int) -> int {
    match max_remaining_years(births, today, lifespan) {
        None => 360int,
        Some(y) => 12 * (if y < 5 {
            5
        } else if y > 70 {
            70
        } else {
            y
        }),
    }
}

/// The years a member born on `b` has left until `lifespan` (none past it).
pub open spec fn years_left(b: Date, today: Date, lifespan: int) -> int {
    if lifespan - completed_years(ymd(today), ymd(b)) > 0 {
        lifespan - completed_years(ymd(today), ymd(b))
    } else {
        0
    }
}

/// Law: the horizon follows the member with the most years left. With a birth date known, the
/// years used are those of one member and at least those of every member; with none known, the
/// horizon is 30 years. It is always a whole number of years between 5 and 70.
pub proof fn law_horizon_follows_the_longest_life(births: Seq<Option<Date>>, today: Date, lifespan: int)
    ensures
        max_remaining_years(births, today, lifespan) is None <==> forall|i: int|
            0 <= i < births.len() ==> (#[trigger] births[i]) is None,
        max_remaining_years(births, today, lifespan) matches Some(y) ==> (forall|i: int|
            0 <= i < births.len() && (#[trigger] births[i]) is Some ==> years_left(
                births[i].unwrap(),
                today,
                lifespan,
            ) <= y) && (exists|i: int|
            0 <= i < births.len() && (#[trigger] births[i]) is Some && years_left(
                births[i].unwrap(),
                today,
                lifespan,
            ) == y),
        max_remaining_years(births, today, lifespan) is None ==> horizon_months_of(
            births,
            today,
            lifespan,
        ) == 360,
        horizon_months_of(births, today, lifespan) % 12 == 0,
        60 <= horizon_months_of(births, today, lifespan) <= 840,
    decreases births.len(),
{
    if births.len() > 0 {
        let init = births.drop_last();
        law_horizon_follows_the_longest_life(init, today, lifespan);
        assert forall|i: int| #![trigger births[i]] 0 <= i < init.len() implies init[i] == births[i] by {}
        assert(births[births.len() - 1] == births.last());
        if max_remaining_years(births, today, lifespan) is None {
            assert forall|i: int| 0 <= i < births.len() implies (#[trigger] births[i]) is None by {
                if i < init.len() {
                    assert(init[i] == births[i]);
                }
            }
        }
        if let Some(y) = max_remaining_years(births, today, lifespan) {
            assert forall|i: int|
                0 <= i < births.len() && (#[trigger] births[i]) is Some implies years_left(
                births[i].unwrap(),
                today,
                lifespan,
            ) <= y by {
                if i < init.len() {
                    assert(init[i] == births[i]);
                }
            }
            if let Some(m) = max_remaining_years(init, today, lifespan) {
                if births.last() is Some {
                    let r = years_left(births.last().unwrap(), today, lifespan);
                    if m < r {
                        assert(births[births.len() - 1] is Some);
                    } else {
                        let w = choose|i: int|
                            0 <= i < init.len() && (#[trigger] init[i]) is Some && years_left(
                                init[i].unwrap(),
                                today,
                                lifespan,
                            ) == m;
                        assert(births[w] == init[w]);
                    }
                } else {
                    let w = choose|i: int|
                        0 <= i < init.len() && (#[trigger] init[i]) is Some && years_left(
                            init[i].unwrap(),
                            today,
                            lifespan,
                        ) == m;
                    assert(births[w] == init[w]);
                }
            } else {
                assert(births[births.len() - 1] is Some);
            }
        }
    }
}

/// The horizon (months) and its basis: `lifespan_age` from the birth dates, or
/// `fallback_no_demographics` with 30 years when there is none.
pub fn projection_horizon_months(today: Date, birth_dates: &Vec<Option<Date>>, lifespan_age: u32) -> (r: (
    u32,
    &'static str,
))
    requires
        lifespan_age <= i32::MAX,
    ensures
        r.0 == horizon_months_of(birth_dates@, today, lifespan_age as int),
        max_remaining_years(birth_dates@, today, lifespan_age as int) is None ==> r.1@
            == "fallback_no_demographics"@,
        max_remaining_years(birth_dates@, today, lifespan_age as int) is Some ==> r.1@
            == "lifespan_age"@,
        60 <= r.0 <= 840,
{
    let mut max_remaining: Option<i32> = None;
    let mut i: usize = 0;
    while i < birth_dates.len()
        invariant
            0 <= i <= birth_dates.len(),
            lifespan_age <= i32::MAX,
            match max_remaining_years(birth_dates@.take(i as int), today, lifespan_age as int) {
                None => max_remaining is None,
                Some(m) => max_remaining == Some(m as i32) && 0 <= m <= i32::MAX,
            },
        decreases birth_dates.len() - i,
    {
        assert(birth_dates@.take(i + 1).drop_last() =~= birth_dates@.take(i as int));
        assert(birth_dates@.take(i + 1).last() == birth_dates@[i as int]);
        if let Some(birth) = birth_dates[i] {
            let age = age_completed_years(today, birth);
            let diff: i32 = lifespan_age as i32 - age;
            let rem: i32 = if diff > 0 {
                diff
            } else {
                0
            };
            max_remaining = match max_remaining {
                None => Some(rem),
                Some(m) => Some(
                    if m < rem {
                        rem
                    } else {
                        m
                    },
                ),
            };
        }
        i = i + 1;
    }
    assert(birth_dates@.take(birth_dates.len() as int) =~= birth_dates@);
    match max_remaining {
        None => (360, "fallback_no_demographics"),
        Some(y) => {
            let years: u32 = if y < 5 {
                5
            } else if y > 70 {
                70
            } else {
                y as u32
            };
            (years * 12, "lifespan_age")
        },
    }
}

/// The completed age, on grid month `m`, of someone born on `birth`.
pub open spec fn age_at(today: Date, birth: Date, m: int) -> int {
    completed_years(add_months_ymd(today, m), ymd(birth))
}

proof fn lemma_completed_nonneg(t: (int, int, int), b: (int, int, int))
    ensures
        completed_years(t, b) >= 0,
{
}

/// Completed years never go down as the date moves forward.
proof fn lemma_completed_monotone(t1: (int, int, int), t2: (int, int, int), b: (int, int, int))
    requires
        ymd_le(t1.0, t1.1, t1.2, t2.0, t2.1, t2.2),
    ensures
        completed_years(t1, b) <= completed_years(t2, b),
{
    lemma_completed_nonneg(t2, b);
}

/// A shift of `n` months from a valid date stays in range while the target year does.
proof fn lemma_shift_in_range(d: Date, n: int)
    requires
        valid_ymd(d.year(), d.month(), d.day()),
        0 <= n,
        d.year() + (n + 11) / 12 <= max_year(),
    ensures
        months_later(d, n) is Some,
        add_months_ymd(d, n).0 == crate::date::shifted_year(d.year(), d.month(), n),
        add_months_ymd(d, n).1 == crate::date::shifted_month(d.year(), d.month(), n),
        d.year() + n / 12 <= add_months_ymd(d, n).0 <= d.year() + (n + 11) / 12,
{
    let i = d.year() * 12 + d.month() - 1 + n;
    assert(i / 12 >= d.year() + n / 12) by {
        vstd::arithmetic::div_mod::lemma_div_is_ordered(d.year() * 12 + n, i, 12);
        vstd::arithmetic::div_mod::lemma_fundamental_div_mod(n, 12);
        assert(d.year() * 12 + n == (d.year() + n / 12) * 12 + n % 12) by (nonlinear_arith)
            requires
                n == 12 * (n / 12) + n % 12,
        ;
        vstd::arithmetic::div_mod::lemma_div_multiples_vanish_fancy(
            d.year() + n / 12,
            n % 12,
            12,
        );
    }
    assert(i / 12 <= d.year() + (n + 11) / 12) by {
        vstd::arithmetic::div_mod::lemma_div_is_ordered(i, d.year() * 12 + n + 11, 12);
        vstd::arithmetic::div_mod::lemma_fundamental_div_mod(n + 11, 12);
        assert(d.year() * 12 + n + 11 == (d.year() + (n + 11) / 12) * 12 + (n + 11) % 12)
            by (nonlinear_arith)
            requires
                n + 11 == 12 * ((n + 11) / 12) + (n + 11) % 12,
        ;
        vstd::arithmetic::div_mod::lemma_div_multiples_vanish_fancy(
            d.year() + (n + 11) / 12,
            (n + 11) % 12,
            12,
        );
    }
}

/// Later shifts give later (or equal) dates.
proof fn lemma_shift_monotone(d: Date, n1: int, n2: int)
    requires
        valid_ymd(d.year(), d.month(), d.day()),
        0 <= n1 <= n2,
        d.year() + (n2 + 11) / 12 <= max_year(),
    ensures
        ymd_le(
            add_months_ymd(d, n1).0,
            add_months_ymd(d, n1).1,
            add_months_ymd(d, n1).2,
            add_months_ymd(d, n2).0,
            add_months_ymd(d, n2).1,
            add_months_ymd(d, n2).2,
        ),
{
    assert((n1 + 11) / 12 <= (n2 + 11) / 12) by {
        vstd::arithmetic::div_mod::lemma_div_is_ordered(n1 + 11, n2 + 11, 12);
    }
    lemma_shift_in_range(d, n1);
    lemma_shift_in_range(d, n2);
    let i1 = d.year() * 12 + d.month() - 1 + n1;
    let i2 = d.year() * 12 + d.month() - 1 + n2;
    vstd::arithmetic::div_mod::lemma_fundamental_div_mod(i1, 12);
    vstd::arithmetic::div_mod::lemma_fundamental_div_mod(i2, 12);
    vstd::arithmetic::div_mod::lemma_div_is_ordered(i1, i2, 12);
    if n1 == n2 {
    } else {
        assert(i1 < i2);
    }
}

/// Age on grid months never goes down.
proof fn lemma_age_at_monotone(today: Date, birth: Date, m1: int, m2: int)
    requires
        valid_ymd(today.year(), today.month(), today.day()),
        0 <= m1 <= m2,
        today.year() + (m2 + 11) / 12 <= max_year(),
    ensures
        age_at(today, birth, m1) <= age_at(today, birth, m2),
{
    lemma_shift_monotone(today, m1, m2);
    lemma_completed_monotone(add_months_ymd(today, m1), add_months_ymd(today, m2), ymd(birth));
}

/// Between two dates at most one calendar year apart in their year numbers, and in order, the
/// completed age grows by at most one.
proof fn lemma_completed_step(t1: (int, int, int), t2: (int, int, int), b: (int, int, int))
    requires
        ymd_le(t1.0, t1.1, t1.2, t2.0, t2.1, t2.2),
        t2.0 <= t1.0 + 1,
        t2.0 == t1.0 + 1 ==> t1.1 == 12 && t2.1 == 1,
        1 <= b.1 <= 12,
    ensures
        completed_years(t2, b) <= completed_years(t1, b) + 1,
{
}

/// One grid month later the completed age grows by at most one.
proof fn lemma_age_at_step(today: Date, birth: Date, m: int)
    requires
        valid_ymd(today.year(), today.month(), today.day()),
        valid_ymd(birth.year(), birth.month(), birth.day()),
        0 <= m,
        today.year() + (m + 12) / 12 <= max_year(),
    ensures
        age_at(today, birth, m + 1) <= age_at(today, birth, m) + 1,
{
    lemma_shift_monotone(today, m, m + 1);
    lemma_shift_in_range(today, m);
    lemma_shift_in_range(today, m + 1);
    let i = today.year() * 12 + today.month() - 1 + m;
    vstd::arithmetic::div_mod::lemma_fundamental_div_mod(i, 12);
    vstd::arithmetic::div_mod::lemma_fundamental_div_mod(i + 1, 12);
    lemma_completed_step(add_months_ymd(today, m), add_months_ymd(today, m + 1), ymd(birth));
}

/// The grid month by which the age is certainly reached.
pub open spec fn age_witness(today: Date, birth: Date, age: int) -> int {
    12 * (age + birth.year() - today.year() + 1)
}

proof fn lemma_witness_reaches_age(today: Date, birth: Date, age: int)
    requires
        valid_ymd(today.year(), today.month(), today.day()),
        0 <= age,
        birth.year() + age + 2 <= max_year(),
        age_witness(today, birth, age) > 0,
    ensures
        age_at(today, birth, age_witness(today, birth, age)) >= age,
        today.year() + (age_witness(today, birth, age) + 11) / 12 <= max_year(),
{
    let w = age_witness(today, birth, age);
    let k = age + birth.year() - today.year() + 1;
    assert(w / 12 == k);
    assert((w + 11) / 12 == k);
    lemma_shift_in_range(today, w);
}

/// **The grid month in which someone born on `birth` reaches `age`**: the least `m` whose civil
/// date (`m` months after `today`, keeping its day) has them at `age` completed years; 0 when
/// they already are.
pub fn months_until_target_age(today: Date, birth: Date, age: u32) -> (r: u32)
    requires
        birth.year() + age + 2 <= max_year(),
        today.year() + age + 2 <= max_year(),
    ensures
        age_at(today, birth, r as int) >= age,
        forall|m: int| 0 <= m < r ==> #[trigger] age_at(today, birth, m) < age,
        r > 0 ==> age_at(today, birth, r as int) == age,
        r < u32::MAX,
{
    today.bounds();
    birth.bounds();
    let target = age as i32;
    let hoy = age_completed_years(today, birth);
    proof {
        assert(add_months_ymd(today, 0) == ymd(today)) by {
            lemma_shift_in_range(today, 0);
        }
    }
    if hoy >= target {
        return 0;
    }
    let ghost w = age_witness(today, birth, age as int);
    proof {
        if w <= 0 {
            assert(today.year() >= birth.year() + age + 1);
            assert(false);
        }
        lemma_witness_reaches_age(today, birth, age as int);
    }
    let diff = (target - hoy) as u32;
    let m0: u32 = diff * 12;
    let mut m: u32 = m0;
    while m > 0 && age_completed_years(proj_add_months(today, m - 1), birth) >= target
        invariant
            m <= m0,
            m0 <= 12 * (age as int),
            valid_ymd(today.year(), today.month(), today.day()),
            today.year() + age + 2 <= max_year(),
            target == age,
        decreases m,
    {
        m = m - 1;
    }
    proof {
        assert((m as int + 11) / 12 <= age + 1);
        if m > 0 {
            assert(age_at(today, birth, m - 1) < age);
            assert forall|k: int| 0 <= k < m implies #[trigger] age_at(today, birth, k) < age by {
                lemma_age_at_monotone(today, birth, k, m - 1);
            }
        }
        if m > w {
            lemma_age_at_monotone(today, birth, w, m - 1);
        }
    }
    while age_completed_years(proj_add_months(today, m), birth) < target
        invariant
            forall|k: int| 0 <= k < m ==> #[trigger] age_at(today, birth, k) < age,
            m <= w,
            age_at(today, birth, w) >= age,
            w <= 12 * (birth.year() + age + 1 - today.year()),
            today.year() + (w + 11) / 12 <= max_year(),
            valid_ymd(today.year(), today.month(), today.day()),
            target == age,
            w < u32::MAX,
        decreases w - m,
    {
        proof {
            if m == w {
                assert(false);
            }
        }
        m = m + 1;
    }
    proof {
        if m > 0 {
            lemma_age_at_step(today, birth, m - 1);
        }
    }
    m
}

/// `(year * 12 + month)` of a date: consecutive months have consecutive indices.
pub open spec fn month_index_of(t: (int, int, int)) -> int {
    t.0 * 12 + t.1
}

/// Months from the anchor's month to the month of `d` (negative when earlier).
pub open spec fn month_offset(anchor: Date, d: Date) -> int {
    month_index_of(ymd(d)) - month_index_of(ymd(anchor))
}

/// Shifting the first of a month by `n` months lands on the first of the month `n` later.
pub proof fn lemma_first_shift(a: Date, n: int)
    requires
        valid_ymd(a.year(), a.month(), a.day()),
        a.day() == 1,
        0 <= n,
        a.year() + (n + 11) / 12 <= max_year(),
    ensures
        add_months_ymd(a, n).2 == 1,
        month_index_of(add_months_ymd(a, n)) == month_index_of(ymd(a)) + n,
        1 <= add_months_ymd(a, n).1 <= 12,
        valid_ymd(add_months_ymd(a, n).0, add_months_ymd(a, n).1, add_months_ymd(a, n).2),
{
    lemma_shift_in_range(a, n);
    let i = a.year() * 12 + a.month() - 1 + n;
    vstd::arithmetic::div_mod::lemma_fundamental_div_mod(i, 12);
}

/// The last day of the month that starts at `x` is the month's length.
pub proof fn lemma_month_last(x: Date)
    requires
        valid_ymd(x.year(), x.month(), x.day()),
        x.day() == 1,
        x.year() < max_year(),
    ensures
        month_last_ymd(x) == (x.year(), x.month(), crate::date::days_in_month(x.year(), x.month())),
{
    lemma_shift_in_range(x, 1);
    let i = x.year() * 12 + x.month();
    vstd::arithmetic::div_mod::lemma_fundamental_div_mod(i, 12);
    if x.month() < 12 {
        assert(i / 12 == x.year()) by {
            vstd::arithmetic::div_mod::lemma_div_multiples_vanish_fancy(x.year(), x.month(), 12);
        }
    } else {
        assert(i / 12 == x.year() + 1) by {
            vstd::arithmetic::div_mod::lemma_div_multiples_vanish_fancy(x.year() + 1, 0, 12);
        }
    }
}

} // verus!
