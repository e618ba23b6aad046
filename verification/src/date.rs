//! Civil dates of the proleptic Gregorian calendar, in the range `chrono::NaiveDate` covers.
//! Month and day arithmetic is `chrono`'s; order, ages and month-first/last are stated over the
//! `(year, month, day)` fields.
use chrono::{Datelike, Duration, Months, NaiveDate};
use crate::text::decimal_text;
use vstd::prelude::*;

verus! {

pub open spec fn min_year() -> int {
    -262143
}

pub open spec fn max_year() -> int {
    262142
}

pub open spec fn is_leap(y: int) -> bool {
    (y % 4 == 0 && y % 100 != 0) || y % 400 == 0
}

pub open spec fn days_in_month(y: int, m: int) -> int {
    if m == 2 {
        if is_leap(y) {
            29
        } else {
            28
        }
    } else if m == 4 || m == 6 || m == 9 || m == 11 {
        30
    } else {
        31
    }
}

pub open spec fn valid_ymd(y: int, m: int, d: int) -> bool {
    &&& min_year() <= y <= max_year()
    &&& 1 <= m <= 12
    &&& 1 <= d <= days_in_month(y, m)
}

/// Days of the years before `y` (the count is anchored at the start of year 1).
pub open spec fn days_before_year(y: int) -> int {
    365 * (y - 1) + (y - 1) / 4 - (y - 1) / 100 + (y - 1) / 400
}

/// Days of the months of year `y` before month `m`.
pub open spec fn days_before_month(y: int, m: int) -> int
    decreases m,
{
    if m <= 1 {
        0
    } else {
        days_before_month(y, m - 1) + days_in_month(y, m - 1)
    }
}

/// The serial day number of a date: consecutive dates have consecutive numbers.
pub open spec fn day_number(y: int, m: int, d: int) -> int {
    days_before_year(y) + days_before_month(y, m) + d
}

/// Lexicographic order of `(year, month, day)`, which is the order of the calendar.
pub open spec fn ymd_le(y1: int, m1: int, d1: int, y2: int, m2: int, d2: int) -> bool {
    y1 < y2 || (y1 == y2 && (m1 < m2 || (m1 == m2 && d1 <= d2)))
}

/// The month reached `n` months after `(y, m)`: its year and month.
pub open spec fn shifted_year(y: int, m: int, n: int) -> int {
    (y * 12 + m - 1 + n) / 12
}

pub open spec fn shifted_month(y: int, m: int, n: int) -> int {
    (y * 12 + m - 1 + n) % 12 + 1
}

/// The day kept when moving `n` months: the same day, cut to the length of the new month.
pub open spec fn shifted_day(y: int, m: int, d: int, n: int) -> int {
    let dim = days_in_month(shifted_year(y, m, n), shifted_month(y, m, n));
    if d > dim {
        dim
    } else {
        d
    }
}

/// `t` with zeros in front up to `width` characters.
pub open spec fn zero_padded(t: Seq<char>, width: nat) -> Seq<char>
    decreases width - t.len(),
{
    if t.len() >= width {
        t
    } else {
        zero_padded(seq!['0'] + t, width)
    }
}

/// The year as `chrono` writes `%Y`: four digits, zero-padded, for the years 0 to 9999; an
/// explicit sign and at least four digits outside them.
pub open spec fn year_text(y: int) -> Seq<char> {
    if 0 <= y <= 9999 {
        zero_padded(decimal_text(y as nat), 4)
    } else if y > 9999 {
        seq!['+'] + decimal_text(y as nat)
    } else {
        seq!['-'] + zero_padded(decimal_text((-y) as nat), 4)
    }
}

/// The text `chrono` formats for a date with `"%Y-%m-%d"`: the year, then the month and the day
/// as two zero-padded digits each, separated by hyphens.
pub open spec fn ymd_text(y: int, m: int, d: int) -> Seq<char> {
    year_text(y) + seq!['-'] + zero_padded(decimal_text(m as nat), 2) + seq!['-'] + zero_padded(
        decimal_text(d as nat),
        2,
    )
}

/// A civil date.
#[derive(Clone, Copy, Debug, PartialEq, Eq, Structural)]
pub struct Date {
    y: i32,
    m: u32,
    d: u32,
}

impl Date {
    #[verifier::type_invariant]
    spec fn inv(self) -> bool {
        valid_ymd(self.y as int, self.m as int, self.d as int)
    }

    pub closed spec fn year(self) -> int {
        self.y as int
    }

    pub closed spec fn month(self) -> int {
        self.m as int
    }

    pub closed spec fn day(self) -> int {
        self.d as int
    }

    /// The first day of the month of `self`.
    pub closed spec fn first_of(self) -> Date {
        Date { y: self.y, m: self.m, d: 1 }
    }

    pub open spec fn number(self) -> int {
        day_number(self.year(), self.month(), self.day())
    }

    pub open spec fn le(self, other: Date) -> bool {
        ymd_le(self.year(), self.month(), self.day(), other.year(), other.month(), other.day())
    }

    pub open spec fn lt(self, other: Date) -> bool {
        !other.le(self)
    }

    pub open spec fn is_ymd(self, y: int, m: int, d: int) -> bool {
        self.year() == y && self.month() == m && self.day() == d
    }

    /// The field bounds every date satisfies.
    pub fn bounds(&self)
        ensures
            valid_ymd(self.year(), self.month(), self.day()),
    {
        proof {
            use_type_invariant(self);
        }
    }

    /// The date `y-m-d`, or `None` when it does not exist (`NaiveDate::from_ymd_opt`).
    pub fn from_ymd_opt(y: i32, m: u32, d: u32) -> (r: Option<Date>)
        ensures
            r is Some <==> valid_ymd(y as int, m as int, d as int),
            r matches Some(x) ==> x.is_ymd(y as int, m as int, d as int),
    {
        if y < -262143 || y > 262142 || m < 1 || m > 12 || d < 1 {
            return None;
        }
        let dim = month_length(y, m);
        if d > dim {
            None
        } else {
            Some(Date { y, m, d })
        }
    }

    pub fn year_i32(&self) -> (r: i32)
        ensures
            r == self.year(),
    {
        self.y
    }

    pub fn month_u32(&self) -> (r: u32)
        ensures
            r == self.month(),
    {
        self.m
    }

    pub fn day_u32(&self) -> (r: u32)
        ensures
            r == self.day(),
    {
        self.d
    }
}

/// The number of days of month `m` of year `y`.
pub fn month_length(y: i32, m: u32) -> (r: u32)
    requires
        1 <= m <= 12,
    ensures
        r == days_in_month(y as int, m as int),
{
    if m == 2 {
        if (y % 4 == 0 && y % 100 != 0) || y % 400 == 0 {
            29
        } else {
            28
        }
    } else if m == 4 || m == 6 || m == 9 || m == 11 {
        30
    } else {
        31
    }
}

/// `a <= b` in the calendar (the order of `NaiveDate`).
pub fn date_le(a: Date, b: Date) -> (r: bool)
    ensures
        r == a.le(b),
{
    a.y < b.y || (a.y == b.y && (a.m < b.m || (a.m == b.m && a.d <= b.d)))
}

/// `Ord::max` on dates: the second argument unless the first is later.
pub fn date_max(a: Date, b: Date) -> (r: Date)
    ensures
        r == (if b.lt(a) {
            a
        } else {
            b
        }),
{
    if !date_le(a, b) {
        a
    } else {
        b
    }
}

/// `Ord::min` on dates: the first argument unless the second is earlier.
pub fn date_min(a: Date, b: Date) -> (r: Date)
    ensures
        r == (if b.lt(a) {
            b
        } else {
            a
        }),
{
    if !date_le(a, b) {
        b
    } else {
        a
    }
}

/// The first day of the month of `d`.
pub fn month_first(d: Date) -> (r: Date)
    ensures
        r.is_ymd(d.year(), d.month(), 1),
        r == d.first_of(),
{
    proof {
        use_type_invariant(&d);
    }
    Date { y: d.y, m: d.m, d: 1 }
}

/// The `(year, month, day)` of an optional date.
pub open spec fn opt_ymd(r: Option<Date>) -> Option<(int, int, int)> {
    match r {
        Some(x) => Some((x.year(), x.month(), x.day())),
        None => None,
    }
}

/// The date `n` months after `d` as `chrono` computes it: the same day cut to the length of the
/// new month, or `None` when that leaves the supported range.
pub open spec fn months_later(d: Date, n: int) -> Option<(int, int, int)> {
    let ny = shifted_year(d.year(), d.month(), n);
    if n <= i32::MAX as int && d.year() * 12 + d.month() - 1 + n <= i32::MAX as int && min_year()
        <= ny <= max_year() {
        Some((ny, shifted_month(d.year(), d.month(), n), shifted_day(d.year(), d.month(), d.day(), n)))
    } else {
        None
    }
}

/// The day before the date `(y, m, d)`, or `None` before the first supported day.
pub open spec fn ymd_before(t: (int, int, int)) -> Option<(int, int, int)> {
    let (y, m, d) = t;
    if d > 1 {
        Some((y, m, d - 1))
    } else if m > 1 {
        Some((y, m - 1, days_in_month(y, m - 1)))
    } else if y > min_year() {
        Some((y - 1, 12, 31))
    } else {
        None
    }
}

/// The day before `d`, or `None` before the first supported day.
pub open spec fn day_before(d: Date) -> Option<(int, int, int)> {
    ymd_before((d.year(), d.month(), d.day()))
}

/// `d.checked_add_months(Months::new(n))`: `n` months later, the day cut to the length of the
/// new month; `None` when the result leaves the range of `NaiveDate`.
#[verifier::external_body]
pub(crate) fn date_checked_add_months(d: Date, n: u32) -> (r: Option<Date>)
    ensures
        opt_ymd(r) == months_later(d, n as int),
{
    NaiveDate::from_ymd_opt(d.y, d.m, d.d).unwrap().checked_add_months(Months::new(n)).map(
        |x| Date { y: x.year(), m: x.month(), d: x.day() },
    )
}

/// `d.pred_opt()`: the day before.
#[verifier::external_body]
pub(crate) fn date_pred(d: Date) -> (r: Option<Date>)
    ensures
        opt_ymd(r) == day_before(d),
{
    NaiveDate::from_ymd_opt(d.y, d.m, d.d).unwrap().pred_opt().map(
        |x| Date { y: x.year(), m: x.month(), d: x.day() },
    )
}

/// `d.checked_add_signed(Duration::days(n))`: the date `n` days later. Called only away from
/// the ends of the range, where it always exists.
#[verifier::external_body]
pub(crate) fn date_add_days(d: Date, n: i64) -> (r: Date)
    requires
        min_year() < d.year() < max_year(),
        -366 <= n <= 366,
    ensures
        r.number() == d.number() + n,
{
    let x = NaiveDate::from_ymd_opt(d.y, d.m, d.d).unwrap().checked_add_signed(Duration::days(n)).unwrap();
    Date { y: x.year(), m: x.month(), d: x.day() }
}

/// `b.signed_duration_since(a).num_days()`: the whole days from `a` to `b`.
#[verifier::external_body]
pub(crate) fn days_between(a: Date, b: Date) -> (r: i64)
    ensures
        r == b.number() - a.number(),
{
    NaiveDate::from_ymd_opt(b.y, b.m, b.d).unwrap().signed_duration_since(
        NaiveDate::from_ymd_opt(a.y, a.m, a.d).unwrap(),
    ).num_days()
}

/// The name of the date `chrono` reads out of a text (`NaiveDate::from_str`), `None` when it
/// refuses it.
pub uninterp spec fn date_of_text(text: Seq<char>) -> Option<(int, int, int)>;

/// `text.parse::<NaiveDate>()`: the calendar date written as `YYYY-MM-DD`, or `None`.
#[verifier::external_body]
pub(crate) fn date_parse(text: &str) -> (r: Option<Date>)
    ensures
        opt_ymd(r) == date_of_text(text@),
{
    match text.parse::<NaiveDate>() {
        Ok(x) => Some(Date { y: x.year(), m: x.month(), d: x.day() }),
        Err(_) => None,
    }
}

/// `d.format("%Y-%m-%d").to_string()`.
#[verifier::external_body]
pub(crate) fn date_text(d: Date) -> (r: String)
    ensures
        r@ == ymd_text(d.year(), d.month(), d.day()),
{
    NaiveDate::from_ymd_opt(d.y, d.m, d.d).unwrap().format("%Y-%m-%d").to_string()
}

// ---------------------------------------------------------------------------------------------
// Facts about day numbers
// ---------------------------------------------------------------------------------------------

pub open spec fn year_length(y: int) -> int {
    if is_leap(y) {
        366
    } else {
        365
    }
}

proof fn lemma_days_before_month_bounds(y: int, m: int)
    requires
        1 <= m <= 13,
    ensures
        days_before_month(y, m) >= 0,
        m <= 12 ==> days_before_month(y, m) + days_in_month(y, m) <= year_length(y),
        m == 13 ==> days_before_month(y, m) == year_length(y),
    decreases m,
{
    if m > 1 {
        lemma_days_before_month_bounds(y, m - 1);
    }
    reveal_with_fuel(days_before_month, 13);
}

proof fn lemma_days_before_month_monotone(y: int, m1: int, m2: int)
    requires
        1 <= m1 <= m2 <= 13,
    ensures
        days_before_month(y, m1) + (if m1 < m2 {
            days_in_month(y, m1)
        } else {
            0
        }) <= days_before_month(y, m2),
    decreases m2 - m1,
{
    if m1 < m2 {
        if m1 + 1 < m2 {
            lemma_days_before_month_monotone(y, m1 + 1, m2);
        }
    }
}

proof fn lemma_year_step(y: int)
    ensures
        days_before_year(y + 1) == days_before_year(y) + year_length(y),
{
    assert(y / 4 - (y - 1) / 4 == (if y % 4 == 0 {
        1int
    } else {
        0
    })) by {
        vstd::arithmetic::div_mod::lemma_fundamental_div_mod(y, 4);
        vstd::arithmetic::div_mod::lemma_fundamental_div_mod(y - 1, 4);
    }
    assert(y / 100 - (y - 1) / 100 == (if y % 100 == 0 {
        1int
    } else {
        0
    })) by {
        vstd::arithmetic::div_mod::lemma_fundamental_div_mod(y, 100);
        vstd::arithmetic::div_mod::lemma_fundamental_div_mod(y - 1, 100);
    }
    assert(y / 400 - (y - 1) / 400 == (if y % 400 == 0 {
        1int
    } else {
        0
    })) by {
        vstd::arithmetic::div_mod::lemma_fundamental_div_mod(y, 400);
        vstd::arithmetic::div_mod::lemma_fundamental_div_mod(y - 1, 400);
    }
    assert(y % 400 == 0 ==> y % 100 == 0) by {
        if y % 400 == 0 {
            vstd::arithmetic::div_mod::lemma_fundamental_div_mod(y, 400);
            vstd::arithmetic::div_mod::lemma_mod_multiples_vanish(y / 400 * 4, 0, 100);
            assert(y == 400 * (y / 400));
            assert(y == 100 * (4 * (y / 400))) by (nonlinear_arith)
                requires
                    y == 400 * (y / 400),
            ;
            vstd::arithmetic::div_mod::lemma_mod_multiples_basic(4 * (y / 400), 100);
        }
    }
    assert(y % 100 == 0 ==> y % 4 == 0) by {
        if y % 100 == 0 {
            vstd::arithmetic::div_mod::lemma_fundamental_div_mod(y, 100);
            assert(y == 4 * (25 * (y / 100))) by (nonlinear_arith)
                requires
                    y == 100 * (y / 100),
            ;
            vstd::arithmetic::div_mod::lemma_mod_multiples_basic(25 * (y / 100), 4);
        }
    }
}

proof fn lemma_year_monotone(y1: int, y2: int)
    requires
        y1 < y2,
    ensures
        days_before_year(y1) + year_length(y1) <= days_before_year(y2),
    decreases y2 - y1,
{
    lemma_year_step(y1);
    if y1 + 1 < y2 {
        lemma_year_monotone(y1 + 1, y2);
    }
}

/// The calendar order and the day numbers agree.
pub proof fn lemma_number_monotone(a: Date, b: Date)
    requires
        valid_ymd(a.year(), a.month(), a.day()),
        valid_ymd(b.year(), b.month(), b.day()),
        a.le(b),
    ensures
        a.number() <= b.number(),
{
    lemma_days_before_month_bounds(a.year(), a.month());
    lemma_days_before_month_bounds(b.year(), b.month());
    if a.year() < b.year() {
        lemma_year_monotone(a.year(), b.year());
    } else if a.month() < b.month() {
        lemma_days_before_month_monotone(a.year(), a.month(), b.month());
    }
}

/// Day numbers of valid dates stay well inside 64 bits.
pub proof fn lemma_number_range(a: Date)
    requires
        valid_ymd(a.year(), a.month(), a.day()),
    ensures
        -200_000_000 <= a.number() <= 200_000_000,
{
    lemma_days_before_month_bounds(a.year(), a.month());
    let y = a.year() - 1;
    assert(-100_000 <= y / 4 <= 100_000);
    assert(-10_000 <= y / 100 <= 10_000);
    assert(-1_000 <= y / 400 <= 1_000);
}

/// Strictly earlier dates have strictly smaller day numbers.
pub proof fn lemma_number_strict(a: Date, b: Date)
    requires
        valid_ymd(a.year(), a.month(), a.day()),
        valid_ymd(b.year(), b.month(), b.day()),
        a.lt(b),
    ensures
        a.number() < b.number(),
{
    lemma_days_before_month_bounds(a.year(), a.month());
    lemma_days_before_month_bounds(b.year(), b.month());
    if a.year() < b.year() {
        lemma_year_monotone(a.year(), b.year());
    } else if a.month() < b.month() {
        lemma_days_before_month_monotone(a.year(), a.month(), b.month());
    }
}

} // verus!
