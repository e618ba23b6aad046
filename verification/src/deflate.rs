//! Nominal euros of a future month and euros of today: the deflator of a grid month, the real
//! growth factor, the deflated net-worth points and the served conversion in both directions.
use crate::calendar::{add_months_ymd, month_index_of, proj_add_months, proj_month_first, ymd};
use crate::date::{date_text, ymd_text, Date};
use crate::decimal::{
    abs, dec_add, dec_checked_div, dec_div, dec_mul, dec_powd, dec_round_dp, decimal_powd,
    decimal_round_dp, one_unit, rel_tolerance, safe_units, Dec,
};
use crate::plan::{money_of, money_out};
use crate::planning::{product_of, quotient_of, sum_of};
use crate::series::RequestError;
use vstd::prelude::*;
use vstd::string::StringExecFns;

verus! {

/// The furthest month a conversion may name (the longest horizon).
pub const MAX_DEFLATE_MONTH_INDEX: u32 = 840;

pub const DEFLATE_MODEL_NOTE: &'static str = "Capa de PRESENTACIÓN: convierte un importe ya calculado, no simula nada. El motor de proyección capitaliza siempre en euros NOMINALES y solo el objetivo FIRE se ajusta por inflación; deflactar aquí no cambia ninguna proyección, ningún mes de jubilación y ninguna cascada. Usa la asunción `annual_inflation_assumption_percent` de la instalación, así que dos llamadas con inflaciones distintas NO son comparables. Di siempre en qué euros está la cifra que cites.";

/// `base.powd(exp)` as `rust_decimal` approximates it.
pub open spec fn power_of(base: Dec, exp: Dec) -> Dec {
    let p = decimal_powd(base.mantissa(), base.scale(), exp.mantissa(), exp.scale());
    Dec::of(p.0, p.1)
}

/// `(1 + percent/100)^(k/12)`, the yearly rate compounded over `k` months.
pub open spec fn growth_of(percent: Dec, k: int) -> Dec {
    power_of(
        sum_of(Dec::of(1, 0), quotient_of(percent, Dec::of(100, 0))),
        quotient_of(Dec::of(k, 0), Dec::of(12, 0)),
    )
}

/// The factor that takes a nominal amount of grid month `k` to today's euros:
/// `1 / (1 + inflation%)^(k/12)`, exactly one with no inflation or at month 0.
pub open spec fn deflator_of(inflation: Dec, k: int) -> Dec {
    if inflation.units() == 0 || k == 0 {
        Dec::of(1, 0)
    } else {
        quotient_of(Dec::of(1, 0), growth_of(inflation, k))
    }
}

/// The yearly rates this module accepts: from -10 % to 100 %.
pub open spec fn rate_in_range(percent: Dec) -> bool {
    -10 * one_unit() <= percent.units() <= 100 * one_unit()
}

/// A quotient by the whole number `k`, `q` units, is within `|a|/10^26 + k` of the exact
/// `a / k`: `|k q - a| * 10^26 <= |a| + 10^26 k`.
proof fn lemma_div_by_whole(a: int, k: int, q: int)
    requires
        k > 0,
        abs(q * (k * one_unit()) - a * one_unit()) * rel_tolerance() <= abs(a) * one_unit()
            + rel_tolerance() * abs(k * one_unit()),
        abs(a) <= 100 * one_unit(),
        k == 100,
    ensures
        abs(k * q - a) <= 10_100,
{
    let o = one_unit();
    let t = rel_tolerance();
    let e = abs(k * q - a);
    assert(q * (k * o) - a * o == o * (k * q - a)) by (nonlinear_arith);
    assert(abs(o * (k * q - a)) == o * e) by (nonlinear_arith)
        requires
            o > 0,
            e == abs(k * q - a),
    ;
    assert(o * (e * t) <= o * (abs(a) + t * k)) by (nonlinear_arith)
        requires
            o * e * t <= abs(a) * o + t * (k * o),
            o > 0,
    ;
    assert(e * t <= abs(a) + t * k) by (nonlinear_arith)
        requires
            o * (e * t) <= o * (abs(a) + t * k),
            o > 0,
    ;
    assert(e <= 10_100) by (nonlinear_arith)
        requires
            e * t <= abs(a) + t * k,
            abs(a) <= 100 * o,
            k == 100,
            t == 100_000_000_000_000_000_000_000_000,
            o == 10000000000000000000000000000,
            e >= 0,
    ;
}

/// `(1 + percent/100)^(k/12)` through `rust_decimal`, with its result's bounds.
fn growth(percent: Dec, k: u32) -> (r: Dec)
    requires
        rate_in_range(percent),
        1 <= k <= 840,
    ensures
        r == growth_of(percent, k as int),
        one_unit() <= 4000 * r.units(),
        r.units() <= 4_000_000_000_000_000_000_000 * one_unit(),
        percent.units() <= 20 * one_unit() ==> r.units() <= 1_000_000 * one_unit(),
        percent.units() >= 0 ==> r.units() >= one_unit() - 100_000_000,
{
    let one = Dec::one();
    let hundred = Dec::from_u32(100);
    let twelve = Dec::from_u32(12);
    let months = Dec::from_u32(k);
    percent.bounds();
    proof {
        crate::decimal::lemma_int_units(100);
        crate::decimal::lemma_int_units(12);
        crate::decimal::lemma_int_units(k as int);
        assert(abs(percent.units() * one_unit()) <= safe_units() * abs(hundred.units()))
            by (nonlinear_arith)
            requires
                rate_in_range(percent),
                hundred.units() == 100 * one_unit(),
                safe_units() == 7 * one_unit() * one_unit(),
                one_unit() == 10000000000000000000000000000,
        ;
    }
    let q = dec_div(percent, hundred);
    q.bounds();
    proof {
        crate::decimal::lemma_dec_of(q.mantissa(), q.scale());
        lemma_div_by_whole(percent.units(), 100, q.units());
        assert(-10 * one_unit() - 10_100 <= 100 * q.units() <= 100 * one_unit() + 10_100);
    }
    let base = dec_add(one, q);
    base.bounds();
    proof {
        crate::decimal::lemma_dec_of(base.mantissa(), base.scale());
        assert(89 * one_unit() <= 100 * base.units() <= 201 * one_unit()) by (nonlinear_arith)
            requires
                abs(base.units() - (one_unit() + q.units())) <= one_unit(),
                abs(base.units() - (one_unit() + q.units())) * rel_tolerance() <= abs(
                    one_unit() + q.units(),
                ) + rel_tolerance(),
                -10 * one_unit() - 10_100 <= 100 * q.units() <= 100 * one_unit() + 10_100,
                rel_tolerance() == 100_000_000_000_000_000_000_000_000,
                one_unit() == 10000000000000000000000000000,
        ;
        if percent.units() >= 0 {
            assert(100 * q.units() >= -10_100) by {
                lemma_div_by_whole(percent.units(), 100, q.units());
            }
            assert(base.units() >= one_unit() - 1000) by (nonlinear_arith)
                requires
                    abs(base.units() - (one_unit() + q.units())) * rel_tolerance() <= abs(
                        one_unit() + q.units(),
                    ) + rel_tolerance(),
                    -10_100 <= 100 * q.units() <= 100 * one_unit() + 10_100,
                    rel_tolerance() == 100_000_000_000_000_000_000_000_000,
                    one_unit() == 10000000000000000000000000000,
            ;
        }
        if percent.units() <= 20 * one_unit() {
            assert(100 * q.units() <= 20 * one_unit() + 10_100) by {
                lemma_div_by_whole(percent.units(), 100, q.units());
            }
            assert(100 * base.units() <= 121 * one_unit()) by (nonlinear_arith)
                requires
                    abs(base.units() - (one_unit() + q.units())) * rel_tolerance() <= abs(
                        one_unit() + q.units(),
                    ) + rel_tolerance(),
                    -10 * one_unit() - 10_100 <= 100 * q.units() <= 20 * one_unit() + 10_100,
                    rel_tolerance() == 100_000_000_000_000_000_000_000_000,
                    one_unit() == 10000000000000000000000000000,
            ;
        }
        assert(abs(months.units() * one_unit()) <= safe_units() * abs(twelve.units()))
            by (nonlinear_arith)
            requires
                months.units() == k * one_unit(),
                1 <= k <= 840,
                twelve.units() == 12 * one_unit(),
                safe_units() == 7 * one_unit() * one_unit(),
                one_unit() == 10000000000000000000000000000,
        ;
    }
    let years = dec_div(months, twelve);
    years.bounds();
    proof {
        crate::decimal::lemma_dec_of(years.mantissa(), years.scale());
        assert(0 <= years.units() <= 71 * one_unit()) by (nonlinear_arith)
            requires
                abs(years.units() * twelve.units() - months.units() * one_unit()) * rel_tolerance()
                    <= abs(months.units()) * one_unit() + rel_tolerance() * abs(twelve.units()),
                twelve.units() == 12 * one_unit(),
                months.units() == k * one_unit(),
                1 <= k <= 840,
                rel_tolerance() == 100_000_000_000_000_000_000_000_000,
                one_unit() == 10000000000000000000000000000,
        ;
    }
    let r = dec_powd(base, years);
    r.bounds();
    proof {
        crate::decimal::lemma_dec_of(r.mantissa(), r.scale());
    }
    r
}

/// The deflator of grid month `month_index`; with no inflation (or at month 0) it is exactly
/// one, so the deflated amount is the same value.
pub fn deflator_at_month_index(annual_inflation_percent: Dec, month_index: u32) -> (r: Dec)
    requires
        rate_in_range(annual_inflation_percent),
        month_index <= MAX_DEFLATE_MONTH_INDEX,
    ensures
        r == deflator_of(annual_inflation_percent, month_index as int),
        0 < r.units() <= 4001 * one_unit(),
        annual_inflation_percent.units() >= 0 ==> r.units() <= one_unit() + 1_000_000_000,
{
    proof {
        crate::decimal::lemma_int_units(1);
        crate::decimal::lemma_dec_of(1, 0);
    }
    if annual_inflation_percent.is_zero() || month_index == 0 {
        return Dec::one();
    }
    let p = growth(annual_inflation_percent, month_index);
    let one = Dec::one();
    proof {
        assert(abs(one.units() * one_unit()) <= safe_units() * abs(p.units())) by (nonlinear_arith)
            requires
                one.units() == one_unit(),
                one_unit() <= 4000 * p.units(),
                safe_units() == 7 * one_unit() * one_unit(),
                one_unit() == 10000000000000000000000000000,
        ;
    }
    let r = dec_div(one, p);
    r.bounds();
    proof {
        crate::decimal::lemma_dec_of(r.mantissa(), r.scale());
        assert(0 < r.units() <= 4001 * one_unit()) by (nonlinear_arith)
            requires
                abs(r.units() * p.units() - one.units() * one_unit()) <= one_unit() * abs(
                    p.units(),
                ),
                abs(r.units() * p.units() - one.units() * one_unit()) * rel_tolerance() <= abs(
                    one.units(),
                ) * one_unit() + rel_tolerance() * abs(p.units()),
                one.units() == one_unit(),
                one_unit() <= 4000 * p.units(),
                p.units() <= 4_000_000_000_000_000_000_000 * one_unit(),
                rel_tolerance() == 100_000_000_000_000_000_000_000_000,
                one_unit() == 10000000000000000000000000000,
        ;
        if annual_inflation_percent.units() >= 0 {
            assert(r.units() <= one_unit() + 1_000_000_000) by (nonlinear_arith)
                requires
                    abs(r.units() * p.units() - one.units() * one_unit()) * rel_tolerance() <= abs(
                        one.units(),
                    ) * one_unit() + rel_tolerance() * abs(p.units()),
                    one.units() == one_unit(),
                    p.units() >= one_unit() - 100_000_000,
                    p.units() <= 4_000_000_000_000_000_000_000 * one_unit(),
                    rel_tolerance() == 100_000_000_000_000_000_000_000_000,
                    one_unit() == 10000000000000000000000000000,
            ;
        }
    }
    r
}

/// The compounding factor of a real yearly rate over `month_index` months:
/// `(1 + g/100)^(month_index/12)`, exactly one for `g = 0` or month 0.
pub fn real_growth_factor_at_month_index(annual_percent: Dec, month_index: u32) -> (r: Dec)
    requires
        rate_in_range(annual_percent),
        month_index <= MAX_DEFLATE_MONTH_INDEX,
    ensures
        r == (if annual_percent.units() == 0 || month_index == 0 {
            Dec::of(1, 0)
        } else {
            growth_of(annual_percent, month_index as int)
        }),
        one_unit() <= 4000 * r.units(),
        r.units() <= 4_000_000_000_000_000_000_000 * one_unit(),
        annual_percent.units() <= 20 * one_unit() ==> r.units() <= 1_000_000 * one_unit(),
{
    proof {
        crate::decimal::lemma_dec_of(1, 0);
        crate::decimal::lemma_int_units(1);
    }
    if annual_percent.is_zero() || month_index == 0 {
        return Dec::one();
    }
    growth(annual_percent, month_index)
}

/// A point of the net-worth series: its grid month and its value.
#[derive(Clone, Copy, Debug, PartialEq, Eq)]
pub struct NwPoint {
    pub month_index: u32,
    pub net_worth: Dec,
}

/// The largest amount whose deflated value still fits a decimal: `6 * 10^28` at a non-negative
/// rate (the deflator is then at most `1 + 10^-19`), `7 * 10^28 / 4001` at a negative one (the
/// deflator of a -10 % rate over 70 years stays below 4001).
pub open spec fn deflatable_by(rate: Dec) -> int {
    if rate.units() >= 0 {
        6 * one_unit() * one_unit()
    } else {
        safe_units() / 4001
    }
}

/// An amount within `deflatable_by(rate)` times the deflator of `rate` fits a decimal.
pub proof fn lemma_deflated_fits(amount: Dec, rate: Dec, d: Dec)
    requires
        abs(amount.units()) <= deflatable_by(rate),
        0 < d.units() <= 4001 * one_unit(),
        rate.units() >= 0 ==> d.units() <= one_unit() + 1_000_000_000,
    ensures
        abs(amount.units() * d.units()) <= safe_units() * one_unit(),
{
    if rate.units() >= 0 {
        assert(abs(amount.units() * d.units()) <= safe_units() * one_unit()) by (nonlinear_arith)
            requires
                abs(amount.units()) <= 6 * one_unit() * one_unit(),
                0 < d.units() <= one_unit() + 1_000_000_000,
                safe_units() == 7 * one_unit() * one_unit(),
                one_unit() == 10000000000000000000000000000,
        ;
    } else {
        assert(abs(amount.units() * d.units()) <= safe_units() * one_unit()) by (nonlinear_arith)
            requires
                abs(amount.units()) <= safe_units() / 4001,
                0 < d.units() <= 4001 * one_unit(),
                safe_units() == 7 * one_unit() * one_unit(),
                one_unit() == 10000000000000000000000000000,
        ;
    }
}

/// The points taken to today's euros, each by the deflator of its own grid month (never its
/// position in the series); an unchanged copy with no inflation.
pub fn deflate_points_to_today(points: &Vec<NwPoint>, annual_inflation_percent: Dec) -> (r: Vec<
    NwPoint,
>)
    requires
        rate_in_range(annual_inflation_percent),
        forall|i: int|
            0 <= i < points@.len() ==> (#[trigger] points@[i]).month_index
                <= MAX_DEFLATE_MONTH_INDEX && abs(points@[i].net_worth.units()) <= deflatable_by(
                annual_inflation_percent,
            ),
    ensures
        annual_inflation_percent.units() == 0 ==> r@ == points@,
        annual_inflation_percent.units() != 0 ==> r@.len() == points@.len() && forall|i: int|
            0 <= i < r@.len() ==> (#[trigger] r@[i]).month_index == points@[i].month_index
                && r@[i].net_worth == product_of(
                points@[i].net_worth,
                deflator_of(annual_inflation_percent, points@[i].month_index as int),
            ),
{
    if annual_inflation_percent.is_zero() {
        let mut out: Vec<NwPoint> = Vec::new();
        let mut i: usize = 0;
        while i < points.len()
            invariant
                0 <= i <= points@.len(),
                out@ == points@.take(i as int),
            decreases points@.len() - i,
        {
            out.push(points[i]);
            i = i + 1;
            assert(out@ =~= points@.take(i as int));
        }
        assert(points@.take(points@.len() as int) =~= points@);
        return out;
    }
    let mut out: Vec<NwPoint> = Vec::new();
    let mut i: usize = 0;
    while i < points.len()
        invariant
            0 <= i <= points@.len(),
            out@.len() == i,
            rate_in_range(annual_inflation_percent),
            annual_inflation_percent.units() != 0,
            forall|j: int|
                0 <= j < points@.len() ==> (#[trigger] points@[j]).month_index
                    <= MAX_DEFLATE_MONTH_INDEX && abs(points@[j].net_worth.units()) <= deflatable_by(
                    annual_inflation_percent,
                ),
            forall|j: int|
                0 <= j < i ==> (#[trigger] out@[j]).month_index == points@[j].month_index
                    && out@[j].net_worth == product_of(
                    points@[j].net_worth,
                    deflator_of(annual_inflation_percent, points@[j].month_index as int),
                ),
        decreases points@.len() - i,
    {
        let p = points[i];
        let d = deflator_at_month_index(annual_inflation_percent, p.month_index);
        proof {
            lemma_deflated_fits(p.net_worth, annual_inflation_percent, d);
        }
        let v = dec_mul(p.net_worth, d);
        v.bounds();
        proof {
            crate::decimal::lemma_dec_of(v.mantissa(), v.scale());
        }
        out.push(NwPoint { month_index: p.month_index, net_worth: v });
        i = i + 1;
    }
    out
}

/// The query of the conversion endpoint.
#[derive(Clone, Debug)]
pub struct DeflateQuery {
    /// The amount to convert, as a decimal string.
    pub amount: String,
    /// Month from the anchor (0 to 840); exactly one of `month_index` and `date`.
    pub month_index: Option<u32>,
    /// A calendar date `YYYY-MM-DD`; exactly one of `month_index` and `date`.
    pub date: Option<String>,
}

/// The conversion between nominal euros of a month and today's euros, both ways.
#[derive(Clone, Debug)]
pub struct DeflateResponse {
    pub amount: Dec,
    pub month_index: u32,
    pub month_ymd: String,
    pub anchor_date_ymd: String,
    pub annual_inflation_percent: Dec,
    pub deflator: Dec,
    pub amount_in_today_euros: Dec,
    pub amount_in_month_euros: Dec,
    pub model_note: String,
}

/// Whole calendar months from the month of `a` to the month of `b` (negative when earlier).
pub fn month_diff(a: Date, b: Date) -> (r: i32)
    ensures
        r == month_index_of(ymd(b)) - month_index_of(ymd(a)),
{
    a.bounds();
    b.bounds();
    (b.year_i32() - a.year_i32()) * 12 + (b.month_u32() as i32 - a.month_u32() as i32)
}

/// The grid month a conversion names: the month index given, or the months from the anchor
/// month to the month of the date given; exactly one of the two, not before the anchor month
/// and not beyond 840.
pub open spec fn deflate_month_of(month_index: Option<u32>, date: Option<Date>, today: Date) -> Result<
    int,
    RequestError,
> {
    if month_index is Some == date is Some {
        Err(RequestError::DeflateTimingAmbiguous)
    } else {
        let k = match month_index {
            Some(k) => k as int,
            None => month_index_of(ymd(date.unwrap())) - month_index_of(ymd(today)),
        };
        if k < 0 {
            Err(RequestError::DeflateDateInPast)
        } else if k > MAX_DEFLATE_MONTH_INDEX {
            Err(RequestError::DeflateMonthOutOfRange)
        } else {
            Ok(k)
        }
    }
}

/// `amount / d` is within the decimal range (so `checked_div` has a quotient).
pub open spec fn divides_within_range(amount: Dec, d: Dec) -> bool {
    d.units() != 0 && abs(amount.units() * one_unit()) <= safe_units() * abs(d.units())
}

/// Law: naming a month by its index or by a date in it is the same: a date `k` calendar months
/// after today's month names month `k`, with the same outcome (and so the same deflator and
/// amounts) as `month_index = k`.
pub proof fn law_month_named_either_way(today: Date, date: Date, k: u32)
    requires
        month_index_of(ymd(date)) - month_index_of(ymd(today)) == k,
    ensures
        deflate_month_of(None, Some(date), today) == deflate_month_of(Some(k), None, today),
        k <= MAX_DEFLATE_MONTH_INDEX ==> deflate_month_of(None, Some(date), today) == Ok::<
            int,
            RequestError,
        >(k as int),
{
}

/// The conversion of `amount` between nominal euros of the named month and today's euros, with
/// the installation's inflation: the deflator (to 10 decimals), the amount in today's euros
/// (`amount × deflator`) and in the month's euros (`amount / deflator`), as money.
pub fn deflate_amount_core(
    today: Date,
    annual_inflation_percent: Dec,
    amount: Dec,
    month_index: Option<u32>,
    date: Option<Date>,
) -> (r: Result<DeflateResponse, RequestError>)
    requires
        rate_in_range(annual_inflation_percent),
        abs(amount.units()) <= deflatable_by(annual_inflation_percent),
    ensures
        match deflate_month_of(month_index, date, today) {
            Err(e) => r matches Err(x) && x == e,
            Ok(k) => r matches Ok(resp) && {
                let d = deflator_of(annual_inflation_percent, k);
                let month = add_months_ymd(today.first_of(), k);
                &&& resp.month_index == k
                &&& resp.amount == money_of(amount)
                &&& resp.month_ymd@ == ymd_text(month.0, month.1, month.2)
                &&& resp.anchor_date_ymd@ == ymd_text(today.year(), today.month(), today.day())
                &&& resp.annual_inflation_percent == money_of(annual_inflation_percent)
                &&& resp.deflator.is_pair(decimal_round_dp(d.mantissa(), d.scale(), 10))
                &&& resp.amount_in_today_euros == money_of(product_of(amount, d))
                &&& (divides_within_range(amount, d) ==> resp.amount_in_month_euros == money_of(
                    quotient_of(amount, d),
                ))
                &&& (resp.amount_in_month_euros == money_of(quotient_of(amount, d))
                    || resp.amount_in_month_euros == money_of(amount))
                &&& resp.model_note@ == DEFLATE_MODEL_NOTE@
            },
        },
{
    if month_index.is_some() == date.is_some() {
        return Err(RequestError::DeflateTimingAmbiguous);
    }
    let anchor = proj_month_first(today);
    let k: u32 = match (month_index, date) {
        (Some(k), _) => k,
        (None, Some(d)) => {
            let months = month_diff(anchor, proj_month_first(d));
            if months < 0 {
                return Err(RequestError::DeflateDateInPast);
            }
            months as u32
        },
        (None, None) => 0,
    };
    if k > MAX_DEFLATE_MONTH_INDEX {
        return Err(RequestError::DeflateMonthOutOfRange);
    }
    let deflator = deflator_at_month_index(annual_inflation_percent, k);
    proof {
        lemma_deflated_fits(amount, annual_inflation_percent, deflator);
    }
    let inflated = match dec_checked_div(amount, deflator) {
        Some(q) => {
            q.bounds();
            proof {
                crate::decimal::lemma_dec_of(q.mantissa(), q.scale());
            }
            q
        },
        None => amount,
    };
    let in_today = dec_mul(amount, deflator);
    in_today.bounds();
    let rounded = dec_round_dp(deflator, 10);
    proof {
        crate::decimal::lemma_dec_of(in_today.mantissa(), in_today.scale());
    }
    Ok(
        DeflateResponse {
            amount: money_out(amount),
            month_index: k,
            month_ymd: date_text(proj_add_months(anchor, k)),
            anchor_date_ymd: date_text(today),
            annual_inflation_percent: money_out(annual_inflation_percent),
            deflator: rounded,
            amount_in_today_euros: money_out(in_today),
            amount_in_month_euros: money_out(inflated),
            model_note: String::from_str(DEFLATE_MODEL_NOTE),
        },
    )
}

} // verus!
