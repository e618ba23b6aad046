//! The grid of the projection series: which month indices a response serves for each density,
//! the mapping from the engine's 1-based loop months to the published 0-based grid, the
//! bounds of an explicit horizon, and the deduplicated warning list.
use crate::decimal::{dec_add, safe_units, Dec};
use crate::text::{str_eq, str_trim, trimmed};
use vstd::prelude::*;

verus! {

/// Why a projection request was refused; `code` gives its stable code.
#[derive(Clone, Copy, Debug, PartialEq, Eq, Structural)]
pub enum RequestError {
    /// `density` is neither `monthly` nor `hybrid`.
    InvalidDensity,
    /// An explicit `months` outside `[12, 840]`.
    MonthsOutOfRange,
    /// A seed that is not an unsigned 64-bit integer in decimal digits.
    InvalidSeed,
    /// `paths` outside `[1, max]`.
    PathsOutOfRange { max: u32 },
    /// Both or neither of `month_index` and `date`.
    DeflateTimingAmbiguous,
    /// A date before the anchor month.
    DeflateDateInPast,
    /// A month index above 840.
    DeflateMonthOutOfRange,
    /// Percentile bands asked for the household view: percentiles do not add across members.
    HouseholdBandsUnavailable,
}

/// The stable code of a request error.
pub open spec fn request_error_code(e: RequestError) -> Seq<char> {
    match e {
        RequestError::InvalidDensity => "invalid_density"@,
        RequestError::MonthsOutOfRange => "months_out_of_range"@,
        RequestError::InvalidSeed => "invalid_seed"@,
        RequestError::PathsOutOfRange { .. } => "paths_out_of_range"@,
        RequestError::DeflateTimingAmbiguous => "deflate_timing_ambiguous"@,
        RequestError::DeflateDateInPast => "deflate_date_in_past"@,
        RequestError::DeflateMonthOutOfRange => "deflate_month_out_of_range"@,
        RequestError::HouseholdBandsUnavailable => "household_bands_unavailable"@,
    }
}

impl RequestError {
    /// The stable `snake_case` code of the error.
    pub fn code(&self) -> (r: &'static str)
        ensures
            r@ == request_error_code(*self),
    {
        match self {
            RequestError::InvalidDensity => "invalid_density",
            RequestError::MonthsOutOfRange => "months_out_of_range",
            RequestError::InvalidSeed => "invalid_seed",
            RequestError::PathsOutOfRange { .. } => "paths_out_of_range",
            RequestError::DeflateTimingAmbiguous => "deflate_timing_ambiguous",
            RequestError::DeflateDateInPast => "deflate_date_in_past",
            RequestError::DeflateMonthOutOfRange => "deflate_month_out_of_range",
            RequestError::HouseholdBandsUnavailable => "household_bands_unavailable",
        }
    }
}

/// How many points a series response serves.
#[derive(Clone, Copy, Debug, PartialEq, Eq, Structural)]
pub enum Density {
    /// Every month.
    Monthly,
    /// Months 0 to 12, then every twelfth month, and always the last month of the horizon.
    Hybrid,
}

/// The query of the series endpoint.
#[derive(Clone, Debug)]
pub struct ProjectionSeriesQuery {
    pub view: Option<String>,
    /// Months to project (12 to 840; outside that range it is refused, never clamped).
    pub months: Option<u32>,
    /// `monthly` (the default) or `hybrid`.
    pub density: Option<String>,
}

/// The density a (trimmed) literal names: absent, empty or `monthly` is monthly.
pub open spec fn density_of_text(t: Option<Seq<char>>) -> Option<Density> {
    match t {
        None => Some(Density::Monthly),
        Some(s) => if trimmed(s) == ""@ || trimmed(s) == "monthly"@ {
            Some(Density::Monthly)
        } else if trimmed(s) == "hybrid"@ {
            Some(Density::Hybrid)
        } else {
            None
        },
    }
}

/// `hybrid` or `monthly` (the default). Any other value is an error, not a silent `monthly`.
pub fn resolve_density(q: &ProjectionSeriesQuery) -> (r: Result<Density, RequestError>)
    ensures
        match density_of_text(
            match q.density {
                Some(s) => Some(s@),
                None => None,
            },
        ) {
            Some(d) => r == Ok::<Density, RequestError>(d),
            None => r == Err::<Density, RequestError>(RequestError::InvalidDensity),
        },
{
    match &q.density {
        None => Ok(Density::Monthly),
        Some(raw) => {
            let t = str_trim(raw.as_str());
            if str_eq(t, "") || str_eq(t, "monthly") {
                Ok(Density::Monthly)
            } else if str_eq(t, "hybrid") {
                Ok(Density::Hybrid)
            } else {
                Err(RequestError::InvalidDensity)
            }
        },
    }
}

pub open spec fn min_int(a: int, b: int) -> int {
    if a < b {
        a
    } else {
        b
    }
}

/// Months `0..=min(12, cap)`.
pub open spec fn monthly_head(cap: int) -> Seq<u32> {
    Seq::new((min_int(12, cap) + 1) as nat, |i: int| i as u32)
}

/// Months `24, 36, ...` up to `cap`.
pub open spec fn yearly_tail(cap: int) -> Seq<u32> {
    Seq::new(
        if cap >= 24 {
            ((cap - 24) / 12 + 1) as nat
        } else {
            0
        },
        |i: int| (24 + 12 * i) as u32,
    )
}

/// The hybrid grid over a horizon whose last month is `cap`: the monthly head, the yearly tail
/// and, when the tail does not end on it, `cap` itself.
pub open spec fn hybrid_indices(cap: int) -> Seq<u32> {
    let v = monthly_head(cap) + yearly_tail(cap);
    if v.last() == cap {
        v
    } else {
        v.push(cap as u32)
    }
}

/// The month indices a response includes.
pub open spec fn month_indices(density: Density, months: int) -> Seq<u32> {
    match density {
        Density::Monthly => Seq::new(months as nat, |i: int| i as u32),
        Density::Hybrid => hybrid_indices(if months > 0 {
            months - 1
        } else {
            0
        }),
    }
}

/// The indices to serve for a density over a horizon of `months` points: every month, or the
/// hybrid grid, which always ends on the last month of the horizon.
pub fn density_month_indices(density: Density, months: u32) -> (r: Vec<u32>)
    requires
        months < u32::MAX - 12,
    ensures
        r@ == month_indices(density, months as int),
{
    match density {
        Density::Monthly => {
            let mut v: Vec<u32> = Vec::new();
            let mut i: u32 = 0;
            while i < months
                invariant
                    i <= months,
                    v@ == Seq::new(i as nat, |k: int| k as u32),
                decreases months - i,
            {
                v.push(i);
                i = i + 1;
                assert(v@ =~= Seq::new(i as nat, |k: int| k as u32));
            }
            v
        },
        Density::Hybrid => {
            let cap: u32 = if months > 0 {
                months - 1
            } else {
                0
            };
            let head_last: u32 = if cap < 12 {
                cap
            } else {
                12
            };
            let mut v: Vec<u32> = Vec::new();
            let mut i: u32 = 0;
            while i <= head_last
                invariant
                    i <= head_last + 1,
                    head_last == min_int(12, cap as int),
                    v@ == Seq::new(i as nat, |k: int| k as u32),
                decreases head_last + 1 - i,
            {
                v.push(i);
                i = i + 1;
                assert(v@ =~= Seq::new(i as nat, |k: int| k as u32));
            }
            assert(v@ =~= monthly_head(cap as int));
            let mut k: u32 = 24;
            let mut n: u32 = 0;
            while k <= cap
                invariant
                    k == 24 + 12 * n,
                    cap < u32::MAX - 13,
                    k <= cap + 12 || k == 24,
                    v@ == monthly_head(cap as int) + Seq::new(n as nat, |j: int| (24 + 12 * j) as u32),
                    cap >= 24 ==> n <= (cap - 24) / 12 + 1,
                    cap < 24 ==> n == 0,
                    k <= cap ==> n <= (cap - 24) / 12,
                decreases cap + 12 - k,
            {
                v.push(k);
                k = k + 12;
                n = n + 1;
                assert(v@ =~= monthly_head(cap as int) + Seq::new(n as nat, |j: int| (24 + 12 * j) as u32));
            }
            assert(Seq::new(n as nat, |j: int| (24 + 12 * j) as u32) =~= yearly_tail(cap as int));
            let last = v[v.len() - 1];
            if last != cap {
                v.push(cap);
            }
            v
        },
    }
}

/// Law: the hybrid grid is strictly increasing, starts with the thirteen monthly points (fewer
/// on a shorter horizon), and always ends on the last month of the horizon.
pub proof fn law_hybrid_grid_shape(months: int)
    requires
        1 <= months <= u32::MAX,
    ensures
        month_indices(Density::Hybrid, months).last() == months - 1,
        forall|i: int, j: int|
            0 <= i < j < month_indices(Density::Hybrid, months).len() ==> month_indices(
                Density::Hybrid,
                months,
            )[i] < month_indices(Density::Hybrid, months)[j],
        forall|i: int|
            0 <= i <= min_int(12, months - 1) ==> month_indices(Density::Hybrid, months)[i] == i,
        forall|i: int|
            0 <= i < month_indices(Density::Hybrid, months).len() ==> month_indices(
                Density::Hybrid,
                months,
            )[i] < months,
{
    let cap = months - 1;
    let h = monthly_head(cap);
    let t = yearly_tail(cap);
    let v = h + t;
    assert(h.len() >= 1);
    assert forall|i: int, j: int| 0 <= i < j < v.len() implies v[i] < v[j] by {
        if j < h.len() {
        } else if i < h.len() {
            assert(v[i] == h[i]);
            assert(v[j] == t[j - h.len()]);
        } else {
            assert(v[i] == t[i - h.len()]);
            assert(v[j] == t[j - h.len()]);
        }
    }
    assert forall|i: int| 0 <= i < v.len() implies v[i] <= cap by {
        if i >= h.len() {
            let k = i - h.len();
            assert(t.len() == (cap - 24) / 12 + 1);
            assert(k <= (cap - 24) / 12);
            assert(12 * k <= cap - 24) by (nonlinear_arith)
                requires
                    k <= (cap - 24) / 12,
                    cap >= 24,
                    k >= 0,
            ;
        }
    }
    let r = hybrid_indices(cap);
    if v.last() != cap {
        assert forall|i: int, j: int| 0 <= i < j < r.len() implies r[i] < r[j] by {
            if j == r.len() - 1 {
                assert(v[i] <= cap);
                assert(v[i] != cap || i < v.len() - 1);
                if i == v.len() - 1 {
                } else {
                    assert(v[i] < v[v.len() - 1]);
                }
            }
        }
    }
}

/// The engine counts 1-based loop months; the published grid is 0-based, so loop month `k` is
/// grid month `k - 1` (0 stays 0).
pub fn engine_month_to_grid(k: Option<u32>) -> (r: Option<u32>)
    ensures
        r == (match k {
            Some(k) => Some(if k > 0 {
                (k - 1) as u32
            } else {
                0u32
            }),
            None => None,
        }),
{
    match k {
        Some(k) => Some(if k > 0 {
            k - 1
        } else {
            0
        }),
        None => None,
    }
}

/// Bounds of an explicit horizon.
pub const MIN_PROJECTION_MONTHS: u32 = 12;

pub const MAX_PROJECTION_MONTHS: u32 = 840;

/// An explicit `months` outside `[12, 840]` is refused, never clamped.
pub fn validate_months_override(months: Option<u32>) -> (r: Result<(), RequestError>)
    ensures
        r is Err <==> (months matches Some(m) && (m < MIN_PROJECTION_MONTHS || m
            > MAX_PROJECTION_MONTHS)),
        r is Err ==> r == Err::<(), RequestError>(RequestError::MonthsOutOfRange),
{
    if let Some(m) = months {
        if m < MIN_PROJECTION_MONTHS || m > MAX_PROJECTION_MONTHS {
            return Err(RequestError::MonthsOutOfRange);
        }
    }
    Ok(())
}

/// The views of a list of strings.
pub open spec fn texts(v: Seq<String>) -> Seq<Seq<char>> {
    v.map_values(|s: String| s@)
}

fn contains_text(v: &Vec<String>, w: &str) -> (r: bool)
    ensures
        r == texts(v@).contains(w@),
{
    let mut i: usize = 0;
    while i < v.len()
        invariant
            0 <= i <= v.len(),
            forall|k: int| 0 <= k < i ==> v@[k]@ != w@,
        decreases v.len() - i,
    {
        if str_eq(v[i].as_str(), w) {
            assert(texts(v@)[i as int] == w@);
            return true;
        }
        i = i + 1;
    }
    assert forall|k: int| 0 <= k < texts(v@).len() implies texts(v@)[k] != w@ by {
        assert(texts(v@)[k] == v@[k]@);
    }
    false
}

/// Adds a warning unless it is already there: a repeated warning would read as severity.
pub fn push_warning(warnings: &mut Vec<String>, w: &str)
    ensures
        texts(old(warnings)@).contains(w@) ==> final(warnings)@ == old(warnings)@,
        !texts(old(warnings)@).contains(w@) ==> texts(final(warnings)@) == texts(
            old(warnings)@,
        ).push(w@),
{
    if !contains_text(warnings, w) {
        warnings.push(String::from_str(w));
        assert(texts(warnings@) =~= texts(old(warnings)@).push(w@));
    }
}

/// The list `acc` extended, in order, with each code not seen yet.
pub open spec fn merged(acc: Seq<Seq<char>>, codes: Seq<Seq<char>>) -> Seq<Seq<char>>
    decreases codes.len(),
{
    if codes.len() == 0 {
        acc
    } else {
        let prev = merged(acc, codes.drop_last());
        if prev.contains(codes.last()) {
            prev
        } else {
            prev.push(codes.last())
        }
    }
}

/// Law: merging warnings keeps the first list as it is, in front, holds every code of the
/// second, brings in nothing else, and repeats no code: a list without repeats stays without.
pub proof fn law_merge_keeps_and_adds_each_once(acc: Seq<Seq<char>>, codes: Seq<Seq<char>>)
    ensures
        merged(acc, codes).len() >= acc.len(),
        merged(acc, codes).subrange(0, acc.len() as int) == acc,
        forall|k: int| 0 <= k < codes.len() ==> merged(acc, codes).contains(#[trigger] codes[k]),
        forall|x: Seq<char>|
            #[trigger] merged(acc, codes).contains(x) ==> acc.contains(x) || codes.contains(x),
        acc.no_duplicates() ==> merged(acc, codes).no_duplicates(),
    decreases codes.len(),
{
    if codes.len() > 0 {
        let init = codes.drop_last();
        law_merge_keeps_and_adds_each_once(acc, init);
        let prev = merged(acc, init);
        let c = codes.last();
        assert forall|k: int| 0 <= k < codes.len() implies merged(acc, codes).contains(
            #[trigger] codes[k],
        ) by {
            if k < init.len() {
                assert(init[k] == codes[k]);
                assert(prev.contains(init[k]));
                let w = choose|w: int| 0 <= w < prev.len() && prev[w] == init[k];
                if !prev.contains(c) {
                    assert(prev.push(c)[w] == codes[k]);
                }
            } else {
                if !prev.contains(c) {
                    assert(prev.push(c)[prev.len() as int] == c);
                }
            }
        }
        assert forall|x: Seq<char>|
            #[trigger] merged(acc, codes).contains(x) implies acc.contains(x) || codes.contains(x) by {
            if prev.contains(x) {
                if init.contains(x) {
                    let w = choose|w: int| 0 <= w < init.len() && init[w] == x;
                    assert(codes[w] == x);
                }
            } else {
                assert(x == c);
                assert(codes[codes.len() - 1] == c);
            }
        }
        if !prev.contains(c) {
            assert(prev.push(c).subrange(0, acc.len() as int) =~= prev.subrange(0, acc.len() as int));
        }
    }
}

/// The warnings of one member: those of the assembly, then each code of the engine and of the
/// solve (in that order) that is not already there.
pub fn merge_warnings(assembly: &Vec<String>, later: &Vec<String>) -> (r: Vec<String>)
    ensures
        texts(r@) == merged(texts(assembly@), texts(later@)),
{
    let mut out: Vec<String> = assembly.clone();
    assert(texts(out@) == texts(assembly@)) by {
        assert forall|k: int| 0 <= k < out@.len() implies out@[k]@ == assembly@[k]@ by {
            assert(vstd::pervasive::cloned::<String>(assembly@[k], out@[k]));
        }
        assert(texts(out@) =~= texts(assembly@));
    }
    let mut i: usize = 0;
    while i < later.len()
        invariant
            0 <= i <= later.len(),
            texts(out@) == merged(texts(assembly@), texts(later@).take(i as int)),
        decreases later.len() - i,
    {
        assert(texts(later@).take(i + 1).drop_last() =~= texts(later@).take(i as int));
        assert(texts(later@).take(i + 1).last() == later@[i as int]@);
        push_warning(&mut out, later[i].as_str());
        i = i + 1;
    }
    assert(texts(later@).take(later.len() as int) =~= texts(later@));
    out
}

/// Adds a series into an accumulator position by position; an empty accumulator takes the series.
pub fn add_series_into(acc: &mut Vec<Dec>, add: &Vec<Dec>)
    requires
        forall|i: int|
            0 <= i < old(acc)@.len() && i < add@.len() ==> crate::decimal::abs(
                (#[trigger] old(acc)@[i]).units() + add@[i].units(),
            ) <= safe_units(),
    ensures
        old(acc)@.len() == 0 ==> final(acc)@ == add@,
        old(acc)@.len() > 0 ==> final(acc)@.len() == old(acc)@.len(),
        old(acc)@.len() > 0 ==> forall|i: int|
            0 <= i < final(acc)@.len() ==> (if i < add@.len() {
                #[trigger] final(acc)@[i] == Dec::of(
                    crate::decimal::decimal_sum(
                        old(acc)@[i].mantissa(),
                        old(acc)@[i].scale(),
                        add@[i].mantissa(),
                        add@[i].scale(),
                    ).0,
                    crate::decimal::decimal_sum(
                        old(acc)@[i].mantissa(),
                        old(acc)@[i].scale(),
                        add@[i].mantissa(),
                        add@[i].scale(),
                    ).1,
                )
            } else {
                final(acc)@[i] == old(acc)@[i]
            }),
{
    if acc.len() == 0 {
        let mut i: usize = 0;
        while i < add.len()
            invariant
                0 <= i <= add.len(),
                acc@ == add@.take(i as int),
            decreases add.len() - i,
        {
            acc.push(add[i]);
            i = i + 1;
            assert(acc@ =~= add@.take(i as int));
        }
        assert(add@.take(add.len() as int) =~= add@);
        return;
    }
    let ghost before = acc@;
    let mut i: usize = 0;
    while i < acc.len() && i < add.len()
        invariant
            0 <= i <= acc.len(),
            i <= add.len(),
            acc@.len() == before.len(),
            before == old(acc)@,
            forall|j: int|
                0 <= j < before.len() && j < add@.len() ==> crate::decimal::abs(
                    (#[trigger] before[j]).units() + add@[j].units(),
                ) <= safe_units(),
            forall|j: int| i <= j < acc@.len() ==> acc@[j] == before[j],
            forall|j: int|
                0 <= j < i ==> #[trigger] acc@[j] == Dec::of(
                    crate::decimal::decimal_sum(
                        before[j].mantissa(),
                        before[j].scale(),
                        add@[j].mantissa(),
                        add@[j].scale(),
                    ).0,
                    crate::decimal::decimal_sum(
                        before[j].mantissa(),
                        before[j].scale(),
                        add@[j].mantissa(),
                        add@[j].scale(),
                    ).1,
                ),
        decreases acc.len() - i,
    {
        assert(acc@[i as int] == before[i as int]);
        assert(crate::decimal::abs(before[i as int].units() + add@[i as int].units())
            <= safe_units());
        let s = dec_add(acc[i], add[i]);
        s.bounds();
        proof {
            crate::decimal::lemma_dec_of(s.mantissa(), s.scale());
        }
        acc.set(i, s);
        i = i + 1;
    }
}

/// The value of a series at a position, or zero where the position does not exist.
pub fn series_at(serie: &Vec<Dec>, i: usize) -> (r: Dec)
    ensures
        r == (if i < serie@.len() {
            serie@[i as int]
        } else {
            Dec::of(0, 0)
        }),
{
    if i < serie.len() {
        serie[i]
    } else {
        Dec::zero()
    }
}

/// A phase transition of the run: the grid month in which a phase starts.
#[derive(Clone, Copy, Debug)]
pub struct PhaseTransition {
    /// `accumulating`, `partial` or `retired`.
    pub phase: &'static str,
    pub month_index: u32,
}

/// The last position among the first `n` whose month is at most `g`.
pub open spec fn last_at_or_before(months: Seq<u32>, g: int, n: int) -> Option<int>
    decreases n,
{
    if n <= 0 {
        None
    } else if months[n - 1] <= g {
        Some(n - 1)
    } else {
        last_at_or_before(months, g, n - 1)
    }
}

/// The curve laid on the served points after the nodes, in order: each node (an engine month
/// and an amount) lands on the last served point at or before its grid month; a later node on
/// the same point wins.
pub open spec fn curve_after(months: Seq<u32>, nodes: Seq<(u32, Dec)>) -> Seq<Option<Dec>>
    decreases nodes.len(),
{
    if nodes.len() == 0 {
        Seq::new(months.len(), |i: int| None::<Dec>)
    } else {
        let prev = curve_after(months, nodes.drop_last());
        let (k, amount) = nodes.last();
        let g = if k > 0 {
            k - 1
        } else {
            0
        };
        match last_at_or_before(months, g, months.len() as int) {
            Some(pos) => prev.update(pos, Some(amount)),
            None => prev,
        }
    }
}

/// The needed-capital curve parallel to the served points: no interpolation, and `None` where
/// nothing was measured.
pub fn plan_curve_parallel_to_points(point_months: &Vec<u32>, curve: &Vec<(u32, Dec)>) -> (r: Vec<
    Option<Dec>,
>)
    ensures
        r@ == curve_after(point_months@, curve@),
{
    let mut out: Vec<Option<Dec>> = Vec::new();
    let mut i: usize = 0;
    while i < point_months.len()
        invariant
            0 <= i <= point_months@.len(),
            out@ == Seq::new(i as nat, |j: int| None::<Dec>),
        decreases point_months@.len() - i,
    {
        out.push(None);
        i = i + 1;
        assert(out@ =~= Seq::new(i as nat, |j: int| None::<Dec>));
    }
    proof {
        assert(curve@.take(0) =~= Seq::<(u32, Dec)>::empty());
    }
    let mut c: usize = 0;
    while c < curve.len()
        invariant
            0 <= c <= curve@.len(),
            out@ == curve_after(point_months@, curve@.take(c as int)),
            out@.len() == point_months@.len(),
        decreases curve@.len() - c,
    {
        proof {
            assert(curve@.take(c + 1).drop_last() =~= curve@.take(c as int));
        }
        let (month, amount) = curve[c];
        let grid = match engine_month_to_grid(Some(month)) {
            Some(g) => g,
            None => 0,
        };
        let mut p: usize = point_months.len();
        while p > 0 && point_months[p - 1] > grid
            invariant
                0 <= p <= point_months@.len(),
                last_at_or_before(point_months@, grid as int, point_months@.len() as int)
                    == last_at_or_before(point_months@, grid as int, p as int),
            decreases p,
        {
            p = p - 1;
        }
        if p > 0 {
            out.set(p - 1, Some(amount));
        }
        c = c + 1;
    }
    proof {
        assert(curve@.take(curve@.len() as int) =~= curve@);
    }
    out
}

} // verus!
