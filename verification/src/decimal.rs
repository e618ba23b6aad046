//! Fixed-point decimal numbers `mantissa / 10^scale` (mantissa magnitude below 2^96, scale at
//! most 28): the number type of every amount and percentage of the planner. The arithmetic is
//! `rust_decimal`'s; comparisons, sign handling and the `Ord`-style helpers are stated over the
//! exact value.
use rust_decimal::prelude::MathematicalOps;
use rust_decimal::Decimal;
use std::str::FromStr;
use vstd::prelude::*;
use vstd::std_specs::cmp::PartialEqSpecImpl;

verus! {

/// `10^n`.
pub open spec fn pow10(n: nat) -> nat
    decreases n,
{
    if n == 0 {
        1
    } else {
        10 * pow10((n - 1) as nat)
    }
}

/// The largest mantissa magnitude: `2^96 - 1`.
pub open spec fn max_mantissa() -> int {
    79228162514264337593543950335
}

/// One whole unit, in units of `10^-28`.
pub open spec fn one_unit() -> int {
    10000000000000000000000000000
}

/// The magnitude, in units of `10^-28`, below which no operation of this module overflows:
/// seven times `10^28` whole units (the type tops out at about `7.92 * 10^28`).
pub open spec fn safe_units() -> int {
    7 * one_unit() * one_unit()
}

pub open spec fn abs(x: int) -> int {
    if x < 0 {
        -x
    } else {
        x
    }
}

/// The relative precision every operation keeps: its result is off by at most one part in
/// `10^26` of the exact value, plus one unit of `10^-28` (the results carry about 28 significant
/// digits).
pub open spec fn rel_tolerance() -> int {
    100_000_000_000_000_000_000_000_000
}

/// The value `m / 10^s` in units of `10^-28`.
pub open spec fn units_of(m: int, s: nat) -> int {
    m * pow10((28 - s) as nat)
}

/// `u` (in units of `10^-28`) is exactly representable with scale `s`.
pub open spec fn fits_at(u: int, s: nat) -> bool {
    &&& s <= 28
    &&& u % (pow10((28 - s) as nat) as int) == 0
    &&& abs(u / (pow10((28 - s) as nat) as int)) <= max_mantissa()
}

pub open spec fn max_nat(a: nat, b: nat) -> nat {
    if a < b {
        b
    } else {
        a
    }
}

pub proof fn lemma_pow10_28()
    ensures
        pow10(28) == one_unit(),
        pow10(0) == 1,
{
    reveal_with_fuel(pow10, 29);
}

pub proof fn lemma_pow10_positive(n: nat)
    ensures
        pow10(n) >= 1,
    decreases n,
{
    if n > 0 {
        lemma_pow10_positive((n - 1) as nat);
    }
}

/// The name of the pair `(mantissa, scale)` that `rust_decimal` returns for `a + b`.
pub uninterp spec fn decimal_sum(am: int, asc: nat, bm: int, bsc: nat) -> (int, nat);

/// The name of the pair `(mantissa, scale)` that `rust_decimal` returns for `a - b`.
pub uninterp spec fn decimal_difference(am: int, asc: nat, bm: int, bsc: nat) -> (int, nat);

/// The name of the pair `(mantissa, scale)` that `rust_decimal` returns for `a * b`.
pub uninterp spec fn decimal_product(am: int, asc: nat, bm: int, bsc: nat) -> (int, nat);

/// The name of the pair `(mantissa, scale)` that `rust_decimal` returns for `a / b`.
pub uninterp spec fn decimal_quotient(am: int, asc: nat, bm: int, bsc: nat) -> (int, nat);

/// The pair `(mantissa, scale)` that `rust_decimal` returns for `a.round_dp(dp)`: unchanged when
/// the scale is at most `dp`; otherwise the mantissa's magnitude divided by `10^(scale - dp)`,
/// rounded half to even, with the sign kept, at scale `dp`.
pub open spec fn decimal_round_dp(am: int, asc: nat, dp: nat) -> (int, nat) {
    if asc <= dp {
        (am, asc)
    } else {
        let p = pow10((asc - dp) as nat) as int;
        let n = abs(am);
        let q = n / p;
        let frac = n % p;
        let mag = if 2 * frac > p || (2 * frac == p && q % 2 == 1) {
            q + 1
        } else {
            q
        };
        (if am < 0 {
            -mag
        } else {
            mag
        }, dp)
    }
}

/// The name of the pair `(mantissa, scale)` that `rust_decimal` returns for `a.powd(b)`.
pub uninterp spec fn decimal_powd(am: int, asc: nat, bm: int, bsc: nat) -> (int, nat);

/// The name of what `rust_decimal` parses out of a string (`None` when it refuses it).
pub uninterp spec fn decimal_parse(text: Seq<char>) -> Option<(int, nat)>;

/// A decimal number `mantissa / 10^scale`.
#[derive(Clone, Copy, Debug)]
pub struct Dec {
    m: i128,
    s: u32,
}

impl Dec {
    #[verifier::type_invariant]
    spec fn inv(self) -> bool {
        &&& -max_mantissa() <= self.m <= max_mantissa()
        &&& self.s <= 28
    }

    pub closed spec fn mantissa(self) -> int {
        self.m as int
    }

    pub closed spec fn scale(self) -> nat {
        self.s as nat
    }

    /// The value in units of `10^-28`.
    pub open spec fn units(self) -> int {
        units_of(self.mantissa(), self.scale())
    }

    /// The decimal `m / 10^s` (meaningful for `|m| <= max_mantissa()` and `s <= 28`).
    pub closed spec fn of(m: int, s: nat) -> Dec {
        Dec { m: m as i128, s: s as u32 }
    }

    /// Is `(m, s)` the pair of `self`?
    pub open spec fn is_pair(self, p: (int, nat)) -> bool {
        self.mantissa() == p.0 && self.scale() == p.1
    }

    /// The mantissa and scale bounds every value satisfies.
    pub fn bounds(&self)
        ensures
            -max_mantissa() <= self.mantissa() <= max_mantissa(),
            self.scale() <= 28,
            abs(self.units()) <= max_mantissa() * one_unit(),
    {
        proof {
            use_type_invariant(self);
            lemma_units_bound(self.mantissa(), self.scale());
        }
    }

    /// `num / 10^scale` (the constructor `Decimal::new` of `rust_decimal`).
    pub fn new(num: i64, scale: u32) -> (r: Dec)
        requires
            scale <= 28,
        ensures
            r.mantissa() == num,
            r.scale() == scale,
            r == Dec::of(num as int, scale as nat),
    {
        Dec { m: num as i128, s: scale }
    }

    /// `mantissa / 10^scale`, or `None` when the pair is out of range.
    pub fn from_mantissa_scale(m: i128, s: u32) -> (r: Option<Dec>)
        ensures
            r is Some <==> (-max_mantissa() <= m <= max_mantissa() && s <= 28),
            r matches Some(d) ==> d.mantissa() == m && d.scale() == s,
    {
        if -79228162514264337593543950335i128 <= m && m <= 79228162514264337593543950335i128
            && s <= 28 {
            Some(Dec { m, s })
        } else {
            None
        }
    }

    pub fn from_u32(v: u32) -> (r: Dec)
        ensures
            r.mantissa() == v,
            r.scale() == 0,
            r == Dec::of(v as int, 0),
    {
        Dec { m: v as i128, s: 0 }
    }

    pub fn from_i64(v: i64) -> (r: Dec)
        ensures
            r.mantissa() == v,
            r.scale() == 0,
            r == Dec::of(v as int, 0),
    {
        Dec { m: v as i128, s: 0 }
    }

    pub fn zero() -> (r: Dec)
        ensures
            r.mantissa() == 0,
            r.scale() == 0,
            r.units() == 0,
            r == Dec::of(0, 0),
    {
        Dec { m: 0, s: 0 }
    }

    pub fn one() -> (r: Dec)
        ensures
            r.mantissa() == 1,
            r.scale() == 0,
            r.units() == one_unit(),
            r == Dec::of(1, 0),
    {
        proof {
            lemma_pow10_28();
        }
        Dec { m: 1, s: 0 }
    }

    pub fn mantissa_i128(&self) -> (r: i128)
        ensures
            r == self.mantissa(),
    {
        self.m
    }

    pub fn scale_u32(&self) -> (r: u32)
        ensures
            r == self.scale(),
    {
        self.s
    }

    pub fn is_zero(&self) -> (r: bool)
        ensures
            r == (self.units() == 0),
            r == (self.mantissa() == 0),
    {
        proof {
            use_type_invariant(self);
            lemma_pow10_positive((28 - self.scale()) as nat);
            vstd::arithmetic::mul::lemma_mul_nonzero(
                self.mantissa(),
                pow10((28 - self.scale()) as nat) as int,
            );
        }
        self.m == 0
    }

    /// `-self` (a sign flip: the value is exact).
    pub fn neg(&self) -> (r: Dec)
        ensures
            r.mantissa() == -self.mantissa(),
            r.scale() == self.scale(),
            r.units() == -self.units(),
    {
        proof {
            use_type_invariant(self);
            vstd::arithmetic::mul::lemma_mul_unary_negation(
                self.mantissa(),
                pow10((28 - self.scale()) as nat) as int,
            );
        }
        Dec { m: -self.m, s: self.s }
    }

    /// `|self|`.
    pub fn abs(&self) -> (r: Dec)
        ensures
            r.scale() == self.scale(),
            r.mantissa() == abs(self.mantissa()),
            r.units() == abs(self.units()),
    {
        proof {
            use_type_invariant(self);
            lemma_pow10_positive((28 - self.scale()) as nat);
            vstd::arithmetic::mul::lemma_mul_unary_negation(
                self.mantissa(),
                pow10((28 - self.scale()) as nat) as int,
            );
            if self.mantissa() < 0 {
                vstd::arithmetic::mul::lemma_mul_strictly_positive(
                    -self.mantissa(),
                    pow10((28 - self.scale()) as nat) as int,
                );
            } else {
                vstd::arithmetic::mul::lemma_mul_nonnegative(
                    self.mantissa(),
                    pow10((28 - self.scale()) as nat) as int,
                );
            }
        }
        if self.m < 0 {
            Dec { m: -self.m, s: self.s }
        } else {
            *self
        }
    }
}

/// The pair of `Dec::of(m, s)` is `(m, s)`, and a decimal is determined by its pair.
pub proof fn lemma_dec_of(m: int, s: nat)
    requires
        -max_mantissa() <= m <= max_mantissa(),
        s <= 28,
    ensures
        Dec::of(m, s).mantissa() == m,
        Dec::of(m, s).scale() == s,
        forall|d: Dec| d.mantissa() == m && d.scale() == s ==> d == Dec::of(m, s),
{
}

/// The value of a decimal of scale at most `s` is a whole number of `10^-s`.
pub proof fn lemma_units_divisible(d: Dec, s: nat)
    requires
        d.scale() <= s <= 28,
    ensures
        d.units() % (pow10((28 - s) as nat) as int) == 0,
{
    let k = (s - d.scale()) as nat;
    let j = (28 - s) as nat;
    lemma_pow10_add(k, j);
    assert((28 - d.scale()) as nat == k + j);
    lemma_pow10_positive(j);
    assert(d.units() == (d.mantissa() * pow10(k)) * pow10(j)) by {
        vstd::arithmetic::mul::lemma_mul_is_associative(d.mantissa(), pow10(k) as int, pow10(j) as int);
    }
    vstd::arithmetic::div_mod::lemma_mod_multiples_basic(d.mantissa() * pow10(k), pow10(j) as int);
}

/// A sum or difference of two decimals of at most 4 decimal places, below `7 * 10^24` in
/// magnitude, is exact at the larger of their scales.
pub proof fn lemma_small_scale_exact(a: Dec, b: Dec, u: int)
    requires
        a.scale() <= 4,
        b.scale() <= 4,
        u == a.units() + b.units() || u == a.units() - b.units(),
        abs(u) <= 7_000_000_000_000_000_000_000_000 * one_unit(),
    ensures
        fits_at(u, max_nat(a.scale(), b.scale())),
{
    let s = max_nat(a.scale(), b.scale());
    let j = (28 - s) as nat;
    let p = pow10(j) as int;
    lemma_units_divisible(a, s);
    lemma_units_divisible(b, s);
    lemma_pow10_positive(j);
    lemma_pow10_monotone(24, j);
    reveal_with_fuel(pow10, 25);
    assert(pow10(24) == 1_000_000_000_000_000_000_000_000);
    vstd::arithmetic::div_mod::lemma_fundamental_div_mod(a.units(), p);
    vstd::arithmetic::div_mod::lemma_fundamental_div_mod(b.units(), p);
    let qa = a.units() / p;
    let qb = b.units() / p;
    let q = if u == a.units() + b.units() { qa + qb } else { qa - qb };
    assert(u == q * p) by (nonlinear_arith)
        requires
            a.units() == p * qa,
            b.units() == p * qb,
            u == a.units() + b.units() || u == a.units() - b.units(),
            q == (if u == a.units() + b.units() { qa + qb } else { qa - qb }),
    ;
    vstd::arithmetic::div_mod::lemma_mod_multiples_basic(q, p);
    vstd::arithmetic::div_mod::lemma_div_multiples_vanish(q, p);
    vstd::arithmetic::mul::lemma_mul_is_commutative(q, p);
    assert(abs(q) <= max_mantissa()) by (nonlinear_arith)
        requires
            u == q * p,
            p >= 1_000_000_000_000_000_000_000_000,
            abs(u) <= 7_000_000_000_000_000_000_000_000 * one_unit(),
            one_unit() == 10000000000000000000000000000,
            max_mantissa() == 79228162514264337593543950335,
    ;
}

/// A whole number `v` as a decimal has the value `v` whole units.
pub proof fn lemma_int_units(v: int)
    requires
        -max_mantissa() <= v <= max_mantissa(),
    ensures
        Dec::of(v, 0).units() == v * one_unit(),
{
    lemma_dec_of(v, 0);
    lemma_pow10_28();
}

pub proof fn lemma_pow10_add(a: nat, b: nat)
    ensures
        pow10(a + b) == pow10(a) * pow10(b),
    decreases a,
{
    if a > 0 {
        let a1 = (a - 1) as nat;
        lemma_pow10_add(a1, b);
        assert((a + b - 1) as nat == a1 + b);
        assert(pow10(a + b) == 10 * pow10(a1 + b));
        assert(pow10(a) == 10 * pow10(a1));
        let x = pow10(a1) as int;
        let y = pow10(b) as int;
        assert(pow10(a1 + b) == x * y);
        assert(10 * (x * y) == (10 * x) * y) by (nonlinear_arith);
        assert(pow10(a + b) == 10 * (x * y));
        assert(pow10(a) == 10 * x);
        assert(pow10(a + b) == pow10(a) * y);
    } else {
        assert(pow10(0) == 1);
        assert(a + b == b);
        assert(pow10(a) * pow10(b) == pow10(b));
    }
}

/// Adding one whole unit to a decimal between 0 and 6 is exact at the decimal's own scale.
pub proof fn lemma_plus_one_exact(d: Dec)
    requires
        0 <= d.units() <= 6 * one_unit(),
        -max_mantissa() <= d.mantissa() <= max_mantissa(),
        d.scale() <= 28,
    ensures
        fits_at(d.units() + one_unit(), max_nat(d.scale(), 0)),
{
    let s = d.scale();
    let m = d.mantissa();
    let k = (28 - s) as nat;
    let p = pow10(k) as int;
    let q = pow10(s) as int;
    lemma_pow10_add(s, k);
    lemma_pow10_28();
    lemma_pow10_positive(k);
    lemma_pow10_positive(s);
    lemma_pow10_monotone(s, 28);
    assert(q * p == one_unit());
    assert(d.units() == m * p);
    assert(m >= 0) by {
        if m < 0 {
            vstd::arithmetic::mul::lemma_mul_strictly_positive(-m, p);
            vstd::arithmetic::mul::lemma_mul_unary_negation(m, p);
        }
    }
    assert(m <= 6 * q) by {
        if m > 6 * q {
            vstd::arithmetic::mul::lemma_mul_strict_inequality(6 * q, m, p);
            vstd::arithmetic::mul::lemma_mul_is_associative(6, q, p);
        }
    }
    assert(d.units() + one_unit() == (m + q) * p) by {
        vstd::arithmetic::mul::lemma_mul_is_distributive_add_other_way(p, m, q);
    }
    vstd::arithmetic::div_mod::lemma_mod_multiples_basic(m + q, p);
    vstd::arithmetic::div_mod::lemma_div_multiples_vanish(m + q, p);
    vstd::arithmetic::mul::lemma_mul_is_commutative(m + q, p);
}

pub proof fn lemma_units_bound(m: int, s: nat)
    requires
        -max_mantissa() <= m <= max_mantissa(),
        s <= 28,
    ensures
        abs(units_of(m, s)) <= max_mantissa() * one_unit(),
{
    lemma_pow10_monotone((28 - s) as nat, 28);
    lemma_pow10_28();
    lemma_pow10_positive((28 - s) as nat);
    let p = pow10((28 - s) as nat) as int;
    if m >= 0 {
        vstd::arithmetic::mul::lemma_mul_inequality(m, max_mantissa(), p);
        vstd::arithmetic::mul::lemma_mul_inequality(p, one_unit(), max_mantissa());
        vstd::arithmetic::mul::lemma_mul_nonnegative(m, p);
    } else {
        vstd::arithmetic::mul::lemma_mul_inequality(-m, max_mantissa(), p);
        vstd::arithmetic::mul::lemma_mul_inequality(p, one_unit(), max_mantissa());
        vstd::arithmetic::mul::lemma_mul_unary_negation(m, p);
        vstd::arithmetic::mul::lemma_mul_nonnegative(-m, p);
    }
    vstd::arithmetic::mul::lemma_mul_is_commutative(p, max_mantissa());
    vstd::arithmetic::mul::lemma_mul_is_commutative(one_unit(), max_mantissa());
}

pub proof fn lemma_pow10_monotone(a: nat, b: nat)
    requires
        a <= b,
    ensures
        pow10(a) <= pow10(b),
    decreases b - a,
{
    if a < b {
        lemma_pow10_monotone(a, (b - 1) as nat);
        lemma_pow10_positive((b - 1) as nat);
    }
}

impl PartialEq for Dec {
    fn eq(&self, other: &Dec) -> (r: bool) {
        dec_eq(*self, *other)
    }
}

impl Eq for Dec {

}

impl PartialEqSpecImpl for Dec {
    open spec fn obeys_eq_spec() -> bool {
        true
    }

    open spec fn eq_spec(&self, other: &Dec) -> bool {
        self.units() == other.units()
    }
}

/// `10^n` as an integer.
fn pow10_u128(n: u32) -> (r: u128)
    requires
        n <= 28,
    ensures
        r == pow10(n as nat),
        1 <= r <= one_unit(),
{
    let mut r: u128 = 1;
    let mut i: u32 = 0;
    proof {
        reveal_with_fuel(pow10, 1);
    }
    while i < n
        invariant
            i <= n <= 28,
            r == pow10(i as nat),
        decreases n - i,
    {
        proof {
            lemma_pow10_monotone(i as nat, 27);
            lemma_pow10_28();
            assert(pow10(28) == 10 * pow10(27));
        }
        r = r * 10;
        i = i + 1;
    }
    proof {
        lemma_pow10_positive(n as nat);
        lemma_pow10_monotone(n as nat, 28);
        lemma_pow10_28();
    }
    r
}

/// The value of `d` in units, split as `q * 10^28 + r` with `0 <= r < 10^28`.
fn split_units(d: Dec) -> (r: (i128, i128))
    ensures
        d.units() == r.0 * one_unit() + r.1,
        0 <= r.1 < one_unit(),
        -max_mantissa() - 1 <= r.0 <= max_mantissa(),
{
    proof {
        use_type_invariant(&d);
        lemma_pow10_add(d.s as nat, (28 - d.s) as nat);
        lemma_pow10_28();
    }
    let p = pow10_u128(d.s);
    let k = pow10_u128(28 - d.s);
    assert(p * k == one_unit());
    let n: u128 = if d.m >= 0 {
        d.m as u128
    } else {
        (-d.m) as u128
    };
    let qq = n / p;
    let rr = n % p;
    proof {
        vstd::arithmetic::div_mod::lemma_fundamental_div_mod(n as int, p as int);
        assert(qq <= n) by (nonlinear_arith)
            requires
                n == p * qq + rr,
                p >= 1,
                rr >= 0,
                qq >= 0,
        ;
    }
    let (q, rm): (i128, i128) = if d.m >= 0 {
        (qq as i128, rr as i128)
    } else if rr == 0 {
        (-(qq as i128), 0)
    } else {
        (-(qq as i128) - 1, (p - rr) as i128)
    };
    proof {
        if d.m >= 0 {
            assert(d.m == q * p + rm) by (nonlinear_arith)
                requires
                    d.m == p * qq + rr,
                    q == qq,
                    rm == rr,
            ;
        } else if rr == 0 {
            assert(d.m == q * p + rm) by (nonlinear_arith)
                requires
                    -d.m == p * qq + rr,
                    rr == 0,
                    q == -qq,
                    rm == 0,
            ;
        } else {
            assert(d.m == q * p + rm) by (nonlinear_arith)
                requires
                    -d.m == p * qq + rr,
                    q == -qq - 1,
                    rm == p - rr,
            ;
        }
        assert(0 <= rm < p);
        assert(d.units() == d.m * k);
        assert(d.m * k == q * one_unit() + rm * k) by (nonlinear_arith)
            requires
                d.m == q * p + rm,
                p * k == one_unit(),
        ;
        assert(0 <= rm * k < one_unit()) by (nonlinear_arith)
            requires
                0 <= rm < p,
                p * k == one_unit(),
                k >= 1,
        ;
    }
    (q, rm * (k as i128))
}

/// Does `a + b` stay within the range every sum of the library is held to
/// (`|a + b| <= safe_units()`)? Decided exactly, on integers.
pub fn sum_within_safe(a: Dec, b: Dec) -> (r: bool)
    ensures
        r == (abs(a.units() + b.units()) <= safe_units()),
{
    let (qa, ra) = split_units(a);
    let (qb, rb) = split_units(b);
    let mut q: i128 = qa + qb;
    let mut r: i128 = ra + rb;
    if r >= 10000000000000000000000000000 {
        q = q + 1;
        r = r - 10000000000000000000000000000;
    }
    let seven: i128 = 70000000000000000000000000000;
    let res = q >= -seven && (q < seven || (q == seven && r == 0));
    assert(a.units() + b.units() == q * one_unit() + r);
    res
}

/// `a == b` on `rust_decimal` values: equality of the numbers, whatever their scales.
#[verifier::external_body]
pub(crate) fn dec_eq(a: Dec, b: Dec) -> (r: bool)
    ensures
        r == (a.units() == b.units()),
{
    Decimal::from_i128_with_scale(a.m, a.s) == Decimal::from_i128_with_scale(b.m, b.s)
}

/// `a < b` on `rust_decimal` values: the order of the numbers.
#[verifier::external_body]
pub(crate) fn dec_lt(a: Dec, b: Dec) -> (r: bool)
    ensures
        r == (a.units() < b.units()),
{
    Decimal::from_i128_with_scale(a.m, a.s) < Decimal::from_i128_with_scale(b.m, b.s)
}

/// `a <= b` on `rust_decimal` values: the order of the numbers.
#[verifier::external_body]
pub(crate) fn dec_le(a: Dec, b: Dec) -> (r: bool)
    ensures
        r == (a.units() <= b.units()),
{
    Decimal::from_i128_with_scale(a.m, a.s) <= Decimal::from_i128_with_scale(b.m, b.s)
}

/// `Ord::max`: the second argument unless the first is strictly larger.
pub fn dec_max(a: Dec, b: Dec) -> (r: Dec)
    ensures
        r == (if b.units() < a.units() {
            a
        } else {
            b
        }),
        r.units() >= a.units(),
        r.units() >= b.units(),
{
    if dec_lt(b, a) {
        a
    } else {
        b
    }
}

/// `Ord::min`: the first argument unless the second is strictly smaller.
pub fn dec_min(a: Dec, b: Dec) -> (r: Dec)
    ensures
        r == (if b.units() < a.units() {
            b
        } else {
            a
        }),
        r.units() <= a.units(),
        r.units() <= b.units(),
{
    if dec_lt(b, a) {
        b
    } else {
        a
    }
}

/// `Ord::clamp` (which panics when `lo > hi`).
pub fn dec_clamp(v: Dec, lo: Dec, hi: Dec) -> (r: Dec)
    requires
        lo.units() <= hi.units(),
    ensures
        r == (if v.units() < lo.units() {
            lo
        } else if hi.units() < v.units() {
            hi
        } else {
            v
        }),
        lo.units() <= r.units() <= hi.units(),
{
    if dec_lt(v, lo) {
        lo
    } else if dec_lt(hi, v) {
        hi
    } else {
        v
    }
}

/// `a + b` (`rust_decimal`'s `Add`, which panics on overflow). The value is exact whenever the
/// sum fits at the larger of the two scales, and otherwise rounded by less than one unit; the
/// result's scale never exceeds the larger of the two (it is that scale, the other operand's when
/// one is zero, or lower after rounding).
#[verifier::external_body]
pub(crate) fn dec_add(a: Dec, b: Dec) -> (r: Dec)
    requires
        abs(a.units() + b.units()) <= safe_units(),
    ensures
        r.is_pair(decimal_sum(a.mantissa(), a.scale(), b.mantissa(), b.scale())),
        fits_at(a.units() + b.units(), max_nat(a.scale(), b.scale())) ==> r.units() == a.units()
            + b.units(),
        r.scale() <= max_nat(a.scale(), b.scale()),
        abs(r.units() - (a.units() + b.units())) <= one_unit(),
        abs(r.units() - (a.units() + b.units())) * rel_tolerance() <= abs(a.units() + b.units())
            + rel_tolerance(),
{
    let r = Decimal::from_i128_with_scale(a.m, a.s) + Decimal::from_i128_with_scale(b.m, b.s);
    Dec { m: r.mantissa(), s: r.scale() }
}

/// `a - b` (`rust_decimal`'s `Sub`, which panics on overflow). Exact whenever the difference
/// fits at the larger of the two scales, and otherwise rounded by less than one unit.
#[verifier::external_body]
pub(crate) fn dec_sub(a: Dec, b: Dec) -> (r: Dec)
    requires
        abs(a.units() - b.units()) <= safe_units(),
    ensures
        r.is_pair(decimal_difference(a.mantissa(), a.scale(), b.mantissa(), b.scale())),
        fits_at(a.units() - b.units(), max_nat(a.scale(), b.scale())) ==> r.units() == a.units()
            - b.units(),
        r.scale() <= max_nat(a.scale(), b.scale()),
        abs(r.units() - (a.units() - b.units())) <= one_unit(),
        abs(r.units() - (a.units() - b.units())) * rel_tolerance() <= abs(a.units() - b.units())
            + rel_tolerance(),
{
    let r = Decimal::from_i128_with_scale(a.m, a.s) - Decimal::from_i128_with_scale(b.m, b.s);
    Dec { m: r.mantissa(), s: r.scale() }
}

/// `a * b` (`rust_decimal`'s `Mul`, which panics on overflow). Exact when the product of the
/// mantissas fits and the scales add up to at most 28; otherwise rounded by less than a unit.
#[verifier::external_body]
pub(crate) fn dec_mul(a: Dec, b: Dec) -> (r: Dec)
    requires
        abs(a.units() * b.units()) <= safe_units() * one_unit(),
    ensures
        r.is_pair(decimal_product(a.mantissa(), a.scale(), b.mantissa(), b.scale())),
        a.scale() + b.scale() <= 28 && abs(a.mantissa() * b.mantissa()) <= max_mantissa()
            ==> r.units() * one_unit() == a.units() * b.units(),
        abs(r.units() * one_unit() - a.units() * b.units()) <= one_unit() * one_unit(),
        abs(r.units() * one_unit() - a.units() * b.units()) * rel_tolerance() <= abs(
            a.units() * b.units(),
        ) + rel_tolerance() * one_unit(),
{
    let r = Decimal::from_i128_with_scale(a.m, a.s) * Decimal::from_i128_with_scale(b.m, b.s);
    Dec { m: r.mantissa(), s: r.scale() }
}

/// `a / b` (`rust_decimal`'s `Div`, which panics on a zero divisor or on overflow). The quotient
/// is rounded by less than one unit.
#[verifier::external_body]
pub(crate) fn dec_div(a: Dec, b: Dec) -> (r: Dec)
    requires
        b.units() != 0,
        abs(a.units() * one_unit()) <= safe_units() * abs(b.units()),
    ensures
        r.is_pair(decimal_quotient(a.mantissa(), a.scale(), b.mantissa(), b.scale())),
        abs(r.units() * b.units() - a.units() * one_unit()) <= one_unit() * abs(b.units()),
        abs(r.units() * b.units() - a.units() * one_unit()) * rel_tolerance() <= abs(a.units())
            * one_unit() + rel_tolerance() * abs(b.units()),
{
    let r = Decimal::from_i128_with_scale(a.m, a.s) / Decimal::from_i128_with_scale(b.m, b.s);
    Dec { m: r.mantissa(), s: r.scale() }
}

/// The pair of an optional decimal.
pub open spec fn pair_of_opt(r: Option<Dec>) -> Option<(int, nat)> {
    match r {
        Some(q) => Some((q.mantissa(), q.scale())),
        None => None,
    }
}

/// `a.checked_div(b)`: `None` on a zero divisor or an overflowing quotient; otherwise the same
/// quotient as `/` (both go through the same division), which exists at least whenever the
/// quotient is within the safe range.
#[verifier::external_body]
pub(crate) fn dec_checked_div(a: Dec, b: Dec) -> (r: Option<Dec>)
    ensures
        b.units() == 0 ==> pair_of_opt(r) == None::<(int, nat)>,
        b.units() != 0 && abs(a.units() * one_unit()) <= safe_units() * abs(b.units())
            ==> pair_of_opt(r) is Some,
        pair_of_opt(r) is Some ==> pair_of_opt(r) == Some(
            decimal_quotient(a.mantissa(), a.scale(), b.mantissa(), b.scale()),
        ),
{
    Decimal::from_i128_with_scale(a.m, a.s).checked_div(Decimal::from_i128_with_scale(b.m, b.s)).map(
        |q| Dec { m: q.mantissa(), s: q.scale() },
    )
}

/// `a.round_dp(dp)`: banker's rounding to `dp` decimal places. A value that already has at most
/// `dp` decimals comes back unchanged; otherwise the result has scale `dp` and moves the value
/// by at most half a unit of that place.
#[verifier::external_body]
pub(crate) fn dec_round_dp(a: Dec, dp: u32) -> (r: Dec)
    requires
        dp <= 28,
    ensures
        r.is_pair(decimal_round_dp(a.mantissa(), a.scale(), dp as nat)),
        a.scale() <= dp ==> r == a,
        a.scale() > dp ==> r.scale() == dp,
        2 * abs(r.units() - a.units()) <= pow10((28 - dp) as nat),
{
    let r = Decimal::from_i128_with_scale(a.m, a.s).round_dp(dp);
    Dec { m: r.mantissa(), s: r.scale() }
}

/// `base.powd(exp)` (`MathematicalOps::powd`: an exact power for a whole exponent, otherwise the
/// approximation `e^(exp * ln(base))`). Called only with a base in `[0.89, 2.01]` and an exponent
/// in `[0, 71]`, where the power lies in `[0.89^71, 2.01^71]` (about `[2.6e-4, 3.4e21]`) and
/// cannot overflow. Stated: an exponent of zero gives exactly one, and the result lies within
/// those bounds with some slack (`1/4000 <= r <= 4 * 10^21`); with a base of at most `1.21` the
/// power is at most `1.21^71` (about `7.6e5`), stated as `r <= 10^6`; with a base of at least
/// `1 - 10^-25` the power is at least `1 - 10^-20` (a whole power of a base of at least one is a
/// product that never drops below one, and the `e^(exp * ln(base))` path is accurate to far
/// better than `10^-20` there). Nothing finer is stated of the approximation.
#[verifier::external_body]
pub(crate) fn dec_powd(base: Dec, exp: Dec) -> (r: Dec)
    requires
        89 * one_unit() <= 100 * base.units() <= 201 * one_unit(),
        0 <= exp.units() <= 71 * one_unit(),
    ensures
        r.is_pair(decimal_powd(base.mantissa(), base.scale(), exp.mantissa(), exp.scale())),
        exp.units() == 0 ==> r.units() == one_unit(),
        one_unit() <= 4000 * r.units(),
        r.units() <= 4_000_000_000_000_000_000_000 * one_unit(),
        100 * base.units() <= 121 * one_unit() ==> r.units() <= 1_000_000 * one_unit(),
        base.units() >= one_unit() - 1000 ==> r.units() >= one_unit() - 100_000_000,
{
    let r = Decimal::from_i128_with_scale(base.m, base.s).powd(
        Decimal::from_i128_with_scale(exp.m, exp.s),
    );
    Dec { m: r.mantissa(), s: r.scale() }
}

/// `Decimal::from_str`: the decimal written in `text`, or `None` when `rust_decimal` refuses it.
#[verifier::external_body]
pub(crate) fn dec_parse(text: &str) -> (r: Option<Dec>)
    ensures
        match decimal_parse(text@) {
            None => r is None,
            Some(p) => r matches Some(d) && d.is_pair(p),
        },
{
    match Decimal::from_str(text) {
        Ok(d) => Some(Dec { m: d.mantissa(), s: d.scale() }),
        Err(_) => None,
    }
}

} // verus!
