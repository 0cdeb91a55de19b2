//! Fixed-point scalar arithmetic.
//!
//! Every real-valued quantity of the renderer is a `Fixed`: an integer count
//! of ten-thousandths (`SCALE` raw units per whole unit).  Multiplication,
//! division and square root round toward negative infinity; each operation's
//! contract states its result exactly in terms of the raw integers, so the
//! geometric and radiometric code above this module can be proved against
//! exact integer formulas.

use vstd::prelude::*;
use vstd::arithmetic::div_mod::{
    lemma_div_is_ordered, lemma_fundamental_div_mod, lemma_fundamental_div_mod_converse_div,
};

verus! {

/// Raw units per whole unit: scalars carry four decimal places.
pub const SCALE: i128 = 10_000;

/// Largest raw magnitude accepted as a multiplication operand.
pub const OP_LIMIT: i128 = 1_000_000_000_000_000_000;

/// Largest raw magnitude accepted as a division or square-root operand.
pub const BIG_LIMIT: i128 = 1_000_000_000_000_000_000_000_000_000_000_000;

/// A scalar: `raw` ten-thousandths of a unit.
#[derive(Clone, Copy, Debug, PartialEq, Eq, Structural)]
pub struct Fixed {
    pub raw: i128,
}

/// Whether a mathematical integer fits in the raw representation.
pub open spec fn fits_raw(x: int) -> bool {
    i128::MIN <= x <= i128::MAX
}

/// Floor division (rounding toward negative infinity) for a nonzero divisor.
pub open spec fn floor_div(n: int, d: int) -> int {
    if d > 0 {
        n / d
    } else {
        (-n) / (-d)
    }
}

/// The raw value of the product of two scalars given by raw values.
pub open spec fn fmul_raw(a: int, b: int) -> int {
    floor_div(a * b, SCALE as int)
}

/// The raw value of the quotient of two scalars given by raw values.
pub open spec fn fdiv_raw(a: int, b: int) -> int {
    floor_div(a * (SCALE as int), b)
}

/// The smaller of two raw values.
pub open spec fn min_raw(a: int, b: int) -> int {
    if a <= b {
        a
    } else {
        b
    }
}

/// The larger of two raw values.
pub open spec fn max_raw(a: int, b: int) -> int {
    if a >= b {
        a
    } else {
        b
    }
}

/// The magnitude of a raw value.
pub open spec fn abs_raw(a: int) -> int {
    if a >= 0 {
        a
    } else {
        -a
    }
}

/// The integer square root: the greatest `r` with `r * r <= n`.
pub open spec fn isqrt_spec(n: nat) -> nat
    decreases n,
{
    if n == 0 {
        0
    } else {
        let p = isqrt_spec((n - 1) as nat);
        if (p + 1) * (p + 1) <= n {
            p + 1
        } else {
            p
        }
    }
}

/// The raw value of the square root of a nonnegative scalar with raw value `a`.
pub open spec fn fsqrt_raw(a: int) -> int {
    isqrt_spec((a * (SCALE as int)) as nat) as int
}

/// `isqrt_spec(n)` is the floor of the square root of `n`.
pub proof fn lemma_isqrt_bounds(n: nat)
    ensures
        isqrt_spec(n) * isqrt_spec(n) <= n,
        n < (isqrt_spec(n) + 1) * (isqrt_spec(n) + 1),
    decreases n,
{
    if n == 0 {
        let s = isqrt_spec(n);
        assert(s == 0);
        assert((s + 1) * (s + 1) == 1) by (nonlinear_arith)
            requires
                s == 0nat,
        {}
    } else {
        let m = (n - 1) as nat;
        lemma_isqrt_bounds(m);
        let p = isqrt_spec(m);
        assert(p * p <= m);
        assert(m < (p + 1) * (p + 1));
        if (p + 1) * (p + 1) <= n {
            assert(isqrt_spec(n) == p + 1);
            assert(n <= (p + 1) * (p + 1)) by {
                assert(n - 1 < (p + 1) * (p + 1));
            }
            assert(n < (p + 2) * (p + 2)) by (nonlinear_arith)
                requires
                    n <= (p + 1) * (p + 1),
                    0 <= p,
            {}
        } else {
            assert(isqrt_spec(n) == p);
            assert(p * p <= n);
            assert(n < (p + 1) * (p + 1));
        }
        assert(isqrt_spec(n) * isqrt_spec(n) <= n);
        assert(n < (isqrt_spec(n) + 1) * (isqrt_spec(n) + 1));
    }
}

/// Any `r` with `r * r <= n < (r + 1) * (r + 1)` is the integer square root.
pub proof fn lemma_isqrt_unique(n: nat, r: nat)
    requires
        r * r <= n,
        n < (r + 1) * (r + 1),
    ensures
        r == isqrt_spec(n),
{
    let s = isqrt_spec(n);
    lemma_isqrt_bounds(n);
    if r < s {
        assert((r + 1) * (r + 1) <= s * s) by (nonlinear_arith)
            requires
                r + 1 <= s,
                0 <= r,
        {}
    }
    if s < r {
        assert((s + 1) * (s + 1) <= r * r) by (nonlinear_arith)
            requires
                s + 1 <= r,
                0 <= s,
        {}
    }
}

/// The magnitude of a product is bounded by the product of the bounds.
pub proof fn lemma_mul_magnitude(a: int, b: int, aa: int, bb: int)
    by (nonlinear_arith)
    requires
        -aa <= a <= aa,
        -bb <= b <= bb,
    ensures
        -(aa * bb) <= a * b <= aa * bb,
{
}

/// Floor division by a positive divisor is bounded by the numerator's bounds.
pub proof fn lemma_floor_div_bounds(n: int, d: int, m: int)
    requires
        d > 0,
        -m <= n <= m,
        0 <= m,
    ensures
        -(m / d) - 1 <= n / d <= m / d,
{
    lemma_div_is_ordered(n, m, d);
    lemma_div_is_ordered(-m, n, d);
    assert((-m) / d >= -(m / d) - 1) by {
        lemma_fundamental_div_mod(m, d);
        let q = m / d;
        let r = m % d;
        if r == 0 {
            assert(-m == (-q) * d + 0) by (nonlinear_arith)
                requires
                    m == d * q + r,
                    r == 0,
            {}
            lemma_fundamental_div_mod_converse_div(-m, d, -q, 0);
        } else {
            assert(-m == (-q - 1) * d + (d - r)) by (nonlinear_arith)
                requires
                    m == d * q + r,
            {}
            lemma_fundamental_div_mod_converse_div(-m, d, -q - 1, d - r);
        }
    }
}

/// A product's raw value is bounded by the scaled product of the bounds.
pub proof fn lemma_fmul_bound(a: int, b: int, aa: int, bb: int)
    requires
        -aa <= a <= aa,
        -bb <= b <= bb,
    ensures
        -((aa * bb) / (SCALE as int)) - 1 <= fmul_raw(a, b) <= (aa * bb) / (SCALE as int),
{
    lemma_mul_magnitude(a, b, aa, bb);
    lemma_floor_div_bounds(a * b, SCALE as int, aa * bb);
}

/// A quotient's raw magnitude is at most the numerator bound times `SCALE`.
pub proof fn lemma_fdiv_bound(a: int, b: int, aa: int)
    requires
        -aa <= a <= aa,
        b != 0,
    ensures
        -(aa * (SCALE as int)) - 1 <= fdiv_raw(a, b) <= aa * (SCALE as int),
{
    let s = SCALE as int;
    let n = a * s;
    assert(-(aa * s) <= n <= aa * s) by (nonlinear_arith)
        requires
            -aa <= a <= aa,
            s == SCALE as int,
            n == a * s,
    {}
    if b > 0 {
        lemma_floor_div_bounds(n, b, aa * s);
        vstd::arithmetic::div_mod::lemma_div_nonincreasing(aa * s, b);
    } else {
        lemma_floor_div_bounds(-n, -b, aa * s);
        vstd::arithmetic::div_mod::lemma_div_nonincreasing(aa * s, -b);
    }
}

/// The product of two nonnegative scalars is nonnegative.
pub proof fn lemma_fmul_nonneg(a: int, b: int)
    requires
        0 <= a,
        0 <= b,
    ensures
        0 <= fmul_raw(a, b),
{
    assert(0 <= a * b) by (nonlinear_arith)
        requires
            0 <= a,
            0 <= b,
    {}
    vstd::arithmetic::div_mod::lemma_div_pos_is_pos(a * b, SCALE as int);
}

/// The product of a scalar with itself is nonnegative.
pub proof fn lemma_fmul_self_nonneg(a: int)
    ensures
        0 <= fmul_raw(a, a),
{
    assert(0 <= a * a) by (nonlinear_arith) {}
    vstd::arithmetic::div_mod::lemma_div_pos_is_pos(a * a, SCALE as int);
}

/// Scaling by a factor of at most one does not increase a nonnegative scalar.
pub proof fn lemma_fmul_unit_upper(a: int, b: int)
    requires
        0 <= a <= SCALE,
        0 <= b,
    ensures
        fmul_raw(a, b) <= b,
{
    let s = SCALE as int;
    assert(a * b <= s * b) by (nonlinear_arith)
        requires
            0 <= a <= s,
            0 <= b,
    {}
    lemma_div_is_ordered(a * b, s * b, s);
    vstd::arithmetic::div_mod::lemma_div_multiples_vanish(b, s);
}

/// Negating one factor negates the scaled product, up to one unit of floor
/// rounding.
pub proof fn lemma_fmul_neg(a: int, b: int)
    ensures
        -fmul_raw(a, b) - 1 <= fmul_raw(-a, b) <= -fmul_raw(a, b),
{
    let s = SCALE as int;
    assert((-a) * b == -(a * b)) by (nonlinear_arith) {}
    lemma_div_neg_numerator(a * b, s);
}

/// Floor division of a negated numerator.
pub proof fn lemma_div_neg_numerator(n: int, d: int)
    requires
        0 < d,
    ensures
        -(n / d) - 1 <= (-n) / d <= -(n / d),
{
    lemma_fundamental_div_mod(n, d);
    let q = n / d;
    let r = n % d;
    if r == 0 {
        assert(-n == (-q) * d + 0) by (nonlinear_arith)
            requires
                n == d * q + r,
                r == 0,
        {}
        lemma_fundamental_div_mod_converse_div(-n, d, -q, 0);
    } else {
        assert(-n == (-q - 1) * d + (d - r)) by (nonlinear_arith)
            requires
                n == d * q + r,
        {}
        lemma_fundamental_div_mod_converse_div(-n, d, -q - 1, d - r);
    }
}

/// Dividing by a scalar of at least one cannot grow the magnitude by more
/// than one unit of rounding.
pub proof fn lemma_fdiv_shrink(a: int, b: int)
    requires
        b >= SCALE,
    ensures
        -abs_raw(a) - 1 <= fdiv_raw(a, b) <= abs_raw(a) + 1,
{
    let s = SCALE as int;
    vstd::arithmetic::div_mod::lemma_div_of0(b);
    if a >= 0 {
        vstd::arithmetic::div_mod::lemma_div_is_ordered_by_denominator(a * s, s, b);
        lemma_div_multiples_vanish_local(a, s);
        vstd::arithmetic::div_mod::lemma_div_pos_is_pos(a * s, b);
    } else {
        assert(a * s <= 0) by (nonlinear_arith)
            requires
                a < 0,
                s > 0,
        {}
        lemma_div_is_ordered(a * s, 0, b);
        lemma_div_neg_numerator(-(a * s), b);
        vstd::arithmetic::div_mod::lemma_div_is_ordered_by_denominator(-(a * s), s, b);
        lemma_div_multiples_vanish_local(-a, s);
        assert((-a) * s == -(a * s)) by (nonlinear_arith) {}
    }
}

/// `(a * s) / s == a` for positive `s`.
proof fn lemma_div_multiples_vanish_local(a: int, s: int)
    requires
        0 < s,
    ensures
        (a * s) / s == a,
{
    vstd::arithmetic::div_mod::lemma_div_multiples_vanish(a, s);
    assert(a * s == s * a) by (nonlinear_arith) {}
}

/// Floor division of `n` by positive `d`, exact per the `int` division of vstd.
pub(crate) fn floor_div_exec(n: i128, d: i128) -> (q: i128)
    requires
        0 < d,
        -BIG_LIMIT * (SCALE as int) <= n <= BIG_LIMIT * (SCALE as int),
    ensures
        q == n / d,
{
    if n >= 0 {
        let qu: u128 = (n as u128) / (d as u128);
        qu as i128
    } else {
        let nm: u128 = (-n) as u128;
        let du: u128 = d as u128;
        let q0: u128 = nm / du;
        let r0: u128 = nm % du;
        if r0 == 0 {
            let q = -(q0 as i128);
            proof {
                lemma_fundamental_div_mod(nm as int, d as int);
                assert(n == q * d + 0) by (nonlinear_arith)
                    requires
                        nm == -(n as int),
                        q == -(q0 as int),
                        nm == d * (nm as int / d as int) + (nm as int % d as int),
                        q0 == nm as int / d as int,
                        nm as int % d as int == 0,
                {}
                lemma_fundamental_div_mod_converse_div(n as int, d as int, q as int, 0);
            }
            q
        } else {
            let q = -(q0 as i128) - 1;
            proof {
                lemma_fundamental_div_mod(nm as int, d as int);
                let rr = d - r0;
                assert(n == q * d + rr) by (nonlinear_arith)
                    requires
                        nm == -(n as int),
                        q == -(q0 as int) - 1,
                        rr == d - (r0 as int),
                        nm == d * (nm as int / d as int) + (nm as int % d as int),
                        q0 == nm as int / d as int,
                        r0 == nm as int % d as int,
                {}
                lemma_fundamental_div_mod_converse_div(n as int, d as int, q as int, rr as int);
            }
            q
        }
    }
}

impl Fixed {
    /// The scalar with the given count of raw units.
    pub fn from_raw(raw: i128) -> (r: Fixed)
        ensures
            r.raw == raw,
    {
        Fixed { raw }
    }

    /// The scalar equal to the given whole number.
    pub fn from_int(n: i64) -> (r: Fixed)
        ensures
            r.raw == n * (SCALE as int),
    {
        Fixed { raw: (n as i128) * SCALE }
    }

    /// The scalar zero.
    pub fn zero() -> (r: Fixed)
        ensures
            r.raw == 0,
    {
        Fixed { raw: 0 }
    }

    /// The scalar one.
    pub fn one() -> (r: Fixed)
        ensures
            r.raw == SCALE,
    {
        Fixed { raw: SCALE }
    }

    /// The sum.
    pub fn add(self, o: Fixed) -> (r: Fixed)
        requires
            fits_raw(self.raw + o.raw),
        ensures
            r.raw == self.raw + o.raw,
    {
        Fixed { raw: self.raw + o.raw }
    }

    /// The difference.
    pub fn sub(self, o: Fixed) -> (r: Fixed)
        requires
            fits_raw(self.raw - o.raw),
        ensures
            r.raw == self.raw - o.raw,
    {
        Fixed { raw: self.raw - o.raw }
    }

    /// The negation.
    pub fn neg(self) -> (r: Fixed)
        requires
            self.raw > i128::MIN,
        ensures
            r.raw == -self.raw,
    {
        Fixed { raw: -self.raw }
    }

    /// The product, rounded toward negative infinity.
    pub fn mul(self, o: Fixed) -> (r: Fixed)
        requires
            -OP_LIMIT <= self.raw <= OP_LIMIT,
            -OP_LIMIT <= o.raw <= OP_LIMIT,
        ensures
            r.raw == fmul_raw(self.raw as int, o.raw as int),
    {
        proof {
            lemma_mul_magnitude(self.raw as int, o.raw as int, OP_LIMIT as int, OP_LIMIT as int);
        }
        let p: i128 = self.raw * o.raw;
        Fixed { raw: floor_div_exec(p, SCALE) }
    }

    /// The quotient, rounded toward negative infinity.
    pub fn div(self, o: Fixed) -> (r: Fixed)
        requires
            o.raw != 0,
            o.raw > i128::MIN,
            -BIG_LIMIT <= self.raw <= BIG_LIMIT,
        ensures
            r.raw == fdiv_raw(self.raw as int, o.raw as int),
    {
        let n: i128 = self.raw * SCALE;
        if o.raw > 0 {
            Fixed { raw: floor_div_exec(n, o.raw) }
        } else {
            Fixed { raw: floor_div_exec(-n, -o.raw) }
        }
    }

    /// The square root, rounded toward negative infinity.
    pub fn sqrt(self) -> (r: Fixed)
        requires
            0 <= self.raw <= BIG_LIMIT,
        ensures
            r.raw == fsqrt_raw(self.raw as int),
            0 <= r.raw,
            r.raw * r.raw <= self.raw * (SCALE as int),
            self.raw * (SCALE as int) < (r.raw + 1) * (r.raw + 1),
    {
        let n: u128 = (self.raw * SCALE) as u128;
        let root = isqrt_exec(n);
        proof {
            lemma_isqrt_unique(n as nat, root as nat);
            assert(n == self.raw * (SCALE as int));
        }
        Fixed { raw: root as i128 }
    }

    /// The smaller of the two scalars.
    pub fn min(self, o: Fixed) -> (r: Fixed)
        ensures
            r.raw == if self.raw <= o.raw { self.raw } else { o.raw },
    {
        if self.raw <= o.raw {
            self
        } else {
            o
        }
    }

    /// The larger of the two scalars.
    pub fn max(self, o: Fixed) -> (r: Fixed)
        ensures
            r.raw == if self.raw >= o.raw { self.raw } else { o.raw },
    {
        if self.raw >= o.raw {
            self
        } else {
            o
        }
    }
}

/// The greatest `r` with `r * r <= n`, by binary search.
pub(crate) fn isqrt_exec(n: u128) -> (r: u128)
    requires
        n < 100_000_000_000_000_000_000_000_000_000_000_000_000,
    ensures
        r * r <= n,
        n < (r + 1) * (r + 1),
        r <= 10_000_000_000_000_000_000,
{
    if n == 0 {
        return 0;
    }
    let mut lo: u128 = 0;
    let mut hi: u128 = 10_000_000_000_000_000_000;
    proof {
        assert(hi * hi > n) by (nonlinear_arith)
            requires
                hi == 10_000_000_000_000_000_000u128,
                n < 100_000_000_000_000_000_000_000_000_000_000_000_000,
        {}
    }
    while lo + 1 < hi
        invariant
            lo < hi,
            hi <= 10_000_000_000_000_000_000,
            lo * lo <= n,
            n < hi * hi,
        decreases hi - lo,
    {
        let mid = lo + (hi - lo) / 2;
        proof {
            assert(mid * mid <= 100_000_000_000_000_000_000_000_000_000_000_000_000u128)
                by (nonlinear_arith)
                requires
                    0 <= mid <= 10_000_000_000_000_000_000u128,
            {}
        }
        if mid * mid <= n {
            lo = mid;
        } else {
            hi = mid;
        }
    }
    lo
}

} // verus!
