//! Saturating fixed-point scalar arithmetic.
//!
//! A scalar is an `i64` holding `SCALE`-ths of a unit, so the stored value
//! `v` denotes the real number `v / SCALE`. Products and quotients are
//! computed exactly in 128-bit intermediates, rounded toward zero at the
//! last step, and clamped into the `i64` range, so no operation can panic.

use vstd::prelude::*;

verus! {

/// Number of fixed-point steps per unit; a stored value `v` denotes `v / SCALE`.
pub const SCALE: i64 = 65536;

/// The absolute value of a mathematical integer.
pub open spec fn abs_int(a: int) -> int {
    if a < 0 {
        -a
    } else {
        a
    }
}

/// Clamp a mathematical integer into the `i64` range.
pub open spec fn sat(x: int) -> int {
    if x > i64::MAX {
        i64::MAX as int
    } else if x < i64::MIN {
        i64::MIN as int
    } else {
        x
    }
}

/// Division rounding toward zero, the way machine integer division rounds.
pub open spec fn div_tz(a: int, b: int) -> int
    recommends
        b != 0,
{
    if (a < 0) == (b < 0) {
        abs_int(a) / abs_int(b)
    } else {
        -(abs_int(a) / abs_int(b))
    }
}

/// The saturating fixed-point sum.
pub open spec fn spec_add(a: int, b: int) -> int {
    sat(a + b)
}

/// The saturating fixed-point difference.
pub open spec fn spec_sub(a: int, b: int) -> int {
    sat(a - b)
}

/// The saturating fixed-point product: exact product, rescaled toward zero.
pub open spec fn spec_mul(a: int, b: int) -> int {
    sat(div_tz(a * b, SCALE as int))
}

/// The saturating fixed-point quotient; a zero divisor saturates toward the
/// sign of the numerator, mirroring the limit of `a / b` as `b` approaches 0.
pub open spec fn spec_div(a: int, b: int) -> int {
    if b == 0 {
        if a > 0 {
            i64::MAX as int
        } else if a < 0 {
            i64::MIN as int
        } else {
            0
        }
    } else {
        sat(div_tz(a * SCALE, b))
    }
}

/// Clamp an `i128` into the `i64` range.
fn sat_i128(x: i128) -> (r: i64)
    ensures
        r as int == sat(x as int),
{
    if x > i64::MAX as i128 {
        i64::MAX
    } else if x < i64::MIN as i128 {
        i64::MIN
    } else {
        x as i64
    }
}

/// The magnitude of an `i128` that is not `i128::MIN`.
fn mag_i128(x: i128) -> (m: u128)
    requires
        x != i128::MIN,
    ensures
        m as int == abs_int(x as int),
{
    if x < 0 {
        (-x) as u128
    } else {
        x as u128
    }
}

/// 128-bit division rounding toward zero.
fn div_i128(a: i128, b: i128) -> (q: i128)
    requires
        b != 0,
        a != i128::MIN,
        b != i128::MIN,
    ensures
        q as int == div_tz(a as int, b as int),
{
    let ma = mag_i128(a);
    let mb = mag_i128(b);
    let mq = ma / mb;
    assert(mq <= ma) by (nonlinear_arith)
        requires
            mb >= 1,
            mq == ma / mb,
    ;
    if (a < 0) == (b < 0) {
        mq as i128
    } else {
        -(mq as i128)
    }
}

/// Saturating fixed-point addition.
pub fn fx_add(a: i64, b: i64) -> (r: i64)
    ensures
        r as int == spec_add(a as int, b as int),
{
    sat_i128(a as i128 + b as i128)
}

/// Saturating fixed-point subtraction.
pub fn fx_sub(a: i64, b: i64) -> (r: i64)
    ensures
        r as int == spec_sub(a as int, b as int),
{
    sat_i128(a as i128 - b as i128)
}

/// Saturating fixed-point multiplication.
pub fn fx_mul(a: i64, b: i64) -> (r: i64)
    ensures
        r as int == spec_mul(a as int, b as int),
{
    assert(-0x4000_0000_0000_0000_0000_0000_0000_0000 <= (a as int) * (b as int)
        <= 0x4000_0000_0000_0000_0000_0000_0000_0000) by (nonlinear_arith)
        requires
            -0x8000_0000_0000_0000 <= a as int <= 0x7fff_ffff_ffff_ffff,
            -0x8000_0000_0000_0000 <= b as int <= 0x7fff_ffff_ffff_ffff,
    ;
    let p = (a as i128) * (b as i128);
    sat_i128(div_i128(p, SCALE as i128))
}

/// Saturating fixed-point division.
pub fn fx_div(a: i64, b: i64) -> (r: i64)
    ensures
        r as int == spec_div(a as int, b as int),
{
    if b == 0 {
        if a > 0 {
            i64::MAX
        } else if a < 0 {
            i64::MIN
        } else {
            0
        }
    } else {
        assert(-0x8000_0000_0000_0000_0000 <= (a as int) * (SCALE as int)
            <= 0x8000_0000_0000_0000_0000) by (nonlinear_arith)
            requires
                SCALE as int == 65536,
                -0x8000_0000_0000_0000 <= a as int <= 0x7fff_ffff_ffff_ffff,
        ;
        let p = (a as i128) * (SCALE as i128);
        sat_i128(div_i128(p, b as i128))
    }
}

/// A plain count widened into a saturating fixed-point scalar.
pub open spec fn spec_of_count(n: int) -> int {
    sat(n * SCALE)
}

/// Turn a count into a fixed-point scalar, saturating on huge counts.
pub fn fx_of_count(n: usize) -> (r: i64)
    ensures
        r as int == spec_of_count(n as int),
{
    if n as u64 > 0x7fff_ffff_ffff {
        proof {
            assert((n as int) * (SCALE as int) > 0x7fff_ffff_ffff_ffff) by (nonlinear_arith)
                requires
                    SCALE as int == 65536,
                    n as int > 0x7fff_ffff_ffff,
            ;
        }
        i64::MAX
    } else {
        proof {
            assert((n as int) * (SCALE as int) <= 0x7fff_ffff_ffff * 65536) by (nonlinear_arith)
                requires
                    SCALE as int == 65536,
                    0 <= n as int <= 0x7fff_ffff_ffff,
            ;
        }
        (n as i64) * SCALE
    }
}

/// A fixed-point scalar rounded down to a whole number of units and
/// clamped into the `u32` range, the way a float-to-unsigned cast clamps.
pub open spec fn spec_floor_u32(v: int) -> u32 {
    clamp_int(div_tz(v, SCALE as int), 0, u32::MAX as int) as u32
}

/// Round a scalar down to whole units, clamped into the `u32` range.
pub fn fx_floor_u32(v: i64) -> (r: u32)
    ensures
        r == spec_floor_u32(v as int),
{
    let q = fx_div_int(v, SCALE);
    if q < 0 {
        0
    } else if q > 0xffff_ffff {
        u32::MAX
    } else {
        q as u32
    }
}

/// The circle constant, `pi` in fixed point.
pub const PI: i64 = 205887;

/// Half of `PI` in fixed point.
pub const HALF_PI: i64 = 102944;

/// Twice `PI` in fixed point.
pub const TAU: i64 = 411775;

/// Saturating negation.
pub open spec fn spec_neg(a: int) -> int {
    sat(-a)
}

/// Saturating negation of a scalar.
pub fn fx_neg(a: i64) -> (r: i64)
    ensures
        r as int == spec_neg(a as int),
{
    sat_i128(-(a as i128))
}

/// The absolute value, saturating on `i64::MIN`.
pub open spec fn spec_abs(a: int) -> int {
    sat(abs_int(a))
}

/// Saturating absolute value of a scalar.
pub fn fx_abs(a: i64) -> (r: i64)
    ensures
        r as int == spec_abs(a as int),
{
    if a < 0 {
        sat_i128(-(a as i128))
    } else {
        a
    }
}

/// The smaller of two integers.
pub open spec fn min_int(a: int, b: int) -> int {
    if a < b {
        a
    } else {
        b
    }
}

/// The larger of two integers.
pub open spec fn max_int(a: int, b: int) -> int {
    if a > b {
        a
    } else {
        b
    }
}

/// The value `v` clamped to `[lo, hi]`; `lo` wins when the bounds cross.
pub open spec fn clamp_int(v: int, lo: int, hi: int) -> int {
    if v > hi {
        max_int(lo, hi)
    } else if v < lo {
        lo
    } else {
        v
    }
}

/// Clamp a scalar between two bounds, the upper bound checked first.
pub fn fx_clamp(v: i64, lo: i64, hi: i64) -> (r: i64)
    ensures
        r as int == clamp_int(v as int, lo as int, hi as int),
{
    if v > hi {
        if lo > hi {
            lo
        } else {
            hi
        }
    } else if v < lo {
        lo
    } else {
        v
    }
}

/// Division of a scalar by a positive plain integer, rounding toward zero.
pub fn fx_div_int(a: i64, b: i64) -> (r: i64)
    requires
        b > 0,
    ensures
        r as int == div_tz(a as int, b as int),
{
    let q = div_i128(a as i128, b as i128);
    proof {
        assert(abs_int(a as int) / abs_int(b as int) <= abs_int(a as int)) by (nonlinear_arith)
            requires
                abs_int(b as int) >= 1,
                abs_int(a as int) >= 0,
        ;
    }
    q as i64
}

/// The angle `a` reduced into `[0, TAU)`.
pub open spec fn spec_reduce_tau(a: int) -> int {
    let r = a - div_tz(a, TAU as int) * (TAU as int);
    if r < 0 {
        r + TAU
    } else {
        r
    }
}

/// Reduce an angle into one turn, `[0, TAU)`.
pub fn fx_reduce_tau(a: i64) -> (r: i64)
    ensures
        r as int == spec_reduce_tau(a as int),
        0 <= r < TAU,
{
    let q = div_i128(a as i128, TAU as i128);
    proof {
        let aa = abs_int(a as int);
        let t = TAU as int;
        assert(0 <= aa - (aa / t) * t < t && aa / t >= 0 && (aa / t) * t <= aa) by (nonlinear_arith)
            requires
                t > 0,
                aa >= 0,
        ;
    }
    let rem = a as i128 - q * (TAU as i128);
    if rem < 0 {
        (rem + TAU as i128) as i64
    } else {
        rem as i64
    }
}

/// The fixed-point sine on the first quarter turn, by a short Taylor sum.
pub open spec fn spec_sin_quarter(x: int) -> int {
    let x2 = spec_mul(x, x);
    let x3 = spec_mul(x2, x);
    let x5 = spec_mul(x3, x2);
    let x7 = spec_mul(x5, x2);
    sat(sat(sat(x - div_tz(x3, 6)) + div_tz(x5, 120)) - div_tz(x7, 5040))
}

/// The fixed-point sine on the first half turn, folded onto the quarter.
pub open spec fn spec_sin_half(x: int) -> int {
    if x > HALF_PI {
        spec_sin_quarter(PI - x)
    } else {
        spec_sin_quarter(x)
    }
}

/// The fixed-point sine of any angle.
#[verifier::opaque]
pub open spec fn spec_sin(a: int) -> int {
    let r = spec_reduce_tau(a);
    if r < PI {
        spec_sin_half(r)
    } else {
        spec_neg(spec_sin_half(r - PI))
    }
}

/// The fixed-point cosine: the sine shifted by a quarter turn.
#[verifier::opaque]
pub open spec fn spec_cos(a: int) -> int {
    spec_sin(spec_add(a, HALF_PI as int))
}

/// Sine on the first quarter turn.
fn fx_sin_quarter(x: i64) -> (r: i64)
    ensures
        r as int == spec_sin_quarter(x as int),
{
    let x2 = fx_mul(x, x);
    let x3 = fx_mul(x2, x);
    let x5 = fx_mul(x3, x2);
    let x7 = fx_mul(x5, x2);
    fx_sub(fx_add(fx_sub(x, fx_div_int(x3, 6)), fx_div_int(x5, 120)), fx_div_int(x7, 5040))
}

/// Saturating fixed-point sine.
pub fn fx_sin(a: i64) -> (r: i64)
    ensures
        r as int == spec_sin(a as int),
{
    proof {
        reveal(spec_sin);
    }
    let red = fx_reduce_tau(a);
    if red < PI {
        if red > HALF_PI {
            fx_sin_quarter(PI - red)
        } else {
            fx_sin_quarter(red)
        }
    } else {
        let x = red - PI;
        if x > HALF_PI {
            fx_neg(fx_sin_quarter(PI - x))
        } else {
            fx_neg(fx_sin_quarter(x))
        }
    }
}

/// Saturating fixed-point cosine.
pub fn fx_cos(a: i64) -> (r: i64)
    ensures
        r as int == spec_cos(a as int),
{
    proof {
        reveal(spec_cos);
    }
    fx_sin(fx_add(a, HALF_PI))
}

/// A quarter turn, `pi / 4`, in fixed point.
pub const QUARTER_PI: i64 = 51472;

/// The slope correction used by the arctangent approximation.
pub const ATAN_TUNE: i64 = 17892;

/// The arctangent approximation on `[-1, 1]`:
/// `z * (QUARTER_PI + ATAN_TUNE * (1 - |z|))`.
pub open spec fn spec_atan_unit(z: int) -> int {
    spec_mul(
        z,
        spec_add(QUARTER_PI as int, spec_mul(ATAN_TUNE as int, spec_sub(SCALE as int, spec_abs(z)))),
    )
}

/// Arctangent on the unit interval.
fn fx_atan_unit(z: i64) -> (r: i64)
    ensures
        r as int == spec_atan_unit(z as int),
{
    fx_mul(z, fx_add(QUARTER_PI, fx_mul(ATAN_TUNE, fx_sub(SCALE, fx_abs(z)))))
}

/// The fixed-point angle of the point `(x, y)`, in `(-PI, PI]`, with the
/// octants folded onto the arctangent approximation on `[-1, 1]`.
#[verifier::opaque]
pub open spec fn spec_atan2(y: int, x: int) -> int {
    if x == 0 && y == 0 {
        0
    } else if spec_abs(y) <= spec_abs(x) {
        let base = spec_atan_unit(spec_div(y, x));
        if x > 0 {
            base
        } else if y >= 0 {
            spec_add(base, PI as int)
        } else {
            spec_sub(base, PI as int)
        }
    } else {
        let base = spec_atan_unit(spec_div(x, y));
        if y > 0 {
            spec_sub(HALF_PI as int, base)
        } else {
            spec_sub(-(HALF_PI as int), base)
        }
    }
}

/// Fixed-point two-argument arctangent.
pub fn fx_atan2(y: i64, x: i64) -> (r: i64)
    ensures
        r as int == spec_atan2(y as int, x as int),
{
    proof {
        reveal(spec_atan2);
    }
    if x == 0 && y == 0 {
        0
    } else if fx_abs(y) <= fx_abs(x) {
        let base = fx_atan_unit(fx_div(y, x));
        if x > 0 {
            base
        } else if y >= 0 {
            fx_add(base, PI)
        } else {
            fx_sub(base, PI)
        }
    } else {
        let base = fx_atan_unit(fx_div(x, y));
        if y > 0 {
            fx_sub(HALF_PI, base)
        } else {
            fx_sub(-HALF_PI, base)
        }
    }
}

/// The fixed-point arcsine on `[-1, 1]`, via the arctangent of
/// `v / sqrt(1 - v^2)`.
#[verifier::opaque]
pub open spec fn spec_asin(v: int) -> int {
    let c2 = spec_sub(SCALE as int, spec_mul(v, v));
    if c2 <= 0 {
        if v >= 0 {
            HALF_PI as int
        } else {
            -(HALF_PI as int)
        }
    } else {
        spec_atan2(v, spec_sqrt(c2))
    }
}

/// Fixed-point arcsine.
pub fn fx_asin(v: i64) -> (r: i64)
    ensures
        r as int == spec_asin(v as int),
{
    proof {
        reveal(spec_asin);
    }
    let c2 = fx_sub(SCALE, fx_mul(v, v));
    if c2 <= 0 {
        if v >= 0 {
            HALF_PI
        } else {
            -HALF_PI
        }
    } else {
        fx_atan2(v, fx_sqrt(c2))
    }
}

/// The fixed-point tangent: the sine over the cosine.
#[verifier::opaque]
pub open spec fn spec_tan(a: int) -> int {
    spec_div(spec_sin(a), spec_cos(a))
}

/// Saturating fixed-point tangent.
pub fn fx_tan(a: i64) -> (r: i64)
    ensures
        r as int == spec_tan(a as int),
{
    proof {
        reveal(spec_tan);
    }
    fx_div(fx_sin(a), fx_cos(a))
}

/// Whether `r` is the integer square root (rounded down) of `x`.
pub open spec fn is_sqrt_floor(x: int, r: int) -> bool {
    0 <= r && r * r <= x && x < (r + 1) * (r + 1)
}

/// The largest `r <= cap` with `r * r <= x`.
pub open spec fn sqrt_rec(x: int, cap: nat) -> int
    decreases cap,
{
    if cap == 0 {
        0
    } else if (cap as int) * (cap as int) <= x {
        cap as int
    } else {
        sqrt_rec(x, (cap - 1) as nat)
    }
}

/// The integer square root, rounded down, of any integer below `2^80`.
pub open spec fn spec_sqrt_floor(x: int) -> int {
    sqrt_rec(x, 0x100_0000_0000)
}

/// The saturating fixed-point square root: zero on non-positive input.
pub open spec fn spec_sqrt(a: int) -> int {
    if a <= 0 {
        0
    } else {
        spec_sqrt_floor(a * SCALE)
    }
}

/// `sqrt_rec` finds the rounded-down square root whenever its cap is large enough.
proof fn lemma_sqrt_rec_is_floor(x: int, cap: nat)
    requires
        0 <= x,
        x < (cap + 1) * (cap + 1),
    ensures
        is_sqrt_floor(x, sqrt_rec(x, cap)),
    decreases cap,
{
    if cap == 0 {
        assert(sqrt_rec(x, cap) == 0);
        assert(x < (cap + 1) * (cap + 1) && cap == 0 ==> x < 1) by (nonlinear_arith);
        assert(is_sqrt_floor(x, 0));
    } else if (cap as int) * (cap as int) <= x {
        assert(sqrt_rec(x, cap) == cap as int);
        assert(is_sqrt_floor(x, cap as int));
    } else {
        assert(x < (cap as int) * (cap as int));
        lemma_sqrt_rec_is_floor(x, (cap - 1) as nat);
        assert(sqrt_rec(x, cap) == sqrt_rec(x, (cap - 1) as nat));
    }
}

/// Two rounded-down square roots of the same integer are equal.
proof fn lemma_sqrt_floor_unique(x: int, r1: int, r2: int)
    requires
        is_sqrt_floor(x, r1),
        is_sqrt_floor(x, r2),
    ensures
        r1 == r2,
{
    assert(r1 == r2) by (nonlinear_arith)
        requires
            0 <= r1 && r1 * r1 <= x && x < (r1 + 1) * (r1 + 1),
            0 <= r2 && r2 * r2 <= x && x < (r2 + 1) * (r2 + 1),
    ;
}

/// The integer square root, rounded down, by bisection.
fn isqrt_u128(x: u128) -> (r: u128)
    requires
        x < 0x100_0000_0000 * 0x100_0000_0000,
    ensures
        r as int == spec_sqrt_floor(x as int),
{
    let mut lo: u128 = 0;
    let mut hi: u128 = 0x100_0000_0000;
    while hi - lo > 1
        invariant
            x < 0x100_0000_0000 * 0x100_0000_0000,
            lo < hi <= 0x100_0000_0000,
            (lo as int) * (lo as int) <= x as int,
            (x as int) < (hi as int) * (hi as int),
        decreases hi - lo,
    {
        let mid = lo + (hi - lo) / 2;
        assert((mid as int) * (mid as int)
            <= 0x100_0000_0000 * 0x100_0000_0000) by (nonlinear_arith)
            requires
                0 <= mid as int <= 0x100_0000_0000,
        ;
        if mid * mid <= x {
            lo = mid;
        } else {
            hi = mid;
        }
    }
    proof {
        assert(is_sqrt_floor(x as int, lo as int));
        assert((x as int) < (0x100_0000_0000 + 1) * (
        0x100_0000_0000 + 1)) by (nonlinear_arith)
            requires
                (x as int) < 0x100_0000_0000 * 0x100_0000_0000,
        ;
        lemma_sqrt_rec_is_floor(x as int, 0x100_0000_0000);
        lemma_sqrt_floor_unique(x as int, lo as int, spec_sqrt_floor(x as int));
    }
    lo
}

/// Saturating fixed-point square root.
pub fn fx_sqrt(a: i64) -> (r: i64)
    ensures
        r as int == spec_sqrt(a as int),
{
    if a <= 0 {
        0
    } else {
        assert((a as int) * (SCALE as int) <= 0x7fff_ffff_ffff_ffff * 65536) by (nonlinear_arith)
            requires
                SCALE as int == 65536,
                0 < a as int <= 0x7fff_ffff_ffff_ffff,
        ;
        let x = (a as u128) * (SCALE as u128);
        let r = isqrt_u128(x);
        proof {
            assert(is_sqrt_floor(x as int, spec_sqrt_floor(x as int))) by {
                assert((x as int) < (0x100_0000_0000 + 1) * (
                0x100_0000_0000 + 1)) by (nonlinear_arith)
                    requires
                        (x as int) <= 0x7fff_ffff_ffff_ffff * 65536,
                ;
                lemma_sqrt_rec_is_floor(x as int, 0x100_0000_0000);
            }
            assert(spec_sqrt_floor(x as int) < 0x8000_0000_0000_0000) by (nonlinear_arith)
                requires
                    is_sqrt_floor(x as int, spec_sqrt_floor(x as int)),
                    x as int <= 0x7fff_ffff_ffff_ffff * 65536,
            ;
        }
        r as i64
    }
}

} // verus!
