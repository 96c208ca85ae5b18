//! Fixed-point scalar arithmetic.
//!
//! A scalar is an `i64` holding `FX_ONE` raw steps per unit. World
//! coordinates, speeds, seconds and radians all use this encoding. Every
//! operation clamps its result into `[-FX_BOUND, FX_BOUND]`, so any value
//! produced here is admissible as an input to any other operation; in-game
//! magnitudes stay far below the bound, where every operation is exact.

use vstd::prelude::*;

verus! {

/// Raw steps per world unit (and per second, and per radian).
pub const FX_ONE: i64 = 1000;

/// Largest magnitude a fixed-point scalar may carry.
pub const FX_BOUND: i64 = 1_000_000_000;

/// A scalar within the admissible range.
pub open spec fn fx_ok(x: int) -> bool {
    -FX_BOUND <= x <= FX_BOUND
}

/// Clamp an unbounded mathematical result into the admissible range.
pub open spec fn fx_clamped(x: int) -> int {
    if x > FX_BOUND {
        FX_BOUND as int
    } else if x < -FX_BOUND {
        -FX_BOUND as int
    } else {
        x
    }
}

/// Division truncating toward zero, the semantics of Rust's `/` on integers.
pub open spec fn fx_tdiv(a: int, b: int) -> int
    recommends
        b >= 1,
{
    if a >= 0 {
        a / b
    } else {
        -((-a) / b)
    }
}

/// Saturating addition of two admissible scalars.
pub fn fx_add(a: i64, b: i64) -> (r: i64)
    requires
        fx_ok(a as int),
        fx_ok(b as int),
    ensures
        r == fx_clamped(a + b),
        fx_ok(r as int),
{
    let s: i64 = a + b;
    if s > FX_BOUND {
        FX_BOUND
    } else if s < -FX_BOUND {
        -FX_BOUND
    } else {
        s
    }
}

/// Saturating subtraction of two admissible scalars.
pub fn fx_sub(a: i64, b: i64) -> (r: i64)
    requires
        fx_ok(a as int),
        fx_ok(b as int),
    ensures
        r == fx_clamped(a - b),
        fx_ok(r as int),
{
    let s: i64 = a - b;
    if s > FX_BOUND {
        FX_BOUND
    } else if s < -FX_BOUND {
        -FX_BOUND
    } else {
        s
    }
}

pub proof fn lemma_mul_magnitude(a: int, b: int, m: int, n: int)
    requires
        -m <= a <= m,
        -n <= b <= n,
        0 <= m,
        0 <= n,
    ensures
        -(m * n) <= a * b <= m * n,
{
    assert(-(m * n) <= a * b <= m * n) by (nonlinear_arith)
        requires
            -m <= a <= m,
            -n <= b <= n,
            0 <= m,
            0 <= n,
    ;
}

/// If `|a| <= d * m` with `d >= 1`, then `|a / d| <= m` (truncating).
pub proof fn lemma_tdiv_magnitude(a: int, d: int, m: int)
    requires
        1 <= d,
        0 <= m,
        -(d * m) <= a <= d * m,
    ensures
        -m <= fx_tdiv(a, d) <= m,
{
    if a >= 0 {
        assert(a / d <= m) by (nonlinear_arith)
            requires
                1 <= d,
                0 <= m,
                a <= d * m,
                0 <= a,
        ;
        assert(a / d >= 0) by (nonlinear_arith)
            requires
                1 <= d,
                0 <= a,
        ;
    } else {
        let b = -a;
        assert(b / d <= m) by (nonlinear_arith)
            requires
                1 <= d,
                0 <= m,
                b <= d * m,
                0 <= b,
        ;
        assert(b / d >= 0) by (nonlinear_arith)
            requires
                1 <= d,
                0 <= b,
        ;
    }
}


/// Truncating division of a product-sized value by a positive divisor.
pub fn fx_div_raw(a: i64, b: i64) -> (r: i64)
    requires
        i64::MIN < a,
        1 <= b,
    ensures
        r == fx_tdiv(a as int, b as int),
{
    if a >= 0 {
        let q: u64 = (a as u64) / (b as u64);
        q as i64
    } else {
        let neg: i64 = -a;
        let q: u64 = (neg as u64) / (b as u64);
        -(q as i64)
    }
}

/// Saturating fixed-point multiplication: `a * b / FX_ONE`, truncated.
pub fn fx_mul(a: i64, b: i64) -> (r: i64)
    requires
        fx_ok(a as int),
        fx_ok(b as int),
    ensures
        r == fx_clamped(fx_tdiv(a * b, FX_ONE as int)),
        fx_ok(r as int),
{
    proof {
        lemma_mul_magnitude(a as int, b as int, FX_BOUND as int, FX_BOUND as int);
    }
    let p: i64 = a * b;
    let q: i64 = fx_div_raw(p, FX_ONE);
    if q > FX_BOUND {
        FX_BOUND
    } else if q < -FX_BOUND {
        -FX_BOUND
    } else {
        q
    }
}

/// Saturating fixed-point division: `a * FX_ONE / b`, truncated; `b >= 1`.
pub fn fx_div(a: i64, b: i64) -> (r: i64)
    requires
        fx_ok(a as int),
        1 <= b,
    ensures
        r == fx_clamped(fx_tdiv(a * (FX_ONE as int), b as int)),
        fx_ok(r as int),
{
    proof {
        lemma_mul_magnitude(a as int, FX_ONE as int, FX_BOUND as int, FX_ONE as int);
    }
    let p: i64 = a * FX_ONE;
    let q: i64 = fx_div_raw(p, b);
    if q > FX_BOUND {
        FX_BOUND
    } else if q < -FX_BOUND {
        -FX_BOUND
    } else {
        q
    }
}

/// Clamp an arbitrary `i64` into the admissible range.
pub fn fx_clamp(x: i64) -> (r: i64)
    ensures
        r == fx_clamped(x as int),
        fx_ok(r as int),
{
    if x > FX_BOUND {
        FX_BOUND
    } else if x < -FX_BOUND {
        -FX_BOUND
    } else {
        x
    }
}

/// Truncating division by a divisor of either sign (never zero).
pub open spec fn fx_tdiv_s(a: int, b: int) -> int
    recommends
        b != 0,
{
    if b >= 1 {
        fx_tdiv(a, b)
    } else {
        fx_tdiv(-a, -b)
    }
}

/// Fixed-point exponential of `x / FX_ONE`: four squarings of
/// `1 + x / 16000`, an increasing approximation of `e^(x/1000)`.
pub open spec fn spec_fx_exp(x: int) -> int {
    let y0 = 1000 + fx_tdiv(x, 16);
    let y1 = y0 * y0 / 1000;
    let y2 = y1 * y1 / 1000;
    let y3 = y2 * y2 / 1000;
    y3 * y3 / 1000
}

/// Fixed-point exponential of a scalar in `[-15, 8]`.
pub fn fx_exp(x: i64) -> (r: i64)
    requires
        -15_000 <= x <= 8000,
    ensures
        r == spec_fx_exp(x as int),
        0 <= r <= 700_000,
{
    let q16: i64 = fx_div_raw(x, 16);
    proof {
        if x >= 0 {
            lemma_tdiv_magnitude(x as int, 16, 500);
        } else {
            lemma_tdiv_magnitude(x as int, 16, 938);
        }
    }
    let y0: i64 = 1000 + q16;
    proof {
        assert(0 <= y0 * y0 <= 2_250_000) by (nonlinear_arith)
            requires
                0 <= y0 <= 1500,
        ;
        lemma_tdiv_magnitude(y0 * y0, 1000, 2250);
        assert(fx_tdiv(y0 * y0, 1000) >= 0);
    }
    let y1: i64 = fx_div_raw(y0 * y0, 1000);
    proof {
        assert(0 <= y1 * y1 <= 5_062_500) by (nonlinear_arith)
            requires
                0 <= y1 <= 2250,
        ;
        lemma_tdiv_magnitude(y1 * y1, 1000, 5063);
        assert(fx_tdiv(y1 * y1, 1000) >= 0);
    }
    let y2: i64 = fx_div_raw(y1 * y1, 1000);
    proof {
        assert(0 <= y2 * y2 <= 25_633_969) by (nonlinear_arith)
            requires
                0 <= y2 <= 5063,
        ;
        lemma_tdiv_magnitude(y2 * y2, 1000, 25634);
        assert(fx_tdiv(y2 * y2, 1000) >= 0);
    }
    let y3: i64 = fx_div_raw(y2 * y2, 1000);
    proof {
        assert(0 <= y3 * y3 <= 657_101_956) by (nonlinear_arith)
            requires
                0 <= y3 <= 25634,
        ;
        lemma_tdiv_magnitude(y3 * y3, 1000, 657102);
        assert(fx_tdiv(y3 * y3, 1000) >= 0);
    }
    let y4: i64 = fx_div_raw(y3 * y3, 1000);
    y4
}

/// Natural log of 2 in raw steps.
pub const FX_LN2: i64 = 693;

/// Halve `m` until it drops below 2000, counting the halvings.
pub open spec fn spec_ln_shift_down(m: int) -> (int, int)
    decreases m,
{
    if m >= 2000 {
        let (m2, k2) = spec_ln_shift_down(m / 2);
        (m2, k2 + 1)
    } else {
        (m, 0)
    }
}

/// Double `m` until it reaches 1000, counting the doublings.
pub open spec fn spec_ln_shift_up(m: int) -> (int, int)
    decreases (if m < 1000 { 1000 - m } else { 0int }),
{
    if 1 <= m < 1000 {
        let (m2, k2) = spec_ln_shift_up(m * 2);
        (m2, k2 - 1)
    } else {
        (m, 0)
    }
}

/// Rational approximation of `ln(1 + u/1000)` in raw steps, `0 <= u < 1000`.
pub open spec fn spec_ln_frac(u: int) -> int {
    u * (6000 + u) / (6000 + 4 * u)
}

/// Fixed-point natural logarithm of `x / FX_ONE`, in raw steps: normalize
/// into `[1, 2)` by powers of two, then approximate the fractional part.
pub open spec fn spec_fx_ln(x: int) -> int {
    let (m, k) = if x >= 2000 {
        spec_ln_shift_down(x)
    } else if x < 1000 {
        spec_ln_shift_up(x)
    } else {
        (x, 0)
    };
    k * (FX_LN2 as int) + spec_ln_frac(m - 1000)
}

/// The normalization by halving lands in `[1000, 2000)` whenever the input
/// is at least 1000, and leaves smaller inputs alone.
pub proof fn lemma_ln_shift_down_props(x: int)
    requires
        1 <= x,
    ensures
        x >= 1000 ==> 1000 <= spec_ln_shift_down(x).0 < 2000,
        x < 2000 ==> spec_ln_shift_down(x) == (x, 0int),
        spec_ln_shift_down(x).1 >= 0,
    decreases x,
{
    if x >= 2000 {
        lemma_ln_shift_down_props(x / 2);
    }
}

/// The normalization by doubling lands in `[1000, 2000)` whenever the input
/// is positive and below 1000, and leaves larger inputs alone.
pub proof fn lemma_ln_shift_up_props(x: int)
    requires
        1 <= x,
    ensures
        x < 1000 ==> 1000 <= spec_ln_shift_up(x).0 < 2000,
        x >= 1000 ==> spec_ln_shift_up(x) == (x, 0int),
        spec_ln_shift_up(x).1 <= 0,
    decreases (if x < 1000 { 1000 - x } else { 0int }),
{
    if 1 <= x < 1000 {
        lemma_ln_shift_up_props(x * 2);
    }
}

/// Fixed-point natural logarithm of a positive scalar.
pub fn fx_ln(x: i64) -> (r: i64)
    requires
        1 <= x <= FX_BOUND,
    ensures
        r == spec_fx_ln(x as int),
        -25_000 <= r <= 30_000,
{
    let mut m: i64 = x;
    let mut k: i64 = 0;
    proof {
        vstd::arithmetic::power2::lemma2_to64();
        assert(vstd::arithmetic::power2::pow2(0) == 1);
        assert(vstd::arithmetic::power2::pow2(0nat) * (x as int) == x) by (nonlinear_arith)
            requires
                vstd::arithmetic::power2::pow2(0nat) == 1,
        ;
    }
    if x >= 2000 {
        while m >= 2000
            invariant
                2000 <= x <= FX_BOUND,
                1000 <= m <= FX_BOUND,
                0 <= k <= 40,
                spec_ln_shift_down(x as int).0 == spec_ln_shift_down(m as int).0,
                spec_ln_shift_down(x as int).1 == spec_ln_shift_down(m as int).1 + k,
                vstd::arithmetic::power2::pow2(k as nat) * m <= x,
            decreases m,
        {
            let ghost k0 = k as nat;
            let ghost m0 = m as int;
            m = ((m as u64) / 2) as i64;
            k = k + 1;
            proof {
                lemma_ln_shift_down_props(m as int);
                vstd::arithmetic::power2::lemma_pow2_unfold((k0 + 1) as nat);
                assert(vstd::arithmetic::power2::pow2((k0 + 1) as nat) * (m0 / 2)
                    <= vstd::arithmetic::power2::pow2(k0) * m0) by (nonlinear_arith)
                    requires
                        vstd::arithmetic::power2::pow2((k0 + 1) as nat) == 2
                            * vstd::arithmetic::power2::pow2(k0),
                        m0 >= 0,
                        vstd::arithmetic::power2::pow2(k0) >= 0,
                ;
                assert(vstd::arithmetic::power2::pow2(k as nat) * m <= x);
                if k > 40 {
                    vstd::arithmetic::power2::lemma2_to64();
                    vstd::arithmetic::power2::lemma_pow2_strictly_increases(32, k as nat);
                    assert(vstd::arithmetic::power2::pow2(k as nat) * m > 1_000_000_000)
                        by (nonlinear_arith)
                        requires
                            vstd::arithmetic::power2::pow2(k as nat) > 0x1_0000_0000,
                            m >= 1000,
                    ;
                    assert(false);
                }
            }
        }
        proof {
            lemma_ln_shift_down_props(m as int);
            assert(spec_ln_shift_down(x as int) == (m as int, k as int));
        }
    } else if x < 1000 {
        while m < 1000
            invariant
                1 <= x < 1000,
                1 <= m < 2000,
                -11 <= k <= 0,
                spec_ln_shift_up(x as int).0 == spec_ln_shift_up(m as int).0,
                spec_ln_shift_up(x as int).1 == spec_ln_shift_up(m as int).1 + k,
                vstd::arithmetic::power2::pow2((-k) as nat) <= m,
            decreases (if m < 1000 { 1000 - m } else { 0int }),
        {
            let ghost k0 = (-k) as nat;
            m = m * 2;
            k = k - 1;
            proof {
                lemma_ln_shift_up_props(m as int);
                vstd::arithmetic::power2::lemma_pow2_unfold((k0 + 1) as nat);
                assert(vstd::arithmetic::power2::pow2(((-k)) as nat) <= m);
                if k < -11 {
                    vstd::arithmetic::power2::lemma2_to64();
                    vstd::arithmetic::power2::lemma_pow2_strictly_increases(11, (-k) as nat);
                    assert(false);
                }
            }
        }
        proof {
            lemma_ln_shift_up_props(m as int);
            assert(spec_ln_shift_up(x as int) == (m as int, k as int));
        }
    }
    let u: i64 = m - 1000;
    proof {
        lemma_mul_magnitude(u as int, 6000 + u, 1000, 7000);
    }
    let num: i64 = u * (6000 + u);
    let den: i64 = 6000 + 4 * u;
    let frac: i64 = fx_div_raw(num, den);
    proof {
        assert(frac <= 1167 && frac >= 0) by (nonlinear_arith)
            requires
                frac == fx_tdiv(num as int, den as int),
                num == u * (6000 + u),
                den == 6000 + 4 * u,
                0 <= u < 1000,
        ;
    }
    k * FX_LN2 + frac
}

/// Floor of the square root: `r * r <= n < (r + 1) * (r + 1)`.
pub fn isqrt(n: u64) -> (r: u64)
    ensures
        r * r <= n,
        n < (r + 1) * (r + 1),
        r <= 0xFFFF_FFFFu64,
{
    let mut lo: u64 = 0;
    let mut hi: u64 = if n < 0xFFFF_FFFFu64 {
        n + 1
    } else {
        0x1_0000_0000u64
    };
    proof {
        assert(hi * hi > n) by (nonlinear_arith)
            requires
                (n < 0xFFFF_FFFFu64 && hi == n + 1) || (n >= 0xFFFF_FFFFu64 && hi
                    == 0x1_0000_0000u64),
        ;
    }
    while hi - lo > 1
        invariant
            lo < hi,
            hi <= 0x1_0000_0000u64,
            lo * lo <= n,
            hi * hi > n,
        decreases hi - lo,
    {
        let mid: u64 = lo + (hi - lo) / 2;
        proof {
            assert(mid * mid <= 0x1_0000_0000u64 * 0x1_0000_0000u64) by (nonlinear_arith)
                requires
                    0 <= mid <= 0x1_0000_0000u64,
            ;
        }
        let sq: u128 = (mid as u128) * (mid as u128);
        if sq <= n as u128 {
            lo = mid;
        } else {
            hi = mid;
        }
    }
    lo
}

} // verus!
