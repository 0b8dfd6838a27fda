//! The easing-curve library: pure functions mapping an animation progress
//! in `0 ..= SCALE` to an eased output in `0 ..= SCALE`, selected from a
//! closed set of curve families (linear, quadratic, cubic, sine, circular,
//! exponential, bounce, elastic), each with in/out/both variants.
//!
//! Curves whose real-valued definition is transcendental (sine, elastic,
//! exponential) are realized as fixed-point approximations; every curve is
//! exact at the endpoints (`0 ↦ 0`, `SCALE ↦ SCALE`), stays within
//! `0 ..= SCALE`, and the linear curve is the identity. Each executable
//! function is proved equal to its specification mirror.
use crate::SCALE;
use vstd::arithmetic::div_mod::{
    lemma_div_by_multiple, lemma_div_is_ordered, lemma_div_pos_is_pos,
};
use vstd::arithmetic::mul::lemma_mul_upper_bound;
use vstd::prelude::*;

verus! {

/// The closed set of easing styles.
#[derive(Clone, Copy, PartialEq, Eq, Structural, Debug)]
pub enum EaseStyle {
    Linear,
    BounceIn,
    BounceOut,
    BounceBoth,
    SineIn,
    SineOut,
    SineBoth,
    ElasticIn,
    ElasticOut,
    ElasticBoth,
    QuadIn,
    QuadOut,
    QuadBoth,
    ExpoIn,
    ExpoOut,
    ExpoBoth,
    CubicIn,
    CubicOut,
    CubicBoth,
    CircIn,
    CircOut,
    CircBoth,
}

/// Division stays below a bound when the dividend is below bound times divisor.
pub proof fn lemma_div_le(a: int, b: int, d: int)
    requires
        0 <= a,
        0 <= b,
        0 < d,
        a <= b * d,
    ensures
        0 <= a / d <= b,
{
    lemma_div_pos_is_pos(a, d);
    lemma_div_is_ordered(a, b * d, d);
    lemma_div_by_multiple(b, d);
}

// ---------------------------------------------------------------- quadratic

pub open spec fn quad_in_s(p: int) -> int {
    (p * p) / (SCALE as int)
}

fn quad_in(p: u32) -> (r: u32)
    requires
        p <= SCALE,
    ensures
        r == quad_in_s(p as int),
        r <= SCALE,
{
    proof {
        lemma_mul_upper_bound(p as int, SCALE as int, p as int, SCALE as int);
    }
    let prod: u64 = (p as u64) * (p as u64);
    proof {
        lemma_div_le(prod as int, SCALE as int, SCALE as int);
    }
    let q: u64 = prod / (SCALE as u64);
    q as u32
}

pub open spec fn quad_both_s(p: int) -> int {
    let s: int = SCALE as int;
    if 2 * p < s {
        quad_in_s(2 * p) / 2
    } else {
        s - quad_in_s(2 * s - 2 * p) / 2
    }
}

fn quad_both(p: u32) -> (r: u32)
    requires
        p <= SCALE,
    ensures
        r == quad_both_s(p as int),
        r <= SCALE,
{
    if 2 * p < SCALE {
        quad_in(2 * p) / 2
    } else {
        SCALE - quad_in(2 * SCALE - 2 * p) / 2
    }
}

// ------------------------------------------------------------------- cubic

pub open spec fn cubic_in_s(p: int) -> int {
    (quad_in_s(p) * p) / (SCALE as int)
}

fn cubic_in(p: u32) -> (r: u32)
    requires
        p <= SCALE,
    ensures
        r == cubic_in_s(p as int),
        r <= SCALE,
{
    let q: u32 = quad_in(p);
    proof {
        lemma_mul_upper_bound(q as int, SCALE as int, p as int, SCALE as int);
    }
    let prod: u64 = (q as u64) * (p as u64);
    proof {
        lemma_div_le(prod as int, SCALE as int, SCALE as int);
    }
    let c: u64 = prod / (SCALE as u64);
    c as u32
}

pub open spec fn cubic_both_s(p: int) -> int {
    let s: int = SCALE as int;
    if 2 * p < s {
        cubic_in_s(2 * p) / 2
    } else {
        s - cubic_in_s(2 * s - 2 * p) / 2
    }
}

fn cubic_both(p: u32) -> (r: u32)
    requires
        p <= SCALE,
    ensures
        r == cubic_both_s(p as int),
        r <= SCALE,
{
    if 2 * p < SCALE {
        cubic_in(2 * p) / 2
    } else {
        SCALE - cubic_in(2 * SCALE - 2 * p) / 2
    }
}

// -------------------------------------------------------------------- sine

/// Fixed-point half-turn sine: approximately `SCALE * sin(pi * z / SCALE)`
/// for `z` in `0 ..= SCALE`, by the classical rational approximation
/// `sin(pi t) ~ 16 t (1 - t) / (5 - 4 t (1 - t))`. Exact at `z = 0`,
/// `z = SCALE` (both `0`), and at the midpoint (full scale).
pub open spec fn sin_half_turn_s(z: int) -> int {
    let s: int = SCALE as int;
    let a: int = z * (s - z);
    (16 * a * s) / (5 * s * s - 4 * a)
}

fn sin_half_turn(z: u32) -> (r: u32)
    requires
        z <= SCALE,
    ensures
        r == sin_half_turn_s(z as int),
        r <= SCALE,
{
    let sc: u64 = SCALE as u64;
    let zz: u64 = z as u64;
    proof {
        lemma_mul_upper_bound(z as int, SCALE as int, SCALE - z, SCALE as int);
    }
    let a: u64 = zz * (sc - zz);
    let num: u64 = 16 * a * sc;
    let den: u64 = 5 * sc * sc - 4 * a;
    proof {
        assert(4 * (a as int) <= (SCALE as int) * (SCALE as int)) by (nonlinear_arith)
            requires
                a == (z as int) * ((SCALE as int) - z),
                0 <= z <= (SCALE as int),
        ;
        lemma_div_le(num as int, SCALE as int, den as int);
    }
    let r64: u64 = num / den;
    r64 as u32
}

pub open spec fn sine_in_s(p: int) -> int {
    let s: int = SCALE as int;
    s - sin_half_turn_s((s - p) / 2)
}

fn sine_in(p: u32) -> (r: u32)
    requires
        p <= SCALE,
    ensures
        r == sine_in_s(p as int),
        r <= SCALE,
{
    SCALE - sin_half_turn((SCALE - p) / 2)
}

pub open spec fn sine_both_s(p: int) -> int {
    let s: int = SCALE as int;
    if 2 * p < s {
        sine_in_s(2 * p) / 2
    } else {
        s - sine_in_s(2 * s - 2 * p) / 2
    }
}

fn sine_both(p: u32) -> (r: u32)
    requires
        p <= SCALE,
    ensures
        r == sine_both_s(p as int),
        r <= SCALE,
{
    if 2 * p < SCALE {
        sine_in(2 * p) / 2
    } else {
        SCALE - sine_in(2 * SCALE - 2 * p) / 2
    }
}

// ------------------------------------------------------------- exponential

/// `SCALE >> k` for `k` in `0 ..= 11`.
pub open spec fn half_pow_s(k: int) -> int {
    if k <= 0 {
        65535
    } else if k == 1 {
        32767
    } else if k == 2 {
        16383
    } else if k == 3 {
        8191
    } else if k == 4 {
        4095
    } else if k == 5 {
        2047
    } else if k == 6 {
        1023
    } else if k == 7 {
        511
    } else if k == 8 {
        255
    } else if k == 9 {
        127
    } else if k == 10 {
        63
    } else {
        31
    }
}

fn half_pow(k: u32) -> (r: u32)
    requires
        k <= 11,
    ensures
        r == half_pow_s(k as int),
{
    if k == 0 {
        65535
    } else if k == 1 {
        32767
    } else if k == 2 {
        16383
    } else if k == 3 {
        8191
    } else if k == 4 {
        4095
    } else if k == 5 {
        2047
    } else if k == 6 {
        1023
    } else if k == 7 {
        511
    } else if k == 8 {
        255
    } else if k == 9 {
        127
    } else if k == 10 {
        63
    } else {
        31
    }
}

/// Fixed-point exponential decay: approximately `SCALE * 2^(-10 u / SCALE)`
/// for `u` in `0 ..= SCALE`, by linear interpolation between neighboring
/// powers of two. Exact at `u = 0` (full scale).
pub open spec fn pow2_decay_s(u: int) -> int {
    let s: int = SCALE as int;
    let t: int = 10 * u;
    let k: int = t / s;
    let f: int = t % s;
    half_pow_s(k) - (half_pow_s(k + 1) * f) / s
}

fn pow2_decay(u: u32) -> (r: u32)
    requires
        u <= SCALE,
    ensures
        r == pow2_decay_s(u as int),
        r <= SCALE,
{
    let sc: u64 = SCALE as u64;
    let t: u64 = 10 * (u as u64);
    proof {
        lemma_div_le(t as int, 10, SCALE as int);
    }
    let k: u64 = t / sc;
    let f: u64 = t % sc;
    let hk: u32 = half_pow(k as u32);
    let hk1: u32 = half_pow((k + 1) as u32);
    proof {
        lemma_mul_upper_bound(hk1 as int, hk1 as int, f as int, (SCALE - 1) as int);
        lemma_div_le((hk1 as int) * (f as int), hk1 as int, SCALE as int);
    }
    let sub: u64 = ((hk1 as u64) * f) / sc;
    (hk as u64 - sub) as u32
}

pub open spec fn expo_in_s(p: int) -> int {
    pow2_decay_s((SCALE as int) - p)
}

fn expo_in(p: u32) -> (r: u32)
    requires
        p <= SCALE,
    ensures
        r == expo_in_s(p as int),
        r <= SCALE,
{
    pow2_decay(SCALE - p)
}

pub open spec fn expo_both_s(p: int) -> int {
    let s: int = SCALE as int;
    if 2 * p < s {
        expo_in_s(2 * p) / 2
    } else {
        s - expo_in_s(2 * s - 2 * p) / 2
    }
}

fn expo_both(p: u32) -> (r: u32)
    requires
        p <= SCALE,
    ensures
        r == expo_both_s(p as int),
        r <= SCALE,
{
    if 2 * p < SCALE {
        expo_in(2 * p) / 2
    } else {
        SCALE - expo_in(2 * SCALE - 2 * p) / 2
    }
}

// ---------------------------------------------------------------- circular

/// `r` is the integer square root of `n`.
pub open spec fn is_isqrt(n: int, r: int) -> bool {
    0 <= r && r * r <= n && n < (r + 1) * (r + 1)
}

/// The integer square root (unique, by `lemma_isqrt_is`).
pub open spec fn isqrt_s(n: int) -> int {
    choose|r: int| is_isqrt(n, r)
}

proof fn lemma_isqrt_is(n: int, r: int)
    requires
        is_isqrt(n, r),
    ensures
        isqrt_s(n) == r,
{
    assert(exists|x: int| is_isqrt(n, x));
    let rc = isqrt_s(n);
    assert(is_isqrt(n, rc));
    if rc < r {
        assert((rc + 1) * (rc + 1) <= r * r) by (nonlinear_arith)
            requires
                0 <= rc,
                rc + 1 <= r,
        ;
        assert(false);
    }
    if rc > r {
        assert((r + 1) * (r + 1) <= rc * rc) by (nonlinear_arith)
            requires
                0 <= r,
                r + 1 <= rc,
        ;
        assert(false);
    }
}

fn isqrt(n: u64) -> (r: u64)
    requires
        n < 0x1_0000_0000u64,
    ensures
        r == isqrt_s(n as int),
        is_isqrt(n as int, r as int),
        r <= 65535,
{
    let mut lo: u64 = 0;
    let mut hi: u64 = 65536;
    while lo + 1 < hi
        invariant
            lo < hi <= 65536,
            (lo as int) * (lo as int) <= n as int,
            (n as int) < (hi as int) * (hi as int),
        decreases hi - lo,
    {
        let mid: u64 = lo + (hi - lo) / 2;
        proof {
            lemma_mul_upper_bound(mid as int, 65536, mid as int, 65536);
        }
        if mid * mid <= n {
            lo = mid;
        } else {
            hi = mid;
        }
    }
    proof {
        lemma_isqrt_is(n as int, lo as int);
    }
    lo
}

pub open spec fn circ_in_s(p: int) -> int {
    let s: int = SCALE as int;
    s - isqrt_s(s * s - p * p)
}

fn circ_in(p: u32) -> (r: u32)
    requires
        p <= SCALE,
    ensures
        r == circ_in_s(p as int),
        r <= SCALE,
{
    let sc: u64 = SCALE as u64;
    proof {
        lemma_mul_upper_bound(p as int, SCALE as int, p as int, SCALE as int);
    }
    let n: u64 = sc * sc - (p as u64) * (p as u64);
    let q: u64 = isqrt(n);
    proof {
        if q > SCALE {
            assert((SCALE as int) * (SCALE as int) < (q as int) * (q as int)) by (nonlinear_arith)
                requires
                    (SCALE as int) < q as int,
            ;
            assert(false);
        }
    }
    (sc - q) as u32
}

pub open spec fn circ_both_s(p: int) -> int {
    let s: int = SCALE as int;
    if 2 * p < s {
        circ_in_s(2 * p) / 2
    } else {
        s - circ_in_s(2 * s - 2 * p) / 2
    }
}

fn circ_both(p: u32) -> (r: u32)
    requires
        p <= SCALE,
    ensures
        r == circ_both_s(p as int),
        r <= SCALE,
{
    if 2 * p < SCALE {
        circ_in(2 * p) / 2
    } else {
        SCALE - circ_in(2 * SCALE - 2 * p) / 2
    }
}

// ------------------------------------------------------------------ bounce

/// The classical four-segment bounce curve with rational coefficients
/// (`121/16` over segment breaks at `4/11`, `8/11`, `10/11` of the domain).
pub open spec fn bounce_out_s(p: int) -> int {
    let s: int = SCALE as int;
    if 11 * p < 4 * s {
        (121 * (p * p)) / (16 * s)
    } else if 11 * p < 8 * s {
        let w: int = if 11 * p >= 6 * s {
            11 * p - 6 * s
        } else {
            6 * s - 11 * p
        };
        (w * w) / (16 * s) + (3 * s) / 4
    } else if 11 * p < 10 * s {
        let w: int = if 11 * p >= 9 * s {
            11 * p - 9 * s
        } else {
            9 * s - 11 * p
        };
        (w * w) / (16 * s) + (15 * s) / 16
    } else {
        let w: int = if 22 * p >= 21 * s {
            22 * p - 21 * s
        } else {
            21 * s - 22 * p
        };
        (w * w) / (64 * s) + (63 * s) / 64
    }
}

fn bounce_out(p: u32) -> (r: u32)
    requires
        p <= SCALE,
    ensures
        r == bounce_out_s(p as int),
        r <= SCALE,
{
    let sc: u64 = SCALE as u64;
    let pp: u64 = p as u64;
    if 11 * pp < 4 * sc {
        proof {
            lemma_mul_upper_bound(p as int, SCALE as int, p as int, SCALE as int);
            assert(121 * ((p as int) * (p as int)) <= (SCALE as int) * (16 * (SCALE as int)))
                by (nonlinear_arith)
                requires
                    0 <= p,
                    11 * (p as int) < 4 * (SCALE as int),
            ;
            lemma_div_le(121 * ((p as int) * (p as int)), SCALE as int, 16 * (SCALE as int));
        }
        let sq: u64 = pp * pp;
        ((121 * sq) / (16 * sc)) as u32
    } else if 11 * pp < 8 * sc {
        let w: u64 = if 11 * pp >= 6 * sc {
            11 * pp - 6 * sc
        } else {
            6 * sc - 11 * pp
        };
        proof {
            lemma_mul_upper_bound(w as int, 2 * (SCALE as int), w as int, 2 * (SCALE as int));
            lemma_div_is_ordered(
                (w as int) * (w as int),
                (2 * (SCALE as int)) * (2 * (SCALE as int)),
                16 * (SCALE as int),
            );
            lemma_div_pos_is_pos((w as int) * (w as int), 16 * (SCALE as int));
        }
        let sq: u64 = w * w;
        (sq / (16 * sc) + (3 * sc) / 4) as u32
    } else if 11 * pp < 10 * sc {
        let w: u64 = if 11 * pp >= 9 * sc {
            11 * pp - 9 * sc
        } else {
            9 * sc - 11 * pp
        };
        proof {
            lemma_mul_upper_bound(w as int, SCALE as int, w as int, SCALE as int);
            lemma_div_is_ordered(
                (w as int) * (w as int),
                (SCALE as int) * (SCALE as int),
                16 * (SCALE as int),
            );
            lemma_div_pos_is_pos((w as int) * (w as int), 16 * (SCALE as int));
        }
        let sq: u64 = w * w;
        (sq / (16 * sc) + (15 * sc) / 16) as u32
    } else {
        let w: u64 = if 22 * pp >= 21 * sc {
            22 * pp - 21 * sc
        } else {
            21 * sc - 22 * pp
        };
        proof {
            lemma_mul_upper_bound(w as int, SCALE as int, w as int, SCALE as int);
            lemma_div_is_ordered(
                (w as int) * (w as int),
                (SCALE as int) * (SCALE as int),
                64 * (SCALE as int),
            );
            lemma_div_pos_is_pos((w as int) * (w as int), 64 * (SCALE as int));
        }
        let sq: u64 = w * w;
        (sq / (64 * sc) + (63 * sc) / 64) as u32
    }
}

pub open spec fn bounce_in_s(p: int) -> int {
    (SCALE as int) - bounce_out_s((SCALE as int) - p)
}

fn bounce_in(p: u32) -> (r: u32)
    requires
        p <= SCALE,
    ensures
        r == bounce_in_s(p as int),
        r <= SCALE,
{
    SCALE - bounce_out(SCALE - p)
}

pub open spec fn bounce_both_s(p: int) -> int {
    let s: int = SCALE as int;
    if 2 * p < s {
        bounce_in_s(2 * p) / 2
    } else {
        s - bounce_in_s(2 * s - 2 * p) / 2
    }
}

fn bounce_both(p: u32) -> (r: u32)
    requires
        p <= SCALE,
    ensures
        r == bounce_both_s(p as int),
        r <= SCALE,
{
    if 2 * p < SCALE {
        bounce_in(2 * p) / 2
    } else {
        SCALE - bounce_in(2 * SCALE - 2 * p) / 2
    }
}

// ----------------------------------------------------------------- elastic

/// Fixed-point full-turn sine: approximately `SCALE * sin(2 pi u / SCALE)`
/// for `u` in `0 ..< SCALE`, by half-turn symmetry.
pub open spec fn sin_turn_s(u: int) -> int {
    let s: int = SCALE as int;
    if 2 * u <= s {
        sin_half_turn_s(2 * u)
    } else {
        -sin_half_turn_s(2 * u - s)
    }
}

pub(crate) fn sin_turn(u: u32) -> (r: i64)
    requires
        u < SCALE,
    ensures
        r == sin_turn_s(u as int),
        -(SCALE as int) <= r <= SCALE as int,
{
    if 2 * u <= SCALE {
        sin_half_turn(2 * u) as i64
    } else {
        -(sin_half_turn(2 * u - SCALE) as i64)
    }
}

/// The decaying-oscillation curve: a decaying exponential envelope around a
/// sine of period `3/10` of the domain, clamped onto `0 ..= SCALE` (the
/// real-valued elastic curve overshoots its endpoint).
pub open spec fn elastic_out_s(p: int) -> int {
    let s: int = SCALE as int;
    let u: int = ((40 * p + 9 * s) % (12 * s)) / 12;
    let w: int = sin_turn_s(u);
    let d: int = pow2_decay_s(p);
    if w >= 0 {
        let v: int = s + (d * w) / s;
        if v > s {
            s
        } else {
            v
        }
    } else {
        s - (d * (-w)) / s
    }
}

fn elastic_out(p: u32) -> (r: u32)
    requires
        p <= SCALE,
    ensures
        r == elastic_out_s(p as int),
        r <= SCALE,
{
    let sc: u64 = SCALE as u64;
    let m: u64 = (40 * (p as u64) + 9 * sc) % (12 * sc);
    proof {
        lemma_div_is_ordered(m as int, 12 * (SCALE as int) - 1, 12);
        lemma_div_pos_is_pos(m as int, 12);
    }
    let u: u64 = m / 12;
    let w: i64 = sin_turn(u as u32);
    let d: u64 = pow2_decay(p) as u64;
    if w >= 0 {
        proof {
            lemma_mul_upper_bound(d as int, SCALE as int, w as int, SCALE as int);
            lemma_div_le((d as int) * (w as int), SCALE as int, SCALE as int);
        }
        let v: u64 = sc + (d * (w as u64)) / sc;
        if v > sc {
            SCALE
        } else {
            v as u32
        }
    } else {
        let nw: u64 = (-w) as u64;
        proof {
            lemma_mul_upper_bound(d as int, SCALE as int, nw as int, SCALE as int);
            lemma_div_le((d as int) * (nw as int), SCALE as int, SCALE as int);
        }
        (sc - (d * nw) / sc) as u32
    }
}

pub open spec fn elastic_in_s(p: int) -> int {
    (SCALE as int) - elastic_out_s((SCALE as int) - p)
}

fn elastic_in(p: u32) -> (r: u32)
    requires
        p <= SCALE,
    ensures
        r == elastic_in_s(p as int),
        r <= SCALE,
{
    SCALE - elastic_out(SCALE - p)
}

pub open spec fn elastic_both_s(p: int) -> int {
    let s: int = SCALE as int;
    if 2 * p < s {
        elastic_in_s(2 * p) / 2
    } else {
        s - elastic_in_s(2 * s - 2 * p) / 2
    }
}

fn elastic_both(p: u32) -> (r: u32)
    requires
        p <= SCALE,
    ensures
        r == elastic_both_s(p as int),
        r <= SCALE,
{
    if 2 * p < SCALE {
        elastic_in(2 * p) / 2
    } else {
        SCALE - elastic_in(2 * SCALE - 2 * p) / 2
    }
}

// -------------------------------------------------------------- dispatcher

/// The eased output for a progress `p` in `0 ..= SCALE`: every style maps
/// `0` to `0` and `SCALE` to `SCALE`, stays within `0 ..= SCALE`, and the
/// linear style is the identity.
pub open spec fn ease_spec(style: EaseStyle, p: int) -> int {
    let s: int = SCALE as int;
    if p <= 0 {
        0
    } else if p >= s {
        s
    } else {
        match style {
            EaseStyle::Linear => p,
            EaseStyle::QuadIn => quad_in_s(p),
            EaseStyle::QuadOut => s - quad_in_s(s - p),
            EaseStyle::QuadBoth => quad_both_s(p),
            EaseStyle::CubicIn => cubic_in_s(p),
            EaseStyle::CubicOut => s - cubic_in_s(s - p),
            EaseStyle::CubicBoth => cubic_both_s(p),
            EaseStyle::SineIn => sine_in_s(p),
            EaseStyle::SineOut => sin_half_turn_s(p / 2),
            EaseStyle::SineBoth => sine_both_s(p),
            EaseStyle::ExpoIn => expo_in_s(p),
            EaseStyle::ExpoOut => s - expo_in_s(s - p),
            EaseStyle::ExpoBoth => expo_both_s(p),
            EaseStyle::CircIn => circ_in_s(p),
            EaseStyle::CircOut => s - circ_in_s(s - p),
            EaseStyle::CircBoth => circ_both_s(p),
            EaseStyle::BounceIn => bounce_in_s(p),
            EaseStyle::BounceOut => bounce_out_s(p),
            EaseStyle::BounceBoth => bounce_both_s(p),
            EaseStyle::ElasticIn => elastic_in_s(p),
            EaseStyle::ElasticOut => elastic_out_s(p),
            EaseStyle::ElasticBoth => elastic_both_s(p),
        }
    }
}

/// Evaluate an easing style at progress `p`.
pub fn ease_apply(style: EaseStyle, p: u32) -> (r: u32)
    requires
        p <= SCALE,
    ensures
        r == ease_spec(style, p as int),
        r <= SCALE,
{
    if p == 0 {
        return 0;
    }
    if p == SCALE {
        return SCALE;
    }
    match style {
        EaseStyle::Linear => p,
        EaseStyle::QuadIn => quad_in(p),
        EaseStyle::QuadOut => SCALE - quad_in(SCALE - p),
        EaseStyle::QuadBoth => quad_both(p),
        EaseStyle::CubicIn => cubic_in(p),
        EaseStyle::CubicOut => SCALE - cubic_in(SCALE - p),
        EaseStyle::CubicBoth => cubic_both(p),
        EaseStyle::SineIn => sine_in(p),
        EaseStyle::SineOut => sin_half_turn(p / 2),
        EaseStyle::SineBoth => sine_both(p),
        EaseStyle::ExpoIn => expo_in(p),
        EaseStyle::ExpoOut => SCALE - expo_in(SCALE - p),
        EaseStyle::ExpoBoth => expo_both(p),
        EaseStyle::CircIn => circ_in(p),
        EaseStyle::CircOut => SCALE - circ_in(SCALE - p),
        EaseStyle::CircBoth => circ_both(p),
        EaseStyle::BounceIn => bounce_in(p),
        EaseStyle::BounceOut => bounce_out(p),
        EaseStyle::BounceBoth => bounce_both(p),
        EaseStyle::ElasticIn => elastic_in(p),
        EaseStyle::ElasticOut => elastic_out(p),
        EaseStyle::ElasticBoth => elastic_both(p),
    }
}

/// Every easing style maps progress `0` to `0` and full progress to full
/// scale, and the linear style is the identity on the whole domain.
pub proof fn lemma_ease_endpoints(style: EaseStyle, p: int)
    requires
        0 <= p <= SCALE as int,
    ensures
        ease_spec(style, 0) == 0,
        ease_spec(style, SCALE as int) == SCALE as int,
        style == EaseStyle::Linear ==> ease_spec(style, p) == p,
{
}

} // verus!
