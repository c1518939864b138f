//! Fixed-point arithmetic with six decimal places.
//!
//! A value `v` represents the real number `v / SCALE`.  All executable
//! operations truncate toward zero, exactly like the spec-level `sdiv`.

use vstd::prelude::*;
use vstd::arithmetic::power2::pow2;

verus! {

/// One unit of the fixed-point representation is `1 / SCALE`.
pub const SCALE: i64 = 1_000_000;

/// Truncating (round toward zero) division for `d > 0`.
pub open spec fn sdiv(a: int, d: int) -> int {
    if a >= 0 {
        a / d
    } else {
        -((-a) / d)
    }
}

/// Fixed-point product: `(a * b) / SCALE`, truncated toward zero.
pub open spec fn smul(a: int, b: int) -> int {
    sdiv(a * b, SCALE as int)
}

/// Fixed-point quotient: `(a * SCALE) / b`, truncated toward zero.
pub open spec fn sfrac(a: int, b: int) -> int {
    sdiv(a * (SCALE as int), b)
}

/// Truncating division of an `i64` by a positive divisor.
pub fn div_i64(a: i64, d: i64) -> (r: i64)
    requires
        d > 0,
        a > i64::MIN,
    ensures
        r == sdiv(a as int, d as int),
{
    if a >= 0 {
        (((a as u64) / (d as u64)) as i64)
    } else {
        let m: u64 = (-a) as u64;
        let q: u64 = m / (d as u64);
        assert(q <= m) by (nonlinear_arith)
            requires
                q == m / (d as u64),
                d > 0,
        ;
        -((q as i64))
    }
}

/// Fixed-point multiplication `(a * b) / SCALE` truncated toward zero.
pub fn mul_scaled(a: i64, b: i64) -> (r: i64)
    requires
        a * b <= i64::MAX * (SCALE as int),
        a * b >= -(i64::MAX * (SCALE as int)),
    ensures
        r == smul(a as int, b as int),
{
    let p: i128 = (a as i128) * (b as i128);
    if p >= 0 {
        let q: u128 = (p as u128) / (SCALE as u128);
        assert(q == (a * b) / (SCALE as int) && q <= i64::MAX) by (nonlinear_arith)
            requires
                p == a * b,
                p >= 0,
                q == (p as u128) / (SCALE as u128),
                p <= i64::MAX * (SCALE as int),
        ;
        q as i64
    } else {
        let m: u128 = (-p) as u128;
        let q: u128 = m / (SCALE as u128);
        assert(q == (-(a * b)) / (SCALE as int) && q <= i64::MAX) by (nonlinear_arith)
            requires
                p == a * b,
                p < 0,
                m == -p,
                q == m / (SCALE as u128),
                p >= -(i64::MAX * (SCALE as int)),
        ;
        -((q as i64))
    }
}

/// Magnitude of an integer.
pub open spec fn iabs(x: int) -> int {
    if x >= 0 {
        x
    } else {
        -x
    }
}

/// Clamp `v` into `[lo, hi]`.
pub open spec fn spec_clamp(v: int, lo: int, hi: int) -> int {
    if v < lo {
        lo
    } else if v > hi {
        hi
    } else {
        v
    }
}

/// Clamp `v` into `[lo, hi]`.
pub fn clamp_i64(v: i64, lo: i64, hi: i64) -> (r: i64)
    requires
        lo <= hi,
    ensures
        r == spec_clamp(v as int, lo as int, hi as int),
{
    if v < lo {
        lo
    } else if v > hi {
        hi
    } else {
        v
    }
}

/// Product bound: `|a| <= ca` and `|b| <= cb` give `|a * b| <= ca * cb`.
pub proof fn lemma_mul_le(a: int, ca: int, b: int, cb: int)
    by (nonlinear_arith)
    requires
        -ca <= a <= ca,
        -cb <= b <= cb,
        0 <= ca,
        0 <= cb,
    ensures
        -(ca * cb) <= a * b <= ca * cb,
{
}

/// For factors in `[0, SCALE]` the fixed-point product stays in `[0, SCALE]`
/// and below either factor.
pub proof fn lemma_smul_unit(a: int, b: int)
    by (nonlinear_arith)
    requires
        0 <= a <= SCALE as int,
        0 <= b <= SCALE as int,
    ensures
        0 <= smul(a, b),
        smul(a, b) <= a,
        smul(a, b) <= b,
{
}

/// Magnitude bound of a fixed-point product of signed factors.
pub proof fn lemma_smul_abs(a: int, ca: int, b: int, cb: int)
    by (nonlinear_arith)
    requires
        -ca <= a <= ca,
        -cb <= b <= cb,
        0 <= ca,
        0 <= cb,
    ensures
        -(ca * cb / (SCALE as int)) <= smul(a, b) <= ca * cb / (SCALE as int),
{
}

/// Magnitude bound of a truncating division with a lower-bounded divisor.
pub proof fn lemma_sdiv_mag(a: int, ca: int, d: int, ld: int)
    by (nonlinear_arith)
    requires
        -ca <= a <= ca,
        0 < ld <= d,
        0 <= ca,
    ensures
        -(ca / ld) <= sdiv(a, d) <= ca / ld,
{
}

/// Multiplying by a factor in `[0, SCALE]` contracts toward zero.
pub proof fn lemma_smul_contract(d: int, alpha: int)
    by (nonlinear_arith)
    requires
        0 <= alpha <= SCALE as int,
    ensures
        d >= 0 ==> 0 <= smul(d, alpha) <= d,
        d < 0 ==> d <= smul(d, alpha) <= 0,
{
}

/// Upper bound of a fixed-point product of nonnegative factors.
pub proof fn lemma_smul_bound(a: int, ca: int, b: int, cb: int)
    by (nonlinear_arith)
    requires
        0 <= a <= ca,
        0 <= b <= cb,
    ensures
        0 <= smul(a, b) <= (ca * cb) / (SCALE as int),
{
}

/// Pi, scaled.
pub const PI_S: i64 = 3_141_593;

/// 90 degrees, scaled.
pub const DEG_90: i64 = 90_000_000;

/// 180 degrees, scaled.
pub const DEG_180: i64 = 180_000_000;

/// 360 degrees, scaled.
pub const DEG_360: i64 = 360_000_000;

/// Division bound: `0 <= a <= ca` and `d > 0` give `0 <= sdiv(a, d) <= ca / d`.
pub proof fn lemma_sdiv_le(a: int, ca: int, d: int)
    by (nonlinear_arith)
    requires
        0 <= a <= ca,
        d > 0,
    ensures
        0 <= sdiv(a, d) <= ca / d,
{
}

/// Sixth-order Taylor polynomial of the cosine, on scaled radians; its
/// truncation error stays below about one thousandth across the first
/// quadrant.
pub open spec fn spec_cos_poly(r: int) -> int {
    let r2 = smul(r, r);
    let r4 = smul(r2, r2);
    let r6 = smul(r4, r2);
    SCALE as int - r2 / 2 + r4 / 24 - r6 / 720
}

/// Cosine of `x` scaled degrees for `x` in `[0, 90]`, clamped to `[0, SCALE]`.
pub open spec fn spec_cos_quarter(x: int) -> int {
    let r = sdiv(x * (PI_S as int), DEG_180 as int);
    spec_clamp(spec_cos_poly(r), 0, SCALE as int)
}

/// Cosine of any scaled-degree argument, by symmetry and periodicity.
pub open spec fn spec_cos_deg(x: int) -> int {
    let m = iabs(x) % (DEG_360 as int);
    let f = if m > DEG_180 as int {
        (DEG_360 as int) - m
    } else {
        m
    };
    if f <= DEG_90 as int {
        spec_cos_quarter(f)
    } else {
        -spec_cos_quarter((DEG_180 as int) - f)
    }
}

/// Cosine on the first quadrant, `x` in scaled degrees.
pub(crate) fn cos_quarter(x: i64) -> (r: i64)
    requires
        0 <= x <= DEG_90,
    ensures
        r == spec_cos_quarter(x as int),
        0 <= r <= SCALE,
{
    let p: i64 = x * PI_S;
    let rad: i64 = div_i64(p, DEG_180);
    proof {
        lemma_sdiv_le(p as int, DEG_90 as int * PI_S as int, DEG_180 as int);
    }
    proof {
        lemma_mul_le(rad as int, 1_570_797, rad as int, 1_570_797);
    }
    let c2: i64 = mul_scaled(rad, rad);
    proof {
        lemma_smul_bound(rad as int, 1_570_797, rad as int, 1_570_797);
        lemma_mul_le(c2 as int, 2_467_403, c2 as int, 2_467_403);
    }
    let c4: i64 = mul_scaled(c2, c2);
    proof {
        lemma_smul_bound(c2 as int, 2_467_403, c2 as int, 2_467_403);
        lemma_mul_le(c4 as int, 6_088_078, c2 as int, 2_467_403);
    }
    let c6: i64 = mul_scaled(c4, c2);
    proof {
        lemma_smul_bound(c4 as int, 6_088_078, c2 as int, 2_467_403);
    }
    let t2: i64 = div_i64(c2, 2);
    let t4: i64 = div_i64(c4, 24);
    let t6: i64 = div_i64(c6, 720);
    let v: i64 = SCALE - t2 + t4 - t6;
    clamp_i64(v, 0, SCALE)
}

/// The cosine of zero degrees is exactly one.
pub proof fn lemma_cos_quarter_zero()
    ensures
        spec_cos_quarter(0) == SCALE as int,
{
    assert(sdiv(0int * (PI_S as int), DEG_180 as int) == 0) by (nonlinear_arith);
    assert(sdiv(0int, SCALE as int) == 0) by (nonlinear_arith);
    assert(smul(0, 0) == sdiv(0int * 0int, SCALE as int));
    assert(smul(0, 0) == 0);
    assert(0int / 2 == 0 && 0int / 24 == 0 && 0int / 720 == 0) by (nonlinear_arith);
    assert(spec_cos_poly(0) == SCALE as int);
}

/// Cosine of `x` scaled degrees, result in `[-SCALE, SCALE]`.
pub fn cos_deg(x: i64) -> (r: i64)
    requires
        x > i64::MIN,
    ensures
        r == spec_cos_deg(x as int),
        -SCALE <= r <= SCALE,
{
    let mag: u64 = if x >= 0 {
        x as u64
    } else {
        (-x) as u64
    };
    let m: i64 = (mag % (DEG_360 as u64)) as i64;
    let f: i64 = if m > DEG_180 {
        DEG_360 - m
    } else {
        m
    };
    if f <= DEG_90 {
        cos_quarter(f)
    } else {
        let q: i64 = cos_quarter(DEG_180 - f);
        -q
    }
}

/// `x` to the `n`-th power in fixed point, for a base in `[0, SCALE]`.
pub open spec fn spec_pow_scaled(x: int, n: nat) -> int
    decreases n,
{
    if n == 0 {
        SCALE as int
    } else {
        smul(spec_pow_scaled(x, (n - 1) as nat), x)
    }
}

/// The fixed-point power of a base in `[0, SCALE]` stays in `[0, SCALE]`.
pub fn pow_scaled(x: i64, n: u32) -> (r: i64)
    requires
        0 <= x <= SCALE,
    ensures
        r == spec_pow_scaled(x as int, n as nat),
        0 <= r <= SCALE,
{
    let mut acc: i64 = SCALE;
    let mut i: u32 = 0;
    while i < n
        invariant
            0 <= i <= n,
            0 <= x <= SCALE,
            acc == spec_pow_scaled(x as int, i as nat),
            0 <= acc <= SCALE,
        decreases n - i,
    {
        proof {
            lemma_mul_le(acc as int, SCALE as int, x as int, SCALE as int);
            lemma_smul_unit(acc as int, x as int);
        }
        acc = mul_scaled(acc, x);
        i = i + 1;
    }
    acc
}

/// Binary search for the integer square root on the interval `[lo, hi)`,
/// maintained so that `lo * lo <= n < hi * hi`.
pub open spec fn isqrt_rec(n: int, lo: int, hi: int) -> int
    decreases hi - lo,
{
    if hi <= lo + 1 {
        lo
    } else {
        let mid = (lo + hi) / 2;
        if mid * mid <= n {
            isqrt_rec(n, mid, hi)
        } else {
            isqrt_rec(n, lo, mid)
        }
    }
}

/// Integer square root of a 64-bit value.
pub open spec fn spec_isqrt(n: int) -> int {
    let hi = if n >= 0xFFFF_FFFF {
        0x1_0000_0000
    } else {
        n + 1
    };
    isqrt_rec(n, 0, hi)
}

/// Integer square root: the greatest `r` with `r * r <= n`.
pub fn isqrt_u64(n: u64) -> (r: u64)
    ensures
        r as int == spec_isqrt(n as int),
        (r as int) * (r as int) <= n as int,
        ((r as int) + 1) * ((r as int) + 1) > n as int,
        r <= 0xFFFF_FFFF,
{
    let mut lo: u64 = 0;
    let mut hi: u64 = if n >= 0xFFFF_FFFF {
        0x1_0000_0000
    } else {
        n + 1
    };
    proof {
        assert((hi as int) * (hi as int) > n as int) by (nonlinear_arith)
            requires
                hi as int == if n as int >= 0xFFFF_FFFF {
                    0x1_0000_0000
                } else {
                    n as int + 1
                },
                n as int <= 0xFFFF_FFFF_FFFF_FFFF,
        ;
    }
    while lo + 1 < hi
        invariant
            0 <= lo < hi <= 0x1_0000_0000,
            (lo as int) * (lo as int) <= n as int,
            (hi as int) * (hi as int) > n as int,
            isqrt_rec(n as int, lo as int, hi as int) == spec_isqrt(n as int),
        decreases hi - lo,
    {
        let mid: u64 = (lo + hi) / 2;
        proof {
            assert(lo < mid < hi) by (nonlinear_arith)
                requires
                    mid as int == (lo as int + hi as int) / 2,
                    lo as int + 1 < hi as int,
                    lo >= 0,
            ;
            lemma_mul_le(mid as int, 0xFFFF_FFFF, mid as int, 0xFFFF_FFFF);
        }
        if mid * mid <= n {
            lo = mid;
        } else {
            hi = mid;
        }
    }
    lo
}

/// Natural logarithm of two, scaled.
pub const LN2_S: i64 = 693_147;

/// Division by a positive `d`: `a < d * (c + 1)` bounds the quotient by `c`.
pub proof fn lemma_div_lt(a: int, d: int, c: int)
    by (nonlinear_arith)
    requires
        0 <= a,
        0 < d,
        a < d * (c + 1),
    ensures
        a / d <= c,
{
}

/// Division by a positive `d`: `a >= d * c` keeps the quotient at least `c`.
pub proof fn lemma_div_ge(a: int, d: int, c: int)
    by (nonlinear_arith)
    requires
        0 <= c,
        0 < d,
        a >= d * c,
    ensures
        a / d >= c,
{
}

/// Quotient and remainder of a nonnegative value by a positive divisor.
pub proof fn lemma_div_rem(x: int, d: int)
    by (nonlinear_arith)
    requires
        x >= 0,
        d > 0,
    ensures
        x / d >= 0,
        0 <= x - (x / d) * d < d,
{
}

/// Sixth-order Taylor polynomial of the exponential, on scaled arguments in
/// `[0, ln 2)` where every term is nonnegative; the truncation error there
/// stays below a few hundred-thousandths.
pub open spec fn spec_exp_poly(r: int) -> int {
    let r2 = smul(r, r);
    let r3 = smul(r2, r);
    let r4 = smul(r3, r);
    let r5 = smul(r4, r);
    let r6 = smul(r5, r);
    SCALE as int + r + r2 / 2 + r3 / 6 + r4 / 24 + r5 / 120 + r6 / 720
}

/// `exp(m / SCALE)` scaled, for a nonnegative argument: the polynomial on the
/// remainder modulo `ln 2`, doubled once per whole multiple of `ln 2`.
pub open spec fn spec_exp_pos(m: int) -> int {
    let k = m / (LN2_S as int);
    let r = m - k * (LN2_S as int);
    spec_exp_poly(r) * (pow2(k as nat) as int)
}

/// `exp(x / SCALE)` scaled; a negative argument goes through the reciprocal.
pub open spec fn spec_exp(x: int) -> int {
    if x >= 0 {
        spec_exp_pos(x)
    } else {
        sdiv((SCALE as int) * (SCALE as int), spec_exp_pos(-x))
    }
}

/// Exponential polynomial on `[0, ln 2)`.
fn exp_poly(r: i64) -> (p: i64)
    requires
        0 <= r <= 693_146,
    ensures
        p == spec_exp_poly(r as int),
        SCALE + r <= p <= 1_999_982,
{
    proof {
        lemma_mul_le(r as int, 693_146, r as int, 693_146);
    }
    let c2: i64 = mul_scaled(r, r);
    proof {
        lemma_smul_bound(r as int, 693_146, r as int, 693_146);
        lemma_mul_le(c2 as int, 480_452, r as int, 693_146);
    }
    let c3: i64 = mul_scaled(c2, r);
    proof {
        lemma_smul_bound(c2 as int, 480_452, r as int, 693_146);
        lemma_mul_le(c3 as int, 333_024, r as int, 693_146);
    }
    let c4: i64 = mul_scaled(c3, r);
    proof {
        lemma_smul_bound(c3 as int, 333_024, r as int, 693_146);
        lemma_mul_le(c4 as int, 230_836, r as int, 693_146);
    }
    let c5: i64 = mul_scaled(c4, r);
    proof {
        lemma_smul_bound(c4 as int, 230_836, r as int, 693_146);
        lemma_mul_le(c5 as int, 160_004, r as int, 693_146);
    }
    let c6: i64 = mul_scaled(c5, r);
    proof {
        lemma_smul_bound(c5 as int, 160_004, r as int, 693_146);
        lemma_smul_bound(c6 as int, 110_907, SCALE as int, SCALE as int);
    }
    let t2: i64 = div_i64(c2, 2);
    let t3: i64 = div_i64(c3, 6);
    let t4: i64 = div_i64(c4, 24);
    let t5: i64 = div_i64(c5, 120);
    let t6: i64 = div_i64(c6, 720);
    SCALE + r + t2 + t3 + t4 + t5 + t6
}

/// Two to the `k`-th as an `i64`.
fn two_pow(k: u32) -> (t: i64)
    requires
        k <= 40,
    ensures
        t as int == pow2(k as nat),
        1 <= t <= 1_099_511_627_776,
        k <= 23 ==> t <= 8_388_608,
        k <= 18 ==> t <= 262_144,
        k <= 7 ==> t <= 128,
        k <= 4 ==> t <= 16,
        k <= 3 ==> t <= 8,
        k == 0 ==> t == 1,
{
    proof {
        vstd::arithmetic::power2::lemma2_to64();
        vstd::arithmetic::power2::lemma2_to64_rest();
    }
    let mut acc: i64 = 1;
    let mut i: u32 = 0;
    while i < k
        invariant
            i <= k <= 40,
            acc as int == pow2(i as nat),
            1 <= acc <= 1_099_511_627_776,
        decreases k - i,
    {
        proof {
            vstd::arithmetic::power2::lemma2_to64();
            vstd::arithmetic::power2::lemma2_to64_rest();
            if (i + 1) as nat <= 40 {
                if ((i + 1) as nat) < 40 {
                    vstd::arithmetic::power2::lemma_pow2_strictly_increases(
                        (i + 1) as nat,
                        40,
                    );
                }
            }
            assert(pow2((i + 1) as nat) == 2 * pow2(i as nat)) by {
                vstd::arithmetic::power2::lemma_pow2_unfold((i + 1) as nat);
            }
        }
        acc = acc * 2;
        i = i + 1;
    }
    proof {
        vstd::arithmetic::power2::lemma2_to64();
        if k < 23 {
            vstd::arithmetic::power2::lemma_pow2_strictly_increases(k as nat, 23);
        }
        if k < 18 {
            vstd::arithmetic::power2::lemma_pow2_strictly_increases(k as nat, 18);
        }
        if k < 7 {
            vstd::arithmetic::power2::lemma_pow2_strictly_increases(k as nat, 7);
        }
        if k < 4 {
            vstd::arithmetic::power2::lemma_pow2_strictly_increases(k as nat, 4);
        }
        if k < 3 {
            vstd::arithmetic::power2::lemma_pow2_strictly_increases(k as nat, 3);
        }
    }
    acc
}

/// Exponential for nonnegative scaled arguments.
fn exp_pos(m: i64) -> (r: i64)
    requires
        0 <= m <= 16_000_000,
    ensures
        r == spec_exp_pos(m as int),
        SCALE <= r <= 16_777_216_000_000,
        m <= 13_000_000 ==> r <= 524_288_000_000,
        m >= 100_000 ==> r >= 1_100_000,
        m == 0 ==> r == SCALE,
        m <= 600_000 ==> r <= 2_000_000,
        m <= 2_100_000 ==> r <= 16_000_000,
        m <= 3_400_000 ==> r <= 32_000_000,
        m <= 5_300_000 ==> r <= 256_000_000,
{
    let k: i64 = div_i64(m, LN2_S);
    proof {
        lemma_div_rem(m as int, LN2_S as int);
        lemma_div_lt(m as int, LN2_S as int, 23);
        if m <= 13_000_000 {
            lemma_div_lt(m as int, LN2_S as int, 18);
        }
        if m <= 600_000 {
            lemma_div_lt(m as int, LN2_S as int, 0);
        }
        if m <= 2_100_000 {
            lemma_div_lt(m as int, LN2_S as int, 3);
        }
        if m <= 3_400_000 {
            lemma_div_lt(m as int, LN2_S as int, 4);
        }
        if m <= 5_300_000 {
            lemma_div_lt(m as int, LN2_S as int, 7);
        }
    }
    let rr: i64 = m - k * LN2_S;
    let p: i64 = exp_poly(rr);
    let t: i64 = two_pow(k as u32);
    proof {
        lemma_mul_le(p as int, 1_999_982, t as int, 8_388_608);
        assert(p * t >= SCALE as int) by (nonlinear_arith)
            requires
                p >= SCALE as int,
                t >= 1,
        ;
        if m <= 13_000_000 {
            lemma_mul_le(p as int, 1_999_982, t as int, 262_144);
        }
        if m <= 600_000 {
            lemma_mul_le(p as int, 1_999_982, t as int, 1);
        }
        if m <= 2_100_000 {
            lemma_mul_le(p as int, 1_999_982, t as int, 8);
        }
        if m <= 3_400_000 {
            lemma_mul_le(p as int, 1_999_982, t as int, 16);
        }
        if m <= 5_300_000 {
            lemma_mul_le(p as int, 1_999_982, t as int, 128);
        }
        if m >= 100_000 {
            if k == 0 {
                assert(p * t >= 1_100_000) by (nonlinear_arith)
                    requires
                        p >= 1_100_000,
                        t >= 1,
                ;
            } else {
                vstd::arithmetic::power2::lemma2_to64();
                if k > 1 {
                    vstd::arithmetic::power2::lemma_pow2_strictly_increases(1, k as nat);
                }
                assert(p * t >= 2_000_000) by (nonlinear_arith)
                    requires
                        p >= 1_000_000,
                        t >= 2,
                ;
            }
        }
        if m == 0 {
            vstd::arithmetic::power2::lemma2_to64();
            vstd::arithmetic::div_mod::lemma_div_basics(SCALE as int);
            vstd::arithmetic::div_mod::lemma_div_basics(LN2_S as int);
            vstd::arithmetic::div_mod::lemma_div_basics(2);
            vstd::arithmetic::div_mod::lemma_div_basics(6);
            vstd::arithmetic::div_mod::lemma_div_basics(24);
            vstd::arithmetic::div_mod::lemma_div_basics(120);
            vstd::arithmetic::div_mod::lemma_div_basics(720);
            assert(k == 0);
            assert(rr == 0);
            assert(sdiv(0, SCALE as int) == 0) by (nonlinear_arith);
            assert(smul(0, 0) == sdiv(0int * 0int, SCALE as int));
            assert(0int * 0int == 0);
            assert(smul(0, 0) == 0);
            assert(spec_exp_poly(0) == SCALE as int);
            assert(p == SCALE);
            assert(t == 1);
            assert(p * t == SCALE as int) by (nonlinear_arith)
                requires
                    p == SCALE as int,
                    t == 1,
            ;
        }
    }
    p * t
}

/// Exponential of a scaled argument in `[-16, 16]`.
pub fn exp_scaled(x: i64) -> (r: i64)
    requires
        -16_000_000 <= x <= 16_000_000,
    ensures
        r == spec_exp(x as int),
        0 <= r <= 16_777_216_000_000,
        x >= 0 ==> r >= SCALE,
        x <= 0 ==> r <= SCALE,
        x <= -100_000 ==> r <= 909_091,
        x >= -13_000_000 ==> r >= 1,
        0 <= x <= 600_000 ==> r <= 2_000_000,
        0 <= x <= 2_100_000 ==> r <= 16_000_000,
        0 <= x <= 3_400_000 ==> r <= 32_000_000,
        0 <= x <= 5_300_000 ==> r <= 256_000_000,
{
    if x >= 0 {
        exp_pos(x)
    } else {
        let d: i64 = exp_pos(-x);
        let q: u64 = 1_000_000_000_000u64 / (d as u64);
        proof {
            lemma_div_lt(1_000_000_000_000, d as int, 1_000_000);
            if x <= -100_000 {
                assert(1_000_000_000_000 < (d as int) * 909_092) by (nonlinear_arith)
                    requires
                        d >= 1_100_000,
                ;
                lemma_div_lt(1_000_000_000_000, d as int, 909_091);
            }
            if x >= -13_000_000 {
                lemma_div_ge(1_000_000_000_000, d as int, 1);
            }
        }
        q as i64
    }
}

/// Logarithm series on a mantissa in `[SCALE, 2 * SCALE)`:
/// `ln m = 2 * atanh(u)` with `u = (m - 1) / (m + 1)` in `[0, 1/3]`.
pub open spec fn spec_ln_base(m: int) -> int {
    let u = sdiv((m - SCALE as int) * (SCALE as int), m + SCALE as int);
    let u2 = smul(u, u);
    let u3 = smul(u2, u);
    let u5 = smul(u3, u2);
    let u7 = smul(u5, u2);
    2 * (u + u3 / 3 + u5 / 5 + u7 / 7)
}

/// Natural logarithm of a scaled argument: the mantissa is normalised into
/// `[SCALE, 2 * SCALE)` one doubling or halving at a time.
pub open spec fn spec_ln(x: int) -> int
    decreases
            (if x < SCALE as int {
                2 * SCALE - x
            } else if x < 2 * SCALE as int {
                0
            } else {
                x
            }),
{
    if x < 1 {
        0
    } else if x < SCALE as int {
        spec_ln(2 * x) - LN2_S as int
    } else if x >= 2 * SCALE as int {
        spec_ln(x / 2) + LN2_S as int
    } else {
        spec_ln_base(x)
    }
}

/// Natural logarithm of a scaled argument in `(0, 10^6]` (real values up to
/// one million).
pub fn ln_scaled(x: i64) -> (r: i64)
    requires
        1 <= x <= 1_000_000_000_000,
    ensures
        r == spec_ln(x as int),
        -14_600_000 <= r <= 28_500_000,
        x >= SCALE ==> r >= 0,
        x < SCALE ==> r < 0,
        x <= 300_000_000 ==> r <= 6_300_000,
        x <= 64_000_000 ==> r <= 4_900_000,
        x >= 500_000 ==> r >= -693_147,
{
    let mut m: i64 = x;
    let mut k: i64 = 0;
    proof {
        vstd::arithmetic::power2::lemma2_to64();
    }
    while m < SCALE
        invariant
            1 <= m <= 1_000_000_000_000,
            1 <= x <= 1_000_000_000_000,
            -20 <= k <= 0,
            k == 0 ==> m == x,
            k == -1 ==> m == 2 * x,
            x >= 500_000 ==> k >= -1,
            x >= SCALE ==> k == 0,
            k <= -1 ==> m < 2 * SCALE,
            m as int >= pow2((-k) as nat),
            spec_ln(x as int) == spec_ln(m as int) + k * LN2_S,
        decreases 2 * SCALE - m,
    {
        proof {
            assert(spec_ln(m as int) == spec_ln(2 * m as int) - LN2_S as int);
            vstd::arithmetic::power2::lemma2_to64();
            if -k >= 20 {
                if -k > 20 {
                    vstd::arithmetic::power2::lemma_pow2_strictly_increases(
                        20,
                        (-k) as nat,
                    );
                }
                assert(false);
            }
            assert(pow2((-(k - 1)) as nat) == 2 * pow2((-k) as nat)) by {
                vstd::arithmetic::power2::lemma_pow2_unfold((-(k - 1)) as nat);
            }
        }
        m = m * 2;
        k = k - 1;
    }
    proof {
        vstd::arithmetic::power2::lemma2_to64();
        assert(x < SCALE ==> k <= -1);
    }
    while m >= 2 * SCALE
        invariant
            SCALE <= m <= 1_000_000_000_000,
            1 <= x <= 1_000_000_000_000,
            -20 <= k <= 40,
            m >= 2 * SCALE ==> k >= 0,
            x >= SCALE ==> k >= 0,
            x >= 500_000 ==> k >= -1,
            k == 0 ==> m == x,
            k >= 0 ==> (m as int) * pow2(k as nat) <= x as int,
            x < SCALE ==> k <= -1,
            spec_ln(x as int) == spec_ln(m as int) + k * LN2_S,
        decreases m,
    {
        proof {
            assert(spec_ln(m as int) == spec_ln(m as int / 2) + LN2_S as int);
            lemma_div_ge(m as int, 2, SCALE as int);
            lemma_div_rem(m as int, 2);
            vstd::arithmetic::power2::lemma2_to64();
            if k >= 20 {
                if k > 20 {
                    vstd::arithmetic::power2::lemma_pow2_strictly_increases(
                        20,
                        k as nat,
                    );
                }
                assert((m as int) * pow2(k as nat) > 1_000_000_000_000)
                    by (nonlinear_arith)
                    requires
                        m as int >= 2_000_000,
                        pow2(k as nat) >= 1_048_576,
                ;
                assert(false);
            }
            assert(pow2((k + 1) as nat) == 2 * pow2(k as nat)) by {
                vstd::arithmetic::power2::lemma_pow2_unfold((k + 1) as nat);
            }
            assert((m as int / 2) * (2 * pow2(k as nat)) <= (m as int) * pow2(
                k as nat,
            )) by (nonlinear_arith)
                requires
                    2 * (m as int / 2) <= m as int,
                    pow2(k as nat) >= 0,
            ;
        }
        m = div_i64(m, 2);
        k = k + 1;
    }
    proof {
        vstd::arithmetic::power2::lemma2_to64();
        vstd::arithmetic::power2::lemma2_to64_rest();
        if k >= 1 {
            assert(pow2(k as nat) * (SCALE as int) <= (m as int) * pow2(k as nat))
                by (nonlinear_arith)
                requires
                    m >= SCALE,
                    pow2(k as nat) >= 0,
            ;
            if x <= 300_000_000 {
                if k >= 9 {
                    if k > 9 {
                        vstd::arithmetic::power2::lemma_pow2_strictly_increases(
                            9,
                            k as nat,
                        );
                    }
                    assert(false);
                }
                assert(k <= 8);
            }
            if x <= 64_000_000 {
                if k >= 7 {
                    if k > 7 {
                        vstd::arithmetic::power2::lemma_pow2_strictly_increases(
                            7,
                            k as nat,
                        );
                    }
                    assert(false);
                }
                assert(k <= 6);
            }
        }
    }
    let u: i64 = div_i64((m - SCALE) * SCALE, m + SCALE);
    proof {
        assert((m - SCALE as int) * (SCALE as int) >= 0) by (nonlinear_arith)
            requires
                m >= SCALE,
        ;
        assert((m - SCALE as int) * (SCALE as int) < (m + SCALE as int) * 333_334)
            by (nonlinear_arith)
            requires
                SCALE as int <= m < 2 * SCALE as int,
        ;
        lemma_div_lt((m - SCALE as int) * (SCALE as int), m + SCALE as int, 333_333);
        lemma_div_ge((m - SCALE as int) * (SCALE as int), m + SCALE as int, 0);
        lemma_mul_le(u as int, 333_333, u as int, 333_333);
    }
    let u2: i64 = mul_scaled(u, u);
    proof {
        lemma_smul_bound(u as int, 333_333, u as int, 333_333);
        lemma_mul_le(u2 as int, 111_110, u as int, 333_333);
    }
    let u3: i64 = mul_scaled(u2, u);
    proof {
        lemma_smul_bound(u2 as int, 111_110, u as int, 333_333);
        lemma_mul_le(u3 as int, 37_036, u2 as int, 111_110);
    }
    let u5: i64 = mul_scaled(u3, u2);
    proof {
        lemma_smul_bound(u3 as int, 37_036, u2 as int, 111_110);
        lemma_mul_le(u5 as int, 4_115, u2 as int, 111_110);
    }
    let u7: i64 = mul_scaled(u5, u2);
    proof {
        lemma_smul_bound(u5 as int, 4_115, u2 as int, 111_110);
        lemma_sdiv_le(u3 as int, 37_036, 3);
        lemma_sdiv_le(u5 as int, 4_115, 5);
        lemma_sdiv_le(u7 as int, 457, 7);
    }
    let t3: i64 = div_i64(u3, 3);
    let t5: i64 = div_i64(u5, 5);
    let t7: i64 = div_i64(u7, 7);
    let base: i64 = 2 * (u + t3 + t5 + t7);
    proof {
        assert(base == spec_ln_base(m as int));
        assert(spec_ln(m as int) == spec_ln_base(m as int));
    }
    base + k * LN2_S
}

/// The fixed-point product is monotone in nonnegative factors.
pub proof fn lemma_smul_monotone(a1: int, b1: int, a2: int, b2: int)
    by (nonlinear_arith)
    requires
        0 <= a1 <= b1,
        0 <= a2 <= b2,
    ensures
        smul(a1, a2) <= smul(b1, b2),
{
}

/// The fixed-point power of a base in `[0, SCALE]` stays in `[0, SCALE]`.
pub proof fn lemma_pow_scaled_range(a: int, e: nat)
    requires
        0 <= a <= SCALE as int,
    ensures
        0 <= spec_pow_scaled(a, e) <= SCALE as int,
    decreases e,
{
    if e > 0 {
        lemma_pow_scaled_range(a, (e - 1) as nat);
        lemma_smul_unit(spec_pow_scaled(a, (e - 1) as nat), a);
    }
}

/// The fixed-point power is monotone in a base within `[0, SCALE]`.
pub proof fn lemma_pow_scaled_monotone(a: int, b: int, e: nat)
    requires
        0 <= a <= b <= SCALE as int,
    ensures
        spec_pow_scaled(a, e) <= spec_pow_scaled(b, e),
    decreases e,
{
    if e > 0 {
        lemma_pow_scaled_monotone(a, b, (e - 1) as nat);
        lemma_pow_scaled_range(a, (e - 1) as nat);
        lemma_pow_scaled_range(b, (e - 1) as nat);
        lemma_smul_monotone(
            spec_pow_scaled(a, (e - 1) as nat),
            spec_pow_scaled(b, (e - 1) as nat),
            a,
            b,
        );
    }
}

/// A base of exactly one keeps every fixed-point power at one.
pub proof fn lemma_pow_scaled_one(n: nat)
    ensures
        spec_pow_scaled(SCALE as int, n) == SCALE as int,
    decreases n,
{
    if n > 0 {
        lemma_pow_scaled_one((n - 1) as nat);
    }
}

/// A base of zero gives zero for every positive exponent.
pub proof fn lemma_pow_scaled_zero(n: nat)
    requires
        n >= 1,
    ensures
        spec_pow_scaled(0, n) == 0,
    decreases n,
{
    if n > 1 {
        lemma_pow_scaled_zero((n - 1) as nat);
    }
}

} // verus!
