use vstd::prelude::*;

verus! {

/// Number of fixed-point units in one pixel: all positions, extents and
/// speeds in this crate are integers counted in thousandths of a pixel.
pub const FX_SCALE: i64 = 1000;

/// Every coordinate the library produces is clamped into
/// `[-COORD_LIMIT, COORD_LIMIT]` (2^61), so that squared distances of
/// differences always fit in 128 bits.
pub const COORD_LIMIT: i64 = 0x2000_0000_0000_0000;

/// Speeds are per second; elapsed time arrives in microseconds.
pub const MICROS_PER_SEC: i64 = 1_000_000;

/// The longest elapsed time a single update call accepts, so that
/// scaling a velocity by it stays within the clamped arithmetic.
pub const DT_LIMIT: u64 = 0x2000_0000_0000_0000;

/// Absolute value, in the mathematical integers.
pub open spec fn abs_i(a: int) -> int {
    if a >= 0 {
        a
    } else {
        -a
    }
}

/// Clamp a mathematical integer into the coordinate range.
pub open spec fn clamp_coord(v: int) -> int {
    if v < -(COORD_LIMIT as int) {
        -(COORD_LIMIT as int)
    } else if v > COORD_LIMIT as int {
        COORD_LIMIT as int
    } else {
        v
    }
}

/// Truncating division of `a` by positive `d`, rounding toward zero, as
/// Rust's integer division does (ghost `/` alone is Euclidean).
pub open spec fn div_trunc(a: int, d: int) -> int {
    if a >= 0 {
        a / d
    } else {
        -((-a) / d)
    }
}

/// `a * b / d` with truncation toward zero, clamped into the coordinate
/// range: the one scalar operation behind all fixed-point scaling.
pub open spec fn mul_div_spec(a: int, b: int, d: int) -> int {
    clamp_coord(div_trunc(a * b, d))
}

pub fn mul_div(a: i64, b: i64, d: i64) -> (r: i64)
    requires
        -COORD_LIMIT <= a <= COORD_LIMIT,
        -COORD_LIMIT <= b <= COORD_LIMIT,
        0 < d,
    ensures
        r == mul_div_spec(a as int, b as int, d as int),
        -COORD_LIMIT <= r <= COORD_LIMIT,
{
    proof {
        assert((a as int) * (b as int) <= (COORD_LIMIT as int) * (COORD_LIMIT as int)
            && -((COORD_LIMIT as int) * (COORD_LIMIT as int)) <= (a as int) * (b as int))
            by (nonlinear_arith)
            requires
                -COORD_LIMIT <= a <= COORD_LIMIT,
                -COORD_LIMIT <= b <= COORD_LIMIT,
        ;
    }
    let p: i128 = (a as i128) * (b as i128);
    let neg: bool = p < 0;
    let m: u128 = if neg {
        (-p) as u128
    } else {
        p as u128
    };
    let q: u128 = m / (d as u128);
    proof {
        vstd::arithmetic::div_mod::lemma_div_is_ordered(q as int, m as int, 1);
        assert(q <= m);
    }
    let qc: i64 = if q > COORD_LIMIT as u128 {
        COORD_LIMIT
    } else {
        q as i64
    };
    if neg {
        -qc
    } else {
        qc
    }
}

/// `r` is the integer square root of `n` rounded down.
pub open spec fn is_sqrt_floor(n: int, r: int) -> bool {
    0 <= r && r * r <= n && n < (r + 1) * (r + 1)
}

/// The integer square root of a nonnegative integer, rounded down.
pub open spec fn sqrt_floor(n: int) -> int {
    choose|r: int| is_sqrt_floor(n, r)
}

pub proof fn lemma_square_ordered(a: int, b: int)
    by (nonlinear_arith)
    requires
        0 <= a <= b,
    ensures
        a * a <= b * b,
{
}

/// The integer square root is unique, so any witness names it.
pub proof fn lemma_sqrt_floor(n: int, r: int)
    requires
        is_sqrt_floor(n, r),
    ensures
        sqrt_floor(n) == r,
{
    assert(is_sqrt_floor(n, sqrt_floor(n)));
    let s = sqrt_floor(n);
    if s < r {
        lemma_square_ordered(s + 1, r);
        assert(false);
    }
    if r < s {
        lemma_square_ordered(r + 1, s);
        assert(false);
    }
}

/// Integer square root by bisection.
pub fn isqrt_u128(n: u128) -> (r: u64)
    ensures
        is_sqrt_floor(n as int, r as int),
        r as int == sqrt_floor(n as int),
{
    let mut lo: u128 = 0;
    let mut hi: u128 = 0x1_0000_0000_0000_0000;
    proof {
        assert((hi as int) * (hi as int) > n as int) by (nonlinear_arith)
            requires
                hi == 0x1_0000_0000_0000_0000u128,
                n <= u128::MAX,
        ;
    }
    while lo + 1 < hi
        invariant
            lo < hi,
            hi <= 0x1_0000_0000_0000_0000,
            (lo as int) * (lo as int) <= n as int,
            (n as int) < (hi as int) * (hi as int),
        decreases hi - lo,
    {
        let mid: u128 = lo + (hi - lo) / 2;
        assert(lo < mid < hi);
        proof {
            assert((mid as int) * (mid as int) < 0x1_0000_0000_0000_0000_0000_0000_0000_0000int)
                by (nonlinear_arith)
                requires
                    mid < 0x1_0000_0000_0000_0000u128,
            ;
        }
        let sq: u128 = mid * mid;
        if sq <= n {
            lo = mid;
        } else {
            hi = mid;
        }
    }
    proof {
        lemma_sqrt_floor(n as int, lo as int);
    }
    lo as u64
}

/// Fixed-point units rounded to whole pixels, halves away from zero.
pub open spec fn spec_to_pixels(a: int) -> int {
    if a >= 0 {
        div_trunc(a + FX_SCALE as int / 2, FX_SCALE as int)
    } else {
        -div_trunc(-a + FX_SCALE as int / 2, FX_SCALE as int)
    }
}

pub fn to_pixels(a: i64) -> (r: i64)
    requires
        -COORD_LIMIT <= a <= COORD_LIMIT,
    ensures
        r == spec_to_pixels(a as int),
{
    if a >= 0 {
        (((a as u64) + 500) / 1000) as i64
    } else {
        -(((((-a) as u64) + 500) / 1000) as i64)
    }
}

/// A point on the circle of radius `FX_SCALE` around the origin, chosen
/// by `k` among sixteen directions with exact integer coordinates, so a
/// velocity built from one has an exact integer magnitude.
pub open spec fn spec_unit_point(k: int) -> (int, int) {
    let i = k % 16;
    if i == 0 {
        (1000, 0)
    } else if i == 1 {
        (936, 352)
    } else if i == 2 {
        (800, 600)
    } else if i == 3 {
        (352, 936)
    } else if i == 4 {
        (0, 1000)
    } else if i == 5 {
        (-352, 936)
    } else if i == 6 {
        (-800, 600)
    } else if i == 7 {
        (-936, 352)
    } else if i == 8 {
        (-1000, 0)
    } else if i == 9 {
        (-936, -352)
    } else if i == 10 {
        (-800, -600)
    } else if i == 11 {
        (-352, -936)
    } else if i == 12 {
        (0, -1000)
    } else if i == 13 {
        (352, -936)
    } else if i == 14 {
        (800, -600)
    } else {
        (936, -352)
    }
}

/// Every chosen point lies exactly on the circle of radius `FX_SCALE`.
pub proof fn lemma_unit_point_on_circle(k: int)
    ensures
        ({
            let p = spec_unit_point(k);
            &&& p.0 * p.0 + p.1 * p.1 == (FX_SCALE as int) * (FX_SCALE as int)
            &&& -FX_SCALE <= p.0 <= FX_SCALE
            &&& -FX_SCALE <= p.1 <= FX_SCALE
        }),
{
    vstd::arithmetic::div_mod::lemma_mod_bound(k, 16);
    let i = k % 16;
    let p = spec_unit_point(k);
    if i == 0 {
        assert(p == (1000int, 0int));
    } else if i == 1 {
        assert(p == (936int, 352int));
    } else if i == 2 {
        assert(p == (800int, 600int));
    } else if i == 3 {
        assert(p == (352int, 936int));
    } else if i == 4 {
        assert(p == (0int, 1000int));
    } else if i == 5 {
        assert(p == (-352int, 936int));
    } else if i == 6 {
        assert(p == (-800int, 600int));
    } else if i == 7 {
        assert(p == (-936int, 352int));
    } else if i == 8 {
        assert(p == (-1000int, 0int));
    } else if i == 9 {
        assert(p == (-936int, -352int));
    } else if i == 10 {
        assert(p == (-800int, -600int));
    } else if i == 11 {
        assert(p == (-352int, -936int));
    } else if i == 12 {
        assert(p == (0int, -1000int));
    } else if i == 13 {
        assert(p == (352int, -936int));
    } else if i == 14 {
        assert(p == (800int, -600int));
    } else {
        assert(p == (936int, -352int));
    }
    assert(p.0 * p.0 + p.1 * p.1 == 1000000int);
    assert(-1000 <= p.0 <= 1000);
    assert(-1000 <= p.1 <= 1000);
}

pub fn get_point_on_unit_circle(k: u64) -> (r: (i64, i64))
    ensures
        (r.0 as int, r.1 as int) == spec_unit_point(k as int),
{
    let i = k % 16;
    if i == 0 {
        (1000, 0)
    } else if i == 1 {
        (936, 352)
    } else if i == 2 {
        (800, 600)
    } else if i == 3 {
        (352, 936)
    } else if i == 4 {
        (0, 1000)
    } else if i == 5 {
        (-352, 936)
    } else if i == 6 {
        (-800, 600)
    } else if i == 7 {
        (-936, 352)
    } else if i == 8 {
        (-1000, 0)
    } else if i == 9 {
        (-936, -352)
    } else if i == 10 {
        (-800, -600)
    } else if i == 11 {
        (-352, -936)
    } else if i == 12 {
        (0, -1000)
    } else if i == 13 {
        (352, -936)
    } else if i == 14 {
        (800, -600)
    } else {
        (936, -352)
    }
}

/// Relies on rand::random: draws a value of the asked-for type from the
/// thread-local generator. Nothing can be promised of a random draw.
pub assume_specification<T>[ rand::random::<T> ]() -> (r: T)
    where
        rand::distr::StandardUniform: rand::distr::Distribution<T>,
;

/// A random direction among the sixteen exact ones. Whatever the draw,
/// the point lies exactly on the circle of radius `FX_SCALE`.
pub fn get_random_point_on_unit_circle() -> (r: (i64, i64))
    ensures
        exists|k: int| (r.0 as int, r.1 as int) == spec_unit_point(k),
        (r.0 as int) * (r.0 as int) + (r.1 as int) * (r.1 as int) == (FX_SCALE as int) * (
        FX_SCALE as int),
{
    let k: u64 = rand::random::<u64>();
    let r = get_point_on_unit_circle(k);
    proof {
        assert((r.0 as int, r.1 as int) == spec_unit_point(k as int));
        lemma_unit_point_on_circle(k as int);
    }
    r
}

} // verus!
