//! Fixed-point scalars.
//!
//! Every length, speed, range, strength and time of the simulation is a whole
//! number of millionths: the integer `1_500_000` stands for one and a half. Sums and
//! differences of such numbers are exact. A product of two of them is divided
//! by [`SCALE`], and every division rounds toward zero, as the machine's
//! integer division does.

use vstd::prelude::*;

verus! {

/// How many steps of the fixed-point grid make up one unit.
pub const SCALE: i64 = 1_000_000;

/// Half the width of the square world: coordinates run from `-HALF_SIZE` to
/// `HALF_SIZE` on both axes.
pub const HALF_SIZE: i64 = 500_000_000;

/// The highest speed an agent may have once a tick is over, per second.
pub const MAX_SPEED: i64 = 100_000_000;

/// How many steps of the clock make up one second: time is counted in
/// millionths of a second.
pub const TICKS_PER_SECOND: i64 = 1_000_000;

/// The quotient of `a` by `b`, rounded toward zero.
pub open spec fn quotient(a: int, b: int) -> int {
    if a >= 0 {
        a / b
    } else {
        -((-a) / b)
    }
}

/// The distance of `a` from zero.
pub open spec fn magnitude(a: int) -> int {
    if a < 0 {
        -a
    } else {
        a
    }
}

/// A quotient rounded toward zero is the quotient of the magnitudes, with the
/// sign of the dividend.
pub proof fn lemma_quotient_magnitude(a: int, b: int)
    requires
        0 < b,
    ensures
        magnitude(quotient(a, b)) == magnitude(a) / b,
        magnitude(quotient(a, b)) * b <= magnitude(a),
        magnitude(a) < (magnitude(quotient(a, b)) + 1) * b,
        a >= 0 ==> quotient(a, b) >= 0,
        a <= 0 ==> quotient(a, b) <= 0,
{
    let m: int = magnitude(a);
    assert(0 <= m / b && (m / b) * b <= m && m < (m / b + 1) * b) by (nonlinear_arith)
        requires
            0 <= m,
            0 < b,
    ;
}

/// A quotient rounded toward zero is no further from zero than `bound` where
/// the dividend is no further from zero than `bound` times the divisor.
pub proof fn lemma_quotient_bound(a: int, b: int, bound: int)
    requires
        0 < b,
        0 <= bound,
        magnitude(a) <= bound * b,
    ensures
        magnitude(quotient(a, b)) <= bound,
        -bound <= quotient(a, b) <= bound,
{
    lemma_quotient_magnitude(a, b);
    let q: int = magnitude(quotient(a, b));
    assert(q <= bound) by (nonlinear_arith)
        requires
            0 < b,
            0 <= bound,
            0 <= q,
            q * b <= bound * b,
    ;
}

/// Whether `root` is the square root of `n`, rounded down.
pub open spec fn is_floor_sqrt(n: int, root: int) -> bool {
    0 <= root && root * root <= n && n < (root + 1) * (root + 1)
}

/// The square root of `n`, rounded down; zero where `n` is negative.
pub open spec fn floor_sqrt(n: int) -> int {
    if n < 0 {
        0
    } else {
        choose|root: int| is_floor_sqrt(n, root)
    }
}

/// The square root of `n`, rounded up; zero where `n` is negative.
pub open spec fn ceil_sqrt(n: int) -> int {
    let root = floor_sqrt(n);
    if root * root >= n {
        root
    } else {
        root + 1
    }
}

/// Two numbers that both are the rounded-down square root of `n` are equal.
pub proof fn lemma_floor_sqrt_unique(n: int, first: int, second: int)
    requires
        is_floor_sqrt(n, first),
        is_floor_sqrt(n, second),
    ensures
        first == second,
{
    assert(first < second + 1) by (nonlinear_arith)
        requires
            0 <= first,
            0 <= second,
            first * first < (second + 1) * (second + 1),
    ;
    assert(second < first + 1) by (nonlinear_arith)
        requires
            0 <= first,
            0 <= second,
            second * second < (first + 1) * (first + 1),
    ;
}

/// Every number from zero on has a rounded-down square root, and
/// [`floor_sqrt`] is that root.
pub proof fn lemma_floor_sqrt(n: int)
    requires
        0 <= n,
    ensures
        is_floor_sqrt(n, floor_sqrt(n)),
    decreases n,
{
    if n == 0 {
        assert(is_floor_sqrt(0, 0));
    } else {
        lemma_floor_sqrt(n - 1);
        let below: int = floor_sqrt(n - 1);
        if (below + 1) * (below + 1) <= n {
            assert((below + 2) * (below + 2) > (below + 1) * (below + 1)) by (nonlinear_arith)
                requires
                    0 <= below,
            ;
            assert(is_floor_sqrt(n, below + 1));
        } else {
            assert(is_floor_sqrt(n, below));
        }
    }
}

/// A number known to be the rounded-down square root of `n` is what
/// [`floor_sqrt`] names.
pub proof fn lemma_floor_sqrt_is(n: int, root: int)
    requires
        is_floor_sqrt(n, root),
    ensures
        floor_sqrt(n) == root,
{
    assert(0 <= n) by (nonlinear_arith)
        requires
            0 <= root * root <= n,
    ;
    lemma_floor_sqrt(n);
    lemma_floor_sqrt_unique(n, floor_sqrt(n), root);
}

/// The rounded-up square root of `n` is the least number from zero on whose
/// square reaches `n`.
pub proof fn lemma_ceil_sqrt(n: int)
    requires
        0 <= n,
    ensures
        0 <= ceil_sqrt(n),
        n <= ceil_sqrt(n) * ceil_sqrt(n),
        n > 0 ==> (ceil_sqrt(n) - 1) * (ceil_sqrt(n) - 1) < n,
        n > 0 ==> ceil_sqrt(n) > 0,
{
    lemma_floor_sqrt(n);
    let root: int = floor_sqrt(n);
    if root * root >= n {
        if n > 0 {
            assert((root - 1) * (root - 1) < root * root) by (nonlinear_arith)
                requires
                    0 < root * root,
                    0 <= root,
            ;
        }
    }
}

/// The square root of `n`, rounded down.
pub fn isqrt(n: u128) -> (root: u64)
    ensures
        root == floor_sqrt(n as int),
{
    let mut low: u128 = 0;
    let mut high: u128 = 0x1_0000_0000_0000_0000;
    assert(n < high * high) by (nonlinear_arith)
        requires
            high == 0x1_0000_0000_0000_0000,
            n <= u128::MAX,
    ;
    while high - low > 1
        invariant
            low < high <= 0x1_0000_0000_0000_0000,
            low * low <= n,
            n < high * high,
        decreases high - low,
    {
        let middle: u128 = low + (high - low) / 2;
        assert(middle * middle <= 0xffff_ffff_ffff_ffff * 0xffff_ffff_ffff_ffff)
            by (nonlinear_arith)
            requires
                0 <= middle <= 0xffff_ffff_ffff_ffff,
        ;
        if middle * middle <= n {
            low = middle;
        } else {
            high = middle;
        }
    }
    proof {
        lemma_floor_sqrt_is(n as int, low as int);
    }
    low as u64
}

/// The square root of `n`, rounded up.
pub fn isqrt_ceil(n: u128) -> (root: u128)
    ensures
        root == ceil_sqrt(n as int),
        root <= 0x1_0000_0000_0000_0000,
{
    let below: u64 = isqrt(n);
    proof {
        lemma_floor_sqrt(n as int);
    }
    let wide: u128 = below as u128;
    assert(wide * wide <= n);
    if wide * wide >= n {
        wide
    } else {
        wide + 1
    }
}

} // verus!
