//! Fixed-point fractions: a value `v` stands for `v / ONE`.

use vstd::prelude::*;

verus! {

/// One whole unit: `ONE` millionths.
pub const ONE: i64 = 1_000_000;

/// `x` clamped into `[lo, hi]`.
pub open spec fn clamp(x: int, lo: int, hi: int) -> int {
    if x < lo {
        lo
    } else if x > hi {
        hi
    } else {
        x
    }
}

/// A 0-1 fraction kept in range.
pub open spec fn unit(x: int) -> int {
    clamp(x, 0, ONE as int)
}

/// Clamp `x` into `[lo, hi]`.
pub fn clamp_i64(x: i64, lo: i64, hi: i64) -> (r: i64)
    requires
        lo <= hi,
    ensures
        r == clamp(x as int, lo as int, hi as int),
{
    if x < lo {
        lo
    } else if x > hi {
        hi
    } else {
        x
    }
}

} // verus!

verus! {

/// Bound on operands of [`fmul`]: about 1.1 × 10¹².
pub const BOUND: i64 = 1_099_511_627_776;

/// `a / b` rounded toward zero, for `b > 0` (integer division as the machine does it).
pub open spec fn tdiv(a: int, b: int) -> int {
    if a >= 0 {
        a / b
    } else {
        -((-a) / b)
    }
}

/// `x × f / ONE`, truncated toward zero (how a fraction scales a quantity).
pub open spec fn scale(x: int, f: int) -> int {
    tdiv(x * f, ONE as int)
}

/// `a / b` rounded up, for `b > 0`.
pub open spec fn cdiv(a: int, b: int) -> int {
    if a <= 0 {
        -((-a) / b)
    } else {
        (a + b - 1) / b
    }
}

/// `a / b` rounded down, for `b > 0`.
pub open spec fn fdiv(a: int, b: int) -> int {
    if a >= 0 {
        a / b
    } else {
        -(((-a) + b - 1) / b)
    }
}

/// Truncating division of a wide value by a positive divisor.
pub fn tdiv_i128(a: i128, b: i128) -> (r: i128)
    requires
        b > 0,
        a > i128::MIN,
    ensures
        r == tdiv(a as int, b as int),
{
    proof {
        let ai = a as int;
        let bi = b as int;
        let na = -ai;
        if ai >= 0 {
            assert(0 <= ai / bi <= ai) by (nonlinear_arith)
                requires
                    ai >= 0,
                    bi > 0,
            ;
        } else {
            assert(0 <= na / bi <= na) by (nonlinear_arith)
                requires
                    na >= 0,
                    bi > 0,
            ;
        }
    }
    if a >= 0 {
        a / b
    } else {
        -((-a) / b)
    }
}

/// Ceiling division of a wide value by a positive divisor.
pub fn cdiv_i128(a: i128, b: i128) -> (r: i128)
    requires
        0 < b <= 0x4000_0000_0000_0000,
        -0x4000_0000_0000_0000_0000_0000_0000_0000 <= a <= 0x4000_0000_0000_0000_0000_0000_0000_0000,
    ensures
        r == cdiv(a as int, b as int),
{
    proof {
        let bi = b as int;
        if a <= 0 {
            let na = -(a as int);
            assert(0 <= na / bi <= na) by (nonlinear_arith)
                requires
                    na >= 0,
                    bi > 0,
            ;
        } else {
            let x = (a as int) + bi - 1;
            assert(0 <= x / bi <= x) by (nonlinear_arith)
                requires
                    x >= 0,
                    bi > 0,
            ;
        }
    }
    if a <= 0 {
        -((-a) / b)
    } else {
        (a + b - 1) / b
    }
}

/// Floor division of a wide value by a positive divisor.
pub fn fdiv_i128(a: i128, b: i128) -> (r: i128)
    requires
        0 < b <= 0x4000_0000_0000_0000,
        -0x4000_0000_0000_0000_0000_0000_0000_0000 <= a <= 0x4000_0000_0000_0000_0000_0000_0000_0000,
    ensures
        r == fdiv(a as int, b as int),
{
    proof {
        let bi = b as int;
        if a >= 0 {
            let ai = a as int;
            assert(0 <= ai / bi <= ai) by (nonlinear_arith)
                requires
                    ai >= 0,
                    bi > 0,
            ;
        } else {
            let x = -(a as int) + bi - 1;
            assert(0 <= x / bi <= x) by (nonlinear_arith)
                requires
                    x >= 0,
                    bi > 0,
            ;
        }
    }
    if a >= 0 {
        a / b
    } else {
        -(((-a) + b - 1) / b)
    }
}

/// The exact product of two 64-bit values.
pub fn mul_wide(a: i64, b: i64) -> (r: i128)
    ensures
        r == (a as int) * (b as int),
        -0x4000_0000_0000_0000_0000_0000_0000_0000 <= r <= 0x4000_0000_0000_0000_0000_0000_0000_0000,
{
    proof {
        let ai = a as int;
        let bi = b as int;
        assert(-0x4000_0000_0000_0000_0000_0000_0000_0000 <= ai * bi
            <= 0x4000_0000_0000_0000_0000_0000_0000_0000) by (nonlinear_arith)
            requires
                -0x8000_0000_0000_0000 <= ai <= 0x7fff_ffff_ffff_ffff,
                -0x8000_0000_0000_0000 <= bi <= 0x7fff_ffff_ffff_ffff,
        ;
    }
    (a as i128) * (b as i128)
}

/// A wide value clamped into `[lo, hi]`.
pub fn clamp_i128(x: i128, lo: i64, hi: i64) -> (r: i64)
    requires
        lo <= hi,
    ensures
        r == clamp(x as int, lo as int, hi as int),
{
    if x < (lo as i128) {
        lo
    } else if x > (hi as i128) {
        hi
    } else {
        x as i64
    }
}

/// `x + d`, floored at zero and saturating at `i64::MAX`.
pub open spec fn floor0(v: int) -> int {
    clamp(v, 0, i64::MAX as int)
}

proof fn lemma_scale_bounds(x: int, f: int)
    requires
        0 <= f <= ONE,
    ensures
        -(if x >= 0 { x } else { -x }) <= scale(x, f) <= (if x >= 0 { x } else { -x }),
        x >= 0 ==> scale(x, f) >= 0,
        x <= 0 ==> scale(x, f) <= 0,
{
    let ax = if x >= 0 { x } else { -x };
    assert(0 <= ax * f <= ax * ONE) by (nonlinear_arith)
        requires
            0 <= f <= ONE,
            ax >= 0,
    ;
    if x >= 0 {
        assert(x * f == ax * f);
        assert((ax * f) / (ONE as int) <= ax) by (nonlinear_arith)
            requires
                0 <= ax * f <= ax * ONE,
        ;
    } else {
        assert(x * f == -(ax * f)) by (nonlinear_arith)
            requires
                ax == -x,
        ;
        assert((ax * f) / (ONE as int) <= ax) by (nonlinear_arith)
            requires
                0 <= ax * f <= ax * ONE,
        ;
        if x * f == 0 {
        }
    }
}

/// Scaling is symmetric in its two factors.
pub proof fn lemma_scale_swap(x: int, f: int)
    ensures
        scale(x, f) == scale(f, x),
{
    assert(x * f == f * x) by (nonlinear_arith);
}

/// `x` scaled by a fraction `f` in `[0, ONE]`, truncated toward zero.
pub fn mul_frac(x: i64, f: i64) -> (r: i64)
    requires
        0 <= f <= ONE,
    ensures
        r == scale(x as int, f as int),
        x >= 0 ==> 0 <= r <= x,
        x <= 0 ==> x <= r <= 0,
{
    proof {
        lemma_scale_bounds(x as int, f as int);
    }
    let p: i128 = (x as i128) * (f as i128);
    if p >= 0 {
        (p / (ONE as i128)) as i64
    } else {
        (-((-p) / (ONE as i128))) as i64
    }
}

/// `x × f / ONE`, truncated toward zero, for operands within [`BOUND`].
pub fn fmul(x: i64, f: i64) -> (r: i64)
    requires
        -BOUND <= x <= BOUND,
        -BOUND <= f <= BOUND,
    ensures
        r == scale(x as int, f as int),
{
    proof {
        let xi = x as int;
        let fi = f as int;
        assert(-BOUND * BOUND <= xi * fi <= BOUND * BOUND) by (nonlinear_arith)
            requires
                -BOUND <= xi <= BOUND,
                -BOUND <= fi <= BOUND,
        ;
    }
    let p: i128 = (x as i128) * (f as i128);
    if p >= 0 {
        (p / (ONE as i128)) as i64
    } else {
        (-((-p) / (ONE as i128))) as i64
    }
}

/// `a × ONE / b` (the fraction `a / b`), for `0 <= a <= BOUND` and `b > 0`.
pub fn ratio(a: i64, b: i64) -> (r: i64)
    requires
        0 <= a <= BOUND,
        b > 0,
    ensures
        r == (a * ONE) / (b as int),
        r >= 0,
        a <= b ==> r <= ONE,
{
    proof {
        assert(0 <= (a as int) * ONE <= BOUND * ONE) by (nonlinear_arith)
            requires
                0 <= a <= BOUND,
        ;
        assert(((a as int) * ONE) / (b as int) <= (a as int) * ONE) by (nonlinear_arith)
            requires
                b >= 1,
                (a as int) * ONE >= 0,
        ;
        if a <= b {
            assert(((a as int) * ONE) / (b as int) <= ONE) by (nonlinear_arith)
                requires
                    0 <= a <= b,
                    b >= 1,
            ;
        }
    }
    ((a as i128) * (ONE as i128) / (b as i128)) as i64
}

/// One more, stopping at the counter's top.
pub open spec fn bump(x: u32) -> u32 {
    if x < u32::MAX {
        (x + 1) as u32
    } else {
        x
    }
}

/// `x + d`, kept inside `[0, ONE]`.
pub fn add_unit(x: i64, d: i64) -> (r: i64)
    ensures
        r == unit(x + d),
{
    let s: i128 = (x as i128) + (d as i128);
    if s < 0 {
        0
    } else if s > (ONE as i128) {
        ONE
    } else {
        s as i64
    }
}

/// `x + d`, floored at zero and saturating at the top of the type.
pub fn add_floor0(x: i64, d: i64) -> (r: i64)
    ensures
        r == floor0(x + d),
{
    let s: i128 = (x as i128) + (d as i128);
    if s < 0 {
        0
    } else if s > (i64::MAX as i128) {
        i64::MAX
    } else {
        s as i64
    }
}

/// A head count plus a signed change, floored at zero and saturating.
pub fn add_count(x: u32, d: i32) -> (r: u32)
    ensures
        r == clamp(x + d, 0, u32::MAX as int),
{
    let s: i64 = (x as i64) + (d as i64);
    if s < 0 {
        0
    } else if s > (u32::MAX as i64) {
        u32::MAX
    } else {
        s as u32
    }
}

/// A stock of parts plus a signed change, floored at zero and saturating.
pub fn add_parts(x: i32, d: i32) -> (r: i32)
    ensures
        r == clamp(x + d, 0, i32::MAX as int),
{
    let s: i64 = (x as i64) + (d as i64);
    if s < 0 {
        0
    } else if s > (i32::MAX as i64) {
        i32::MAX
    } else {
        s as i32
    }
}

} // verus!
