//! Fixed-point scalar arithmetic.
//!
//! A scalar is an `i64` holding the represented value times [`FX_ONE`].
//! Every operation saturates symmetrically at `FX_MAX` / `-FX_MAX`, so
//! results always admit exact negation, and each executable operation is
//! specified exactly by its `_s` spec companion.

use vstd::prelude::*;
use vstd::arithmetic::div_mod::lemma_div_is_ordered;
use vstd::arithmetic::div_mod::lemma_fundamental_div_mod;
use vstd::arithmetic::div_mod::lemma_mod_division_less_than_divisor;
use vstd::arithmetic::div_mod::lemma_div_multiples_vanish;
use vstd::arithmetic::div_mod::lemma_div_pos_is_pos;
use vstd::arithmetic::div_mod::lemma_div_nonincreasing;

verus! {

/// The scalar representing one: values are stored as `value * FX_ONE`.
pub const FX_ONE: i64 = 65536;

/// The largest scalar magnitude; arithmetic saturates at `FX_MAX` and
/// `-FX_MAX` (never `i64::MIN`), keeping negation total and exact. A
/// raw `i64::MIN` fed into an operation likewise comes out as `-FX_MAX`:
/// even a scale by one is then not the identity.
pub const FX_MAX: i64 = 0x7fff_ffff_ffff_ffff;

/// Saturate an unbounded integer into the symmetric scalar range.
pub open spec fn fx_clip(x: int) -> int {
    if x > FX_MAX as int {
        FX_MAX as int
    } else if x < -(FX_MAX as int) {
        -(FX_MAX as int)
    } else {
        x
    }
}

/// Magnitude of an integer.
pub open spec fn fx_abs(x: int) -> int {
    if x >= 0 {
        x
    } else {
        -x
    }
}

/// Quotient rounded toward zero, the rounding the executable code uses.
pub open spec fn fx_tdiv(x: int, d: int) -> int
    recommends
        d > 0,
{
    if x >= 0 {
        x / d
    } else {
        -((-x) / d)
    }
}

/// Saturating sum of two scalars.
pub open spec fn fx_add_s(a: int, b: int) -> int {
    fx_clip(a + b)
}

/// Saturating difference of two scalars.
pub open spec fn fx_sub_s(a: int, b: int) -> int {
    fx_clip(a - b)
}

/// Saturating negation of a scalar.
pub open spec fn fx_neg_s(a: int) -> int {
    fx_clip(-a)
}

/// Saturating fixed-point product: `a * b` descaled by `FX_ONE`,
/// rounded toward zero.
pub open spec fn fx_mul_s(a: int, b: int) -> int {
    fx_clip(fx_tdiv(a * b, FX_ONE as int))
}

/// Saturating fixed-point quotient: `a / b` rescaled by `FX_ONE`,
/// rounded toward zero. The divisor must not be zero.
pub open spec fn fx_div_s(a: int, b: int) -> int
    recommends
        b != 0,
{
    if b > 0 {
        fx_clip(fx_tdiv(a * (FX_ONE as int), b))
    } else {
        fx_clip(-fx_tdiv(a * (FX_ONE as int), -b))
    }
}

/// `r` is the integer square root of `n`.
pub open spec fn is_sqrt(n: int, r: int) -> bool {
    r >= 0 && r * r <= n && n < (r + 1) * (r + 1)
}

/// The integer square root of a non-negative integer.
pub open spec fn sqrt_floor(n: int) -> int
    recommends
        n >= 0,
{
    choose|r: int| #[trigger] is_sqrt(n, r)
}

/// The fixed-point square root of a scalar: since scalars carry a factor
/// of `FX_ONE`, the result is the integer square root of `a * FX_ONE`.
pub open spec fn fx_sqrt_s(a: int) -> int
    recommends
        a >= 0,
{
    sqrt_floor(a * (FX_ONE as int))
}

pub proof fn lemma_sqrt_exists(n: int)
    requires
        n >= 0,
    ensures
        exists|r: int| is_sqrt(n, r),
    decreases n,
{
    if n == 0 {
        assert(is_sqrt(0, 0)) by (nonlinear_arith);
    } else {
        lemma_sqrt_exists(n - 1);
        let r = choose|r: int| #[trigger] is_sqrt(n - 1, r);
        if (r + 1) * (r + 1) <= n {
            assert(is_sqrt(n, r + 1)) by (nonlinear_arith)
                requires
                    r >= 0,
                    (r + 1) * (r + 1) <= n,
                    n - 1 < (r + 1) * (r + 1),
            ;
        } else {
            assert(is_sqrt(n, r)) by (nonlinear_arith)
                requires
                    r >= 0,
                    r * r <= n - 1,
                    (r + 1) * (r + 1) > n,
            ;
        }
    }
}

pub proof fn lemma_sqrt_unique(n: int, r: int)
    requires
        is_sqrt(n, r),
    ensures
        sqrt_floor(n) == r,
{
    let r2 = choose|x: int| #[trigger] is_sqrt(n, x);
    assert(is_sqrt(n, r2));
    assert(r == r2) by (nonlinear_arith)
        requires
            is_sqrt(n, r),
            is_sqrt(n, r2),
    ;
}

/// The square root of a scalar in `[0, FX_MAX]` fits the scalar range.
pub proof fn lemma_sqrt_bounds(n: int)
    requires
        n >= 0,
    ensures
        0 <= sqrt_floor(n),
        sqrt_floor(n) * sqrt_floor(n) <= n,
        n < (sqrt_floor(n) + 1) * (sqrt_floor(n) + 1),
{
    lemma_sqrt_exists(n);
    let r = choose|x: int| #[trigger] is_sqrt(n, x);
    lemma_sqrt_unique(n, r);
}

/// Quotients toward zero keep order when the divisor is positive.
pub proof fn lemma_tdiv_ordered(x: int, y: int, d: int)
    requires
        d > 0,
        x <= y,
    ensures
        fx_tdiv(x, d) <= fx_tdiv(y, d),
{
    if x >= 0 {
        lemma_div_is_ordered(x, y, d);
    } else if y >= 0 {
        lemma_div_pos_is_pos(y, d);
        lemma_div_pos_is_pos(-x, d);
    } else {
        lemma_div_is_ordered(-y, -x, d);
    }
}

/// A quotient toward zero never grows the magnitude (divisor at least one).
pub proof fn lemma_tdiv_shrinks(x: int, d: int)
    requires
        d >= 1,
    ensures
        fx_abs(fx_tdiv(x, d)) <= fx_abs(x),
        x >= 0 ==> 0 <= fx_tdiv(x, d) <= x,
        x < 0 ==> x <= fx_tdiv(x, d) <= 0,
{
    if x >= 0 {
        lemma_div_pos_is_pos(x, d);
        lemma_div_nonincreasing(x, d);
    } else {
        lemma_div_pos_is_pos(-x, d);
        lemma_div_nonincreasing(-x, d);
    }
}

/// The envelope of a non-negative quotient: `d * (x / d)` reaches `x`
/// to within one divisor.
pub proof fn lemma_tdiv_envelope(x: int, d: int)
    requires
        x >= 0,
        d > 0,
    ensures
        fx_tdiv(x, d) >= 0,
        d * fx_tdiv(x, d) <= x < d * fx_tdiv(x, d) + d,
{
    lemma_fundamental_div_mod(x, d);
    lemma_mod_division_less_than_divisor(x, d);
    lemma_div_pos_is_pos(x, d);
}

/// Exact division: `(k * d) / d == k` also under rounding toward zero.
pub proof fn lemma_tdiv_exact(k: int, d: int)
    requires
        d > 0,
    ensures
        fx_tdiv(k * d, d) == k,
{
    if k * d >= 0 {
        assert(k * d == d * k) by (nonlinear_arith);
        lemma_div_multiples_vanish(k, d);
    } else {
        assert(-(k * d) == d * (-k)) by (nonlinear_arith);
        lemma_div_multiples_vanish(-k, d);
    }
}

/// Magnitude of an `i64` scalar, total (covers `i64::MIN`).
pub fn fx_abs_u(a: i64) -> (r: u128)
    ensures
        r == fx_abs(a as int),
        r <= 0x8000_0000_0000_0000u128,
{
    if a >= 0 {
        a as u128
    } else {
        (-(a as i128)) as u128
    }
}

/// Saturating scalar addition.
pub fn fx_add(a: i64, b: i64) -> (r: i64)
    ensures
        r == fx_add_s(a as int, b as int),
{
    let s: i128 = a as i128 + b as i128;
    if s > FX_MAX as i128 {
        FX_MAX
    } else if s < -(FX_MAX as i128) {
        -FX_MAX
    } else {
        s as i64
    }
}

/// Saturating scalar subtraction.
pub fn fx_sub(a: i64, b: i64) -> (r: i64)
    ensures
        r == fx_sub_s(a as int, b as int),
{
    let s: i128 = a as i128 - b as i128;
    if s > FX_MAX as i128 {
        FX_MAX
    } else if s < -(FX_MAX as i128) {
        -FX_MAX
    } else {
        s as i64
    }
}

/// Saturating scalar negation.
pub fn fx_neg(a: i64) -> (r: i64)
    ensures
        r == fx_neg_s(a as int),
{
    if a < -FX_MAX {
        FX_MAX
    } else {
        -a
    }
}

/// Signs and magnitudes multiply independently.
proof fn lemma_abs_mul(a: int, b: int)
    ensures
        fx_abs(a * b) == fx_abs(a) * fx_abs(b),
        ((a < 0) != (b < 0)) ==> a * b <= 0,
        !((a < 0) != (b < 0)) ==> a * b >= 0,
{
    assert(fx_abs(a * b) == fx_abs(a) * fx_abs(b) && (((a < 0) != (b < 0)) ==> a * b <= 0)
        && (!((a < 0) != (b < 0)) ==> a * b >= 0)) by (nonlinear_arith);
}

/// Saturating fixed-point multiplication.
pub fn fx_mul(a: i64, b: i64) -> (r: i64)
    ensures
        r == fx_mul_s(a as int, b as int),
{
    let neg: bool = (a < 0) != (b < 0);
    let aa: u128 = fx_abs_u(a);
    let bb: u128 = fx_abs_u(b);
    assert(aa * bb <= 0x4000_0000_0000_0000_0000_0000_0000_0000u128) by (nonlinear_arith)
        requires
            aa <= 0x8000_0000_0000_0000u128,
            bb <= 0x8000_0000_0000_0000u128,
    ;
    let p: u128 = aa * bb;
    let q: u128 = p / 65536;
    proof {
        lemma_abs_mul(a as int, b as int);
        lemma_tdiv_shrinks(a as int * b as int, FX_ONE as int);
    }
    if neg {
        assert(fx_tdiv(a as int * b as int, FX_ONE as int) == -(q as int));
        if q > 0x7fff_ffff_ffff_ffffu128 {
            -FX_MAX
        } else {
            -(q as i64)
        }
    } else {
        assert(fx_tdiv(a as int * b as int, FX_ONE as int) == q as int);
        if q > 0x7fff_ffff_ffff_ffffu128 {
            FX_MAX
        } else {
            q as i64
        }
    }
}

/// Saturating fixed-point division by a nonzero scalar.
pub fn fx_div(a: i64, b: i64) -> (r: i64)
    requires
        b != 0,
    ensures
        r == fx_div_s(a as int, b as int),
{
    let neg: bool = (a < 0) != (b < 0);
    let aa: u128 = fx_abs_u(a);
    let bb: u128 = fx_abs_u(b);
    let num: u128 = aa * 65536;
    let q: u128 = num / bb;
    proof {
        assert(fx_abs(a as int * (FX_ONE as int)) == aa * 65536) by (nonlinear_arith)
            requires
                aa == fx_abs(a as int),
        ;
        if b > 0 {
            lemma_tdiv_shrinks(a as int * (FX_ONE as int), b as int);
            if a < 0 {
                assert(fx_tdiv(a as int * (FX_ONE as int), b as int) == -(q as int));
            } else {
                assert(fx_tdiv(a as int * (FX_ONE as int), b as int) == q as int);
            }
        } else {
            lemma_tdiv_shrinks(a as int * (FX_ONE as int), -(b as int));
            if a < 0 {
                assert(fx_tdiv(a as int * (FX_ONE as int), -(b as int)) == -(q as int));
            } else {
                assert(fx_tdiv(a as int * (FX_ONE as int), -(b as int)) == q as int);
            }
        }
    }
    if neg {
        if q > 0x7fff_ffff_ffff_ffffu128 {
            -FX_MAX
        } else {
            -(q as i64)
        }
    } else {
        if q > 0x7fff_ffff_ffff_ffffu128 {
            FX_MAX
        } else {
            q as i64
        }
    }
}

/// Fixed-point square root of a non-negative scalar, by bisection.
pub fn fx_sqrt(a: i64) -> (r: i64)
    requires
        a >= 0,
    ensures
        r >= 0,
        r == fx_sqrt_s(a as int),
        is_sqrt(a as int * (FX_ONE as int), r as int),
{
    let n: u128 = (a as u128) * 65536;
    let mut lo: u128 = 0;
    let mut hi: u128 = 0x1_0000_0000_0000;
    assert(n < hi * hi) by (nonlinear_arith)
        requires
            n <= 0x7fff_ffff_ffff_ffffu128 * 65536,
            hi == 0x1_0000_0000_0000u128,
    ;
    while lo + 1 < hi
        invariant
            lo < hi <= 0x1_0000_0000_0000u128,
            lo * lo <= n,
            n < hi * hi,
        decreases hi - lo,
    {
        let mid: u128 = lo + (hi - lo) / 2;
        assert(mid * mid <= 0x1_0000_0000_0000_0000_0000_0000u128) by (nonlinear_arith)
            requires
                mid <= 0x1_0000_0000_0000u128,
        ;
        if mid * mid <= n {
            lo = mid;
        } else {
            hi = mid;
        }
    }
    proof {
        assert(is_sqrt(n as int, lo as int));
        lemma_sqrt_unique(n as int, lo as int);
    }
    lo as i64
}

} // verus!
