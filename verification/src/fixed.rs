//! Fixed-point arithmetic on `i64` micro-units.
//!
//! A value `v` stands for the real number `v / 1_000_000`. Every operation
//! clamps its result to `[-BOUND, BOUND]`, so all stored values stay far
//! from the `i64` limits and no operation can overflow.

use vstd::prelude::*;

verus! {

use vstd::arithmetic::div_mod::lemma_div_is_ordered;

/// One unit (1.0) in micro-units.
pub const SCALE: i64 = 1_000_000;

/// Every fixed-point value is kept within `[-BOUND, BOUND]` (one million
/// units), the saturation bound of all arithmetic here.
pub const BOUND: i64 = 1_000_000_000_000;

/// A value is in the representable range.
pub open spec fn bounded(x: int) -> bool {
    -(BOUND as int) <= x <= BOUND as int
}

/// Absolute value.
pub open spec fn abs_i(x: int) -> int {
    if x >= 0 {
        x
    } else {
        -x
    }
}

/// Saturate to `[-BOUND, BOUND]`.
pub open spec fn clamp_spec(x: int) -> int {
    if x > BOUND as int {
        BOUND as int
    } else if x < -(BOUND as int) {
        -(BOUND as int)
    } else {
        x
    }
}

/// Division truncating toward zero, for a positive divisor; this is what
/// the executable magnitude-based divisions below compute.
pub open spec fn tdiv(n: int, d: int) -> int {
    if n >= 0 {
        n / d
    } else {
        -((-n) / d)
    }
}

/// Saturating fixed-point addition.
pub open spec fn fp_add_spec(a: int, b: int) -> int {
    clamp_spec(a + b)
}

/// Saturating fixed-point subtraction.
pub open spec fn fp_sub_spec(a: int, b: int) -> int {
    clamp_spec(a - b)
}

/// Saturating fixed-point multiplication: `(a * b) / SCALE`, truncated
/// toward zero.
pub open spec fn fp_mul_spec(a: int, b: int) -> int {
    clamp_spec(tdiv(a * b, SCALE as int))
}

/// Saturating fixed-point division by a positive divisor:
/// `(a * SCALE) / b`, truncated toward zero.
pub open spec fn fp_div_spec(a: int, b: int) -> int {
    clamp_spec(tdiv(a * (SCALE as int), b))
}

pub fn fp_add(a: i64, b: i64) -> (r: i64)
    requires
        bounded(a as int),
        bounded(b as int),
    ensures
        r as int == fp_add_spec(a as int, b as int),
        bounded(r as int),
{
    let s: i64 = a + b;
    if s > BOUND {
        BOUND
    } else if s < -BOUND {
        -BOUND
    } else {
        s
    }
}

pub fn fp_sub(a: i64, b: i64) -> (r: i64)
    requires
        bounded(a as int),
        bounded(b as int),
    ensures
        r as int == fp_sub_spec(a as int, b as int),
        bounded(r as int),
{
    let s: i64 = a - b;
    if s > BOUND {
        BOUND
    } else if s < -BOUND {
        -BOUND
    } else {
        s
    }
}

pub fn fp_mul(a: i64, b: i64) -> (r: i64)
    requires
        bounded(a as int),
        bounded(b as int),
    ensures
        r as int == fp_mul_spec(a as int, b as int),
        bounded(r as int),
{
    let neg: bool = (a < 0) != (b < 0);
    let am: u64 = if a >= 0 {
        a as u64
    } else {
        (-a) as u64
    };
    let bm: u64 = if b >= 0 {
        b as u64
    } else {
        (-b) as u64
    };
    proof {
        assert(am as int == abs_i(a as int));
        assert(bm as int == abs_i(b as int));
        assert(am as int * bm as int == abs_i(a as int * b as int)) by (nonlinear_arith)
            requires
                am as int == abs_i(a as int),
                bm as int == abs_i(b as int),
        ;
        assert(am as int * bm as int <= BOUND as int * BOUND as int) by (nonlinear_arith)
            requires
                0 <= am as int <= BOUND as int,
                0 <= bm as int <= BOUND as int,
        ;
    }
    let p: u128 = ((am as u128) * (bm as u128)) / (SCALE as u128);
    proof {
        lemma_div_is_ordered(
            am as int * bm as int,
            BOUND as int * BOUND as int,
            SCALE as int,
        );
        assert(p as int <= BOUND as int * BOUND as int / (SCALE as int));
    }
    let q: i64 = p as i64;
    let r0: i64 = if neg {
        -q
    } else {
        q
    };
    proof {
        let ab = a as int * b as int;
        if neg {
            assert(ab <= 0) by (nonlinear_arith)
                requires
                    (a < 0) != (b < 0),
                    ab == a as int * b as int,
            ;
            assert(r0 as int == tdiv(ab, SCALE as int));
        } else {
            assert(ab >= 0) by (nonlinear_arith)
                requires
                    (a < 0) == (b < 0),
                    ab == a as int * b as int,
            ;
            assert(r0 as int == tdiv(ab, SCALE as int));
        }
    }
    if r0 > BOUND {
        BOUND
    } else if r0 < -BOUND {
        -BOUND
    } else {
        r0
    }
}

pub fn fp_div(a: i64, b: i64) -> (r: i64)
    requires
        bounded(a as int),
        0 < b <= BOUND,
    ensures
        r as int == fp_div_spec(a as int, b as int),
        bounded(r as int),
{
    let am: u64 = if a >= 0 {
        a as u64
    } else {
        (-a) as u64
    };
    let num: u128 = (am as u128) * (SCALE as u128);
    let p: u128 = num / (b as u128);
    proof {
        assert(am as int == abs_i(a as int));
        assert(am as int * SCALE as int == abs_i(a as int * SCALE as int)) by (nonlinear_arith)
            requires
                am as int == abs_i(a as int),
                SCALE as int > 0,
        ;
        assert(num as int <= BOUND as int * SCALE as int) by (nonlinear_arith)
            requires
                num as int == am as int * SCALE as int,
                0 <= am as int <= BOUND as int,
                SCALE as int > 0,
        ;
        lemma_div_is_ordered(num as int, BOUND as int * SCALE as int, b as int);
        assert(p as int <= BOUND as int * SCALE as int / (b as int));
        lemma_div_is_ordered_by_denominator_wrap(BOUND as int * SCALE as int, 1, b as int);
    }
    let q: i64 = p as i64;
    let r0: i64 = if a < 0 {
        -q
    } else {
        q
    };
    proof {
        let an = a as int * SCALE as int;
        if a < 0 {
            assert(an <= 0) by (nonlinear_arith)
                requires
                    a < 0,
                    an == a as int * SCALE as int,
                    SCALE as int > 0,
            ;
            assert(r0 as int == tdiv(an, b as int));
        } else {
            assert(an >= 0) by (nonlinear_arith)
                requires
                    a >= 0,
                    an == a as int * SCALE as int,
                    SCALE as int > 0,
            ;
            assert(r0 as int == tdiv(an, b as int));
        }
    }
    if r0 > BOUND {
        BOUND
    } else if r0 < -BOUND {
        -BOUND
    } else {
        r0
    }
}

/// Helper: dividing a nonnegative number by a larger positive divisor
/// only shrinks it.
proof fn lemma_div_is_ordered_by_denominator_wrap(x: int, y: int, z: int)
    requires
        0 <= x,
        1 <= y <= z,
    ensures
        x / y >= x / z,
{
    vstd::arithmetic::div_mod::lemma_div_is_ordered_by_denominator(x, y, z);
}

/// Truncating division of a bounded value by a positive count; used for
/// batch means. Never clamps: the magnitude can only shrink.
pub fn div_count(a: i64, n: u64) -> (r: i64)
    requires
        bounded(a as int),
        n > 0,
    ensures
        r as int == tdiv(a as int, n as int),
        bounded(r as int),
        abs_i(r as int) <= abs_i(a as int),
{
    let am: u64 = if a >= 0 {
        a as u64
    } else {
        (-a) as u64
    };
    let p: u64 = am / n;
    proof {
        vstd::arithmetic::div_mod::lemma_div_nonincreasing(am as int, n as int);
        vstd::arithmetic::div_mod::lemma_div_pos_is_pos(am as int, n as int);
    }
    if a < 0 {
        -(p as i64)
    } else {
        p as i64
    }
}

/// A product of nonnegative values has a nonnegative fixed-point product.
pub proof fn lemma_fp_mul_nonneg(a: int, b: int)
    requires
        a >= 0,
        b >= 0,
    ensures
        fp_mul_spec(a, b) >= 0,
{
    assert(a * b >= 0) by (nonlinear_arith)
        requires
            a >= 0,
            b >= 0,
    ;
    vstd::arithmetic::div_mod::lemma_div_pos_is_pos(a * b, SCALE as int);
}

/// A fixed-point square is nonnegative.
pub proof fn lemma_fp_sq_nonneg(a: int)
    ensures
        fp_mul_spec(a, a) >= 0,
{
    assert(a * a >= 0) by (nonlinear_arith);
    vstd::arithmetic::div_mod::lemma_div_pos_is_pos(a * a, SCALE as int);
}

/// Dividing a nonnegative value by a positive one stays nonnegative.
pub proof fn lemma_fp_div_nonneg(a: int, b: int)
    requires
        a >= 0,
        b > 0,
    ensures
        fp_div_spec(a, b) >= 0,
{
    assert(a * (SCALE as int) >= 0) by (nonlinear_arith)
        requires
            a >= 0,
    ;
    vstd::arithmetic::div_mod::lemma_div_pos_is_pos(a * (SCALE as int), b);
}

/// The integer square root: the unique `r >= 0` with
/// `r * r <= n < (r + 1) * (r + 1)`.
pub open spec fn is_isqrt(n: int, r: int) -> bool {
    &&& 0 <= r
    &&& r * r <= n
    &&& n < (r + 1) * (r + 1)
}

/// The integer square root of a nonnegative number, as a value.
pub open spec fn isqrt_spec(n: int) -> int {
    choose|r: int| is_isqrt(n, r)
}

/// Two integer square roots of the same number are equal.
pub proof fn lemma_isqrt_unique(n: int, r1: int, r2: int)
    requires
        is_isqrt(n, r1),
        is_isqrt(n, r2),
    ensures
        r1 == r2,
{
    if r1 < r2 {
        assert((r1 + 1) * (r1 + 1) <= r2 * r2) by (nonlinear_arith)
            requires
                0 <= r1,
                r1 < r2,
        ;
    }
    if r2 < r1 {
        assert((r2 + 1) * (r2 + 1) <= r1 * r1) by (nonlinear_arith)
            requires
                0 <= r2,
                r2 < r1,
        ;
    }
}

/// Every nonnegative number has an integer square root, so the chosen
/// value `isqrt_spec(n)` satisfies its defining property.
pub proof fn lemma_isqrt_exists(n: int)
    requires
        n >= 0,
    ensures
        is_isqrt(n, isqrt_spec(n)),
    decreases n,
{
    if n == 0 {
        assert(is_isqrt(0, 0));
    } else {
        lemma_isqrt_exists(n - 1);
        let r = isqrt_spec(n - 1);
        if n < (r + 1) * (r + 1) {
            assert(is_isqrt(n, r));
        } else {
            assert(n == (r + 1) * (r + 1));
            assert((r + 1) * (r + 1) < (r + 2) * (r + 2)) by (nonlinear_arith)
                requires
                    r >= 0,
            ;
            assert(is_isqrt(n, r + 1));
        }
        assert(exists|w: int| is_isqrt(n, w));
    }
}

/// Binary-search integer square root on `u64`.
pub fn isqrt64(n: u64) -> (r: u64)
    ensures
        is_isqrt(n as int, r as int),
        r as int == isqrt_spec(n as int),
{
    let mut lo: u64 = 0;
    let mut hi: u64 = 4_294_967_296;
    proof {
        assert((n as int) < 4_294_967_296int * 4_294_967_296);
    }
    while lo + 1 < hi
        invariant
            lo < hi,
            hi <= 4_294_967_296,
            lo as int * lo as int <= n as int,
            (n as int) < (hi as int) * (hi as int),
        decreases hi - lo,
    {
        let mid: u64 = lo + (hi - lo) / 2;
        proof {
            assert((mid as int) * (mid as int) <= 4_294_967_296int * 4_294_967_296)
                by (nonlinear_arith)
                requires
                    0 <= mid as int <= 4_294_967_296int,
            ;
        }
        let sq: u128 = (mid as u128) * (mid as u128);
        if sq <= n as u128 {
            lo = mid;
        } else {
            hi = mid;
        }
    }
    proof {
        assert(hi == lo + 1);
        assert(is_isqrt(n as int, lo as int));
        let w = isqrt_spec(n as int);
        assert(is_isqrt(n as int, w));
        lemma_isqrt_unique(n as int, lo as int, w);
    }
    lo
}

/// Fixed-point square root of a nonnegative value: since a stored `v`
/// stands for `v / SCALE`, the stored square root is `isqrt(v * SCALE)`.
pub open spec fn fp_sqrt_spec(x: int) -> int {
    isqrt_spec(x * (SCALE as int))
}

pub fn fp_sqrt(x: i64) -> (r: i64)
    requires
        0 <= x <= BOUND,
    ensures
        r as int == fp_sqrt_spec(x as int),
        0 <= r as int <= BOUND as int,
{
    proof {
        assert(x as int * (SCALE as int) <= BOUND as int * SCALE as int) by (nonlinear_arith)
            requires
                0 <= x as int <= BOUND as int,
                SCALE as int > 0,
        ;
    }
    let n: u64 = (x as u64) * (SCALE as u64);
    let s: u64 = isqrt64(n);
    proof {
        assert(is_isqrt(n as int, s as int));
        assert(n as int <= BOUND as int * SCALE as int) by (nonlinear_arith)
            requires
                n as int == x as int * (SCALE as int),
                0 <= x as int <= BOUND as int,
                SCALE as int > 0,
        ;
        assert(s as int <= BOUND as int) by (nonlinear_arith)
            requires
                s as int * s as int <= n as int,
                n as int <= BOUND as int * SCALE as int,
                0 <= s as int,
        ;
    }
    s as i64
}

/// Copy `len` values of `v` starting at `start`.
pub(crate) fn copy_slice(v: &Vec<i64>, start: usize, len: usize) -> (r: Vec<i64>)
    requires
        start + len <= v@.len(),
    ensures
        r@ == v@.subrange(start as int, start as int + len as int),
{
    let vlen = v.len();
    let mut r: Vec<i64> = Vec::new();
    let mut i: usize = 0;
    while i < len
        invariant
            i <= len,
            start + len <= vlen,
            vlen == v@.len(),
            r@.len() == i,
            forall|k: int| 0 <= k < i ==> r@[k] == v@[start + k],
        decreases len - i,
    {
        r.push(v[start + i]);
        i = i + 1;
    }
    proof {
        assert(r@ =~= v@.subrange(start as int, start as int + len as int));
    }
    r
}

} // verus!
