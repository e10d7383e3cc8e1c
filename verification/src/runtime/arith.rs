use vstd::prelude::*;

verus! {

/// The absolute value of an integer.
pub open spec fn abs_int(a: int) -> int {
    if a < 0 { -a } else { a }
}

/// Quotient rounded toward zero, as Rust's `/` computes it on signed integers.
pub open spec fn trunc_div(a: int, b: int) -> int {
    let q = abs_int(a) / abs_int(b);
    if (a < 0) != (b < 0) { -q } else { q }
}

/// Remainder with the sign of the dividend, as Rust's `%` computes it on signed integers.
pub open spec fn trunc_rem(a: int, b: int) -> int {
    let r = abs_int(a) % abs_int(b);
    if a < 0 { -r } else { r }
}

/// `x` clamped to the range of `i64`.
pub open spec fn saturate_i64(x: int) -> int {
    if x > i64::MAX { i64::MAX as int } else if x < i64::MIN { i64::MIN as int } else { x }
}

fn magnitude(a: i64) -> (r: u64)
    ensures
        r == abs_int(a as int),
{
    if a < 0 { (0i128 - a as i128) as u64 } else { a as u64 }
}

/// Rust's signed division and remainder, for the divisors on which they do not panic.
pub fn div_rem_i64(a: i64, b: i64) -> (r: (i64, i64))
    requires
        b != 0,
        !(a == i64::MIN && b == -1),
    ensures
        r.0 == trunc_div(a as int, b as int),
        r.1 == trunc_rem(a as int, b as int),
{
    let ua = magnitude(a);
    let ub = magnitude(b);
    let uq = ua / ub;
    let ur = ua % ub;
    assert(uq <= ua) by (nonlinear_arith)
        requires
            ub >= 1,
            uq == ua / ub,
    ;
    assert(ur < ub) by (nonlinear_arith)
        requires
            ub >= 1,
            ur == ua % ub,
    ;
    let q: i64 = if (a < 0) != (b < 0) {
        (0i128 - uq as i128) as i64
    } else {
        if uq > i64::MAX as u64 {
            assert(ua == 0x8000_0000_0000_0000u64 && ub == 1) by (nonlinear_arith)
                requires
                    uq == ua / ub,
                    ub >= 1,
                    ua <= 0x8000_0000_0000_0000u64,
                    uq > 0x7fff_ffff_ffff_ffffu64,
            ;
            assert(false);
        }
        uq as i64
    };
    let rr: i64 = if a < 0 { (0i128 - ur as i128) as i64 } else { ur as i64 };
    (q, rr)
}

/// `a + b` clamped to the range of `i64`.
pub fn saturating_add_i64(a: i64, b: i64) -> (r: i64)
    ensures
        r == saturate_i64(a + b),
{
    let s: i128 = a as i128 + b as i128;
    if s > i64::MAX as i128 { i64::MAX } else if s < i64::MIN as i128 { i64::MIN } else { s as i64 }
}

/// `a - b` clamped to the range of `i64`.
pub fn saturating_sub_i64(a: i64, b: i64) -> (r: i64)
    ensures
        r == saturate_i64(a - b),
{
    let s: i128 = a as i128 - b as i128;
    if s > i64::MAX as i128 { i64::MAX } else if s < i64::MIN as i128 { i64::MIN } else { s as i64 }
}

/// `a * b` clamped to the range of `i64`.
pub fn saturating_mul_i64(a: i64, b: i64) -> (r: i64)
    ensures
        r == saturate_i64(a * b),
{
    let x: i128 = a as i128;
    let y: i128 = b as i128;
    assert(-0x4000_0000_0000_0000_0000_0000_0000_0000int <= x * y <= 0x4000_0000_0000_0000_0000_0000_0000_0000int) by (nonlinear_arith)
        requires
            -0x8000_0000_0000_0000int <= x <= 0x7fff_ffff_ffff_ffffint,
            -0x8000_0000_0000_0000int <= y <= 0x7fff_ffff_ffff_ffffint,
    ;
    let s: i128 = x * y;
    if s > i64::MAX as i128 { i64::MAX } else if s < i64::MIN as i128 { i64::MIN } else { s as i64 }
}

} // verus!
