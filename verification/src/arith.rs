use vstd::prelude::*;
use vstd::arithmetic::div_mod::lemma_fundamental_div_mod;
use vstd::arithmetic::div_mod::lemma_mod_bound;
use crate::error::ExecutionError;

verus! {

/// The distance of `v` from zero.
pub open spec fn magnitude(v: int) -> int {
    if v < 0 {
        -v
    } else {
        v
    }
}

/// `b` divided by `a`, rounded towards zero.
pub open spec fn quotient(b: int, a: int) -> int {
    let q = magnitude(b) / magnitude(a);
    if (b < 0) != (a < 0) {
        -q
    } else {
        q
    }
}

/// What is left of `b` after the division by `a` that rounds towards zero.
/// It has the sign of `b`.
pub open spec fn remainder(b: int, a: int) -> int {
    let r = magnitude(b) % magnitude(a);
    if b < 0 {
        -r
    } else {
        r
    }
}

/// Whether a value of the stack can hold `v`.
pub open spec fn fits(v: int) -> bool {
    i32::MIN <= v <= i32::MAX
}

/// `v` as a value of the stack, or the error where it does not fit.
pub open spec fn fitted(v: int) -> Result<i32, ExecutionError> {
    if fits(v) {
        Ok(v as i32)
    } else {
        Err(ExecutionError::Overflow)
    }
}

/// What `/` makes of `b` and `a`.
pub open spec fn divided(b: int, a: int) -> Result<i32, ExecutionError> {
    if a == 0 {
        Err(ExecutionError::DivisionByZero)
    } else {
        fitted(quotient(b, a))
    }
}

/// What `%` makes of `b` and `a`.
pub open spec fn reduced(b: int, a: int) -> Result<i32, ExecutionError> {
    if a == 0 {
        Err(ExecutionError::DivisionByZero)
    } else {
        fitted(remainder(b, a))
    }
}

/// The byte that a write to the canvas keeps of `v`: its lowest eight bits.
pub open spec fn low_byte(v: int) -> u8 {
    (v % 256) as u8
}

/// `b + a`, where it fits.
pub fn checked_sum(b: i32, a: i32) -> (r: Result<i32, ExecutionError>)
    ensures
        r == fitted(b + a),
{
    match b.checked_add(a) {
        Some(v) => Ok(v),
        None => Err(ExecutionError::Overflow),
    }
}

/// `b - a`, where it fits.
pub fn checked_difference(b: i32, a: i32) -> (r: Result<i32, ExecutionError>)
    ensures
        r == fitted(b - a),
{
    match b.checked_sub(a) {
        Some(v) => Ok(v),
        None => Err(ExecutionError::Overflow),
    }
}

/// `b * a`, where it fits.
pub fn checked_product(b: i32, a: i32) -> (r: Result<i32, ExecutionError>)
    ensures
        r == fitted(b * a),
{
    match b.checked_mul(a) {
        Some(v) => Ok(v),
        None => Err(ExecutionError::Overflow),
    }
}

/// `b / a` rounded towards zero, where `a` is not zero and the result fits.
pub fn checked_quotient(b: i32, a: i32) -> (r: Result<i32, ExecutionError>)
    ensures
        r == divided(b as int, a as int),
{
    if a == 0 {
        return Err(ExecutionError::DivisionByZero);
    }
    match b.checked_div(a) {
        Some(v) => Ok(v),
        None => Err(ExecutionError::Overflow),
    }
}

/// What is left of `b` after the division by `a`, where `a` is not zero.
pub fn checked_remainder(b: i32, a: i32) -> (r: Result<i32, ExecutionError>)
    ensures
        r == reduced(b as int, a as int),
        a != 0 ==> r is Ok,
{
    if a == 0 {
        return Err(ExecutionError::DivisionByZero);
    }
    proof {
        lemma_division(b as int, a as int);
    }
    if a == -1 {
        return Ok(0);
    }
    match b.checked_rem(a) {
        Some(v) => Ok(v),
        None => Err(ExecutionError::Overflow),
    }
}

/// The lowest eight bits of `v`.
pub fn low_byte_of(v: i32) -> (r: u8)
    ensures
        r == low_byte(v as int),
{
    let m: i32 = v % 256;
    if m < 0 {
        (m + 256) as u8
    } else {
        m as u8
    }
}

/// Quotient and remainder make up the dividend, and the remainder is nearer
/// to zero than the divisor and has the sign of the dividend.
pub proof fn lemma_division(b: int, a: int)
    requires
        a != 0,
    ensures
        b == a * quotient(b, a) + remainder(b, a),
        magnitude(remainder(b, a)) < magnitude(a),
        b >= 0 ==> remainder(b, a) >= 0,
        b <= 0 ==> remainder(b, a) <= 0,
        magnitude(quotient(b, a)) <= magnitude(b),
{
    let x = magnitude(b);
    let d = magnitude(a);
    lemma_fundamental_div_mod(x, d);
    lemma_mod_bound(x, d);
    let q = x / d;
    let r = x % d;
    assert(x == d * q + r);
    assert(0 <= q <= x) by (nonlinear_arith)
        requires
            x == d * q + r,
            0 <= r < d,
            0 <= x,
    ;
    assert(a * quotient(b, a) == (if b < 0 { -(d * q) } else { d * q })) by (nonlinear_arith)
        requires
            d == magnitude(a),
            q == magnitude(b) / magnitude(a),
            a != 0,
    ;
}

} // verus!
