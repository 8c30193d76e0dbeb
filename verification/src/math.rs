//! The integer helpers. They work on 64-bit signed integers and report a
//! result outside that domain, or a division by zero, as a fault.

use crate::fault::Fault;
use rand::Rng;
use vstd::prelude::*;

verus! {

/// Whether `v` lies in the integer domain of the helpers.
pub open spec fn in_domain(v: int) -> bool {
    i64::MIN <= v <= i64::MAX
}

/// The magnitude of `v`.
pub open spec fn magnitude(v: int) -> int {
    if v < 0 {
        -v
    } else {
        v
    }
}

/// `a` divided by `b`, rounded toward zero.
pub open spec fn quotient(a: int, b: int) -> int
    recommends
        b != 0,
{
    if (a < 0) == (b < 0) {
        magnitude(a) / magnitude(b)
    } else {
        -(magnitude(a) / magnitude(b))
    }
}

/// What is left of `a` after division by `b`; it has the sign of `a`.
pub open spec fn remainder(a: int, b: int) -> int
    recommends
        b != 0,
{
    if a < 0 {
        -(magnitude(a) % magnitude(b))
    } else {
        magnitude(a) % magnitude(b)
    }
}

/// What an integer operation gives for the exact result `v`: the value when
/// it lies in the domain, and an overflow otherwise.
pub open spec fn within_domain(v: int) -> Result<int, Fault> {
    if in_domain(v) {
        Ok(v)
    } else {
        Err(Fault::Overflow)
    }
}

/// What a division-like operation gives for the divisor `b` and the exact
/// result `v`.
pub open spec fn divided(b: int, v: int) -> Result<int, Fault> {
    if b == 0 {
        Err(Fault::DivisionByZero)
    } else {
        within_domain(v)
    }
}

/// The result of an integer helper as a mathematical value.
pub open spec fn outcome(r: Result<i64, Fault>) -> Result<int, Fault> {
    match r {
        Ok(v) => Ok(v as int),
        Err(f) => Err(f),
    }
}

/// Adds two integers.
pub fn add_int(a: i64, b: i64) -> (r: Result<i64, Fault>)
    ensures
        outcome(r) == within_domain(a + b),
{
    match a.checked_add(b) {
        Some(v) => Ok(v),
        None => Err(Fault::Overflow),
    }
}

/// Subtracts `b` from `a`.
pub fn sub_int(a: i64, b: i64) -> (r: Result<i64, Fault>)
    ensures
        outcome(r) == within_domain(a - b),
{
    match a.checked_sub(b) {
        Some(v) => Ok(v),
        None => Err(Fault::Overflow),
    }
}

/// Multiplies two integers.
pub fn mul_int(a: i64, b: i64) -> (r: Result<i64, Fault>)
    ensures
        outcome(r) == within_domain(a * b),
{
    match a.checked_mul(b) {
        Some(v) => Ok(v),
        None => Err(Fault::Overflow),
    }
}

/// Divides `a` by `b`, rounding toward zero.
pub fn div_int(a: i64, b: i64) -> (r: Result<i64, Fault>)
    ensures
        outcome(r) == divided(b as int, quotient(a as int, b as int)),
{
    match a.checked_div(b) {
        Some(v) => Ok(v),
        None => if b == 0 {
            Err(Fault::DivisionByZero)
        } else {
            Err(Fault::Overflow)
        },
    }
}

/// The remainder of `a` divided by `b`, with the sign of `a`.
pub fn mod_int(a: i64, b: i64) -> (r: Result<i64, Fault>)
    ensures
        outcome(r) == divided(b as int, remainder(a as int, b as int)),
{
    match a.checked_rem(b) {
        Some(v) => Ok(v),
        None => if b == 0 {
            Err(Fault::DivisionByZero)
        } else {
            Ok(0)
        },
    }
}

/// The larger of two integers.
pub fn max_int(a: i64, b: i64) -> (r: i64)
    ensures
        r >= a,
        r >= b,
        r == a || r == b,
{
    if a > b {
        a
    } else {
        b
    }
}

/// The smaller of two integers.
pub fn min_int(a: i64, b: i64) -> (r: i64)
    ensures
        r <= a,
        r <= b,
        r == a || r == b,
{
    if a < b {
        a
    } else {
        b
    }
}

/// Calls `rand::thread_rng` and `Rng::gen`. Nothing is promised of the
/// result: it is drawn at random.
#[verifier::external_body]
pub(crate) fn random_number() -> (r: usize) {
    rand::thread_rng().gen::<usize>()
}

/// Division and remainder take the dividend apart: the quotient times the
/// divisor, plus the remainder, gives it back, and the remainder is smaller
/// in magnitude than the divisor.
pub proof fn division_identity(a: int, b: int)
    requires
        b != 0,
    ensures
        a == b * quotient(a, b) + remainder(a, b),
        magnitude(remainder(a, b)) < magnitude(b),
        remainder(a, b) != 0 ==> (remainder(a, b) < 0) == (a < 0),
{
    let q = magnitude(a) / magnitude(b);
    let m = magnitude(a) % magnitude(b);
    assert(magnitude(a) == magnitude(b) * q + m && 0 <= m < magnitude(b)) by (nonlinear_arith)
        requires
            q == magnitude(a) / magnitude(b),
            m == magnitude(a) % magnitude(b),
            magnitude(b) > 0,
    ;
    assert(b * (-q) == -(b * q)) by (nonlinear_arith);
    assert((-b) * q == -(b * q)) by (nonlinear_arith);
}

} // verus!
