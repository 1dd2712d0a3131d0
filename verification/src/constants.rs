//! Mathematical constants, as the doubles nearest to them.
use vstd::prelude::*;
use crate::bigint::int_from_u64;
use crate::value::{BigFloat, CalcValue, Num};

verus! {

/// A float of 53 significant bits, as a 64-bit IEEE double converts to `FBig`.
pub open spec fn double_num(significand: int, exponent: int) -> Num {
    Num::Float { significand, exponent, precision: 53 }
}

/// pi rounded to a double: `0x3243f6a8885a3 * 2^-48`.
pub open spec fn pi_num() -> Num {
    double_num(884279719003555, -48)
}

/// Euler's number rounded to a double: `0x15bf0a8b145769 * 2^-51`.
pub open spec fn euler_num() -> Num {
    double_num(6121026514868073, -51)
}

/// The golden ratio `(1 + sqrt 5) / 2` computed in doubles: `0x33c6ef372fe95 * 2^-49`.
pub open spec fn phi_num() -> Num {
    double_num(910872158600853, -49)
}

/// pi as a float of double precision.
pub fn pi() -> (r: CalcValue)
    ensures
        r.wf(),
        r@ == pi_num(),
{
    CalcValue::Float(
        BigFloat { significand: int_from_u64(884279719003555), exponent: -48, precision: 53 },
    )
}

/// Euler's number as a float of double precision.
pub fn euler() -> (r: CalcValue)
    ensures
        r.wf(),
        r@ == euler_num(),
{
    CalcValue::Float(
        BigFloat { significand: int_from_u64(6121026514868073), exponent: -51, precision: 53 },
    )
}

/// The golden ratio as a float of double precision.
pub fn phi() -> (r: CalcValue)
    ensures
        r.wf(),
        r@ == phi_num(),
{
    CalcValue::Float(
        BigFloat { significand: int_from_u64(910872158600853), exponent: -49, precision: 53 },
    )
}

} // verus!
