//! Values on the calculator stack.
use vstd::prelude::*;
use crate::bigint::{BigInt, int_from_i64};

verus! {

/// A binary floating-point number `significand * 2^exponent`, with the
/// number of significant bits its arithmetic keeps (`precision`, 0 for
/// unlimited); it has the layout of a `dashu` `FBig`.
#[derive(Debug, PartialEq, Eq)]
pub struct BigFloat {
    pub significand: BigInt,
    pub exponent: isize,
    pub precision: usize,
}

/// A stack entry: an exact integer or a binary floating-point number.
#[derive(Debug, PartialEq, Eq)]
pub enum CalcValue {
    Integer(BigInt),
    Float(BigFloat),
}

/// The mathematical content of a [`CalcValue`].
pub enum Num {
    Int(int),
    Float { significand: int, exponent: int, precision: nat },
}

impl View for BigFloat {
    type V = Num;

    open spec fn view(&self) -> Num {
        Num::Float {
            significand: self.significand@,
            exponent: self.exponent as int,
            precision: self.precision as nat,
        }
    }
}

impl View for CalcValue {
    type V = Num;

    open spec fn view(&self) -> Num {
        match self {
            CalcValue::Integer(x) => Num::Int(x@),
            CalcValue::Float(f) => f@,
        }
    }
}

impl CalcValue {
    pub open spec fn wf(&self) -> bool {
        match self {
            CalcValue::Integer(x) => x.wf(),
            CalcValue::Float(f) => f.significand.wf(),
        }
    }

    /// An integer value.
    pub fn from_i64(n: i64) -> (r: CalcValue)
        ensures
            r.wf(),
            r@ == Num::Int(n as int),
    {
        CalcValue::Integer(int_from_i64(n))
    }

    /// Whether the value is in canonical form.
    pub fn is_well_formed(&self) -> (r: bool)
        ensures
            r == self.wf(),
    {
        match self {
            CalcValue::Integer(x) => x.is_canonical(),
            CalcValue::Float(f) => f.significand.is_canonical(),
        }
    }
}

impl Clone for BigFloat {
    fn clone(&self) -> (r: Self)
        ensures
            r@ == self@,
            r.significand.wf() == self.significand.wf(),
    {
        BigFloat {
            significand: self.significand.clone(),
            exponent: self.exponent,
            precision: self.precision,
        }
    }
}

impl Clone for CalcValue {
    fn clone(&self) -> (r: Self)
        ensures
            r@ == self@,
            r.wf() == self.wf(),
    {
        match self {
            CalcValue::Integer(x) => CalcValue::Integer(x.clone()),
            CalcValue::Float(f) => CalcValue::Float(f.clone()),
        }
    }
}

} // verus!
