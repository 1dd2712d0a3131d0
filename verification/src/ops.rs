//! Calculator operations on the stack.
//!
//! Integer arithmetic, bitwise operations, stack manipulation and the
//! constants are carried out here, and so are sums, differences and
//! products of two binary floats (by `dashu`). The other results that are
//! floating-point numbers go through doubles and are computed outside the
//! engine: `apply_op` then hands back a [`FloatWork`] naming the function
//! and its operands, and `finish_op` commits the value that was computed
//! for it.
use vstd::prelude::*;
use vstd::arithmetic::power::pow;
use vstd::arithmetic::power2::{lemma_pow2_pos, pow2};
use vstd::arithmetic::div_mod::{lemma_fundamental_div_mod, lemma_mod_bound};
use crate::angle::AngleMode;
use crate::bigint::{
    bit_and, bit_or, bit_xor, int_add, int_and, int_div, int_from_u64, int_mul, int_not, int_or,
    int_pow, int_rem, int_shl, int_shr, int_sub, int_to_u32, int_to_u64, int_to_usize, int_xor,
    trunc_div, trunc_rem, BigInt,
};
use crate::constants::{euler, euler_num, phi, phi_num, pi, pi_num};
use crate::error::{CalcError, ErrorModel};
use crate::float::{
    magnitude,
    float_add, float_difference, float_mul, float_product, float_sub, float_sum, num_size,
    size_limit, within_size_limit,
};
use crate::stack::{rotate_model, swap_model, CalcState, StateModel};
use crate::value::{BigFloat, CalcValue, Num};

verus! {

/// All calculator operations. Dispatched via `apply_op`.
#[derive(Debug, Clone, Copy, PartialEq, Eq, Structural)]
pub enum Op {
    // Binary
    Add,
    Sub,
    Mul,
    Div,
    Pow,
    Mod,
    // Unary
    Negate,
    Sqrt,
    Square,
    Reciprocal,
    Abs,
    Factorial,
    // Trig
    Sin,
    Cos,
    Tan,
    Asin,
    Acos,
    Atan,
    // Log/Exp
    Log10,
    Ln,
    Exp,
    Exp10,
    // Bitwise
    And,
    Or,
    Xor,
    Not,
    Shl,
    Shr,
    // Stack
    Swap,
    Dup,
    Drop,
    Rotate,
    Clear,
    // Constants
    PushPi,
    PushE,
    PushPhi,
}

/// Operations that replace the top two values by one result.
pub open spec fn is_binary(op: Op) -> bool {
    match op {
        Op::Add | Op::Sub | Op::Mul | Op::Div | Op::Pow | Op::Mod | Op::And | Op::Or | Op::Xor
        | Op::Shl | Op::Shr => true,
        _ => false,
    }
}

/// Operations that replace the top value by one result.
pub open spec fn is_unary(op: Op) -> bool {
    match op {
        Op::Negate | Op::Sqrt | Op::Square | Op::Reciprocal | Op::Abs | Op::Factorial | Op::Sin
        | Op::Cos | Op::Tan | Op::Asin | Op::Acos | Op::Atan | Op::Log10 | Op::Ln | Op::Exp
        | Op::Exp10 | Op::Not => true,
        _ => false,
    }
}

/// What the engine makes of an operation on given operands.
pub enum Step {
    /// The result value.
    Value(Num),
    /// The operation is refused.
    Fail(ErrorModel),
    /// The result is a floating-point computation done outside the engine.
    Float,
}

pub open spec fn factorial(n: nat) -> nat
    decreases n,
{
    if n == 0 {
        1
    } else {
        n * factorial((n - 1) as nat)
    }
}

/// The result of a binary operation on `a` (second from top) and `b` (top).
pub open spec fn binary_step(op: Op, a: Num, b: Num) -> Step {
    match (a, b) {
        (Num::Int(x), Num::Int(y)) => match op {
            Op::Add => Step::Value(Num::Int(x + y)),
            Op::Sub => Step::Value(Num::Int(x - y)),
            Op::Mul => Step::Value(Num::Int(x * y)),
            Op::Div => if y == 0 {
                Step::Fail(ErrorModel::DivisionByZero)
            } else if trunc_rem(x, y) == 0 {
                Step::Value(Num::Int(trunc_div(x, y)))
            } else {
                Step::Float
            },
            Op::Pow => if 0 <= y <= 1000 {
                Step::Value(Num::Int(pow(x, y as nat)))
            } else {
                Step::Float
            },
            Op::Mod => if y == 0 {
                Step::Fail(ErrorModel::DivisionByZero)
            } else {
                Step::Value(Num::Int(trunc_rem(x, y)))
            },
            Op::And => Step::Value(Num::Int(bit_and(x, y))),
            Op::Or => Step::Value(Num::Int(bit_or(x, y))),
            Op::Xor => Step::Value(Num::Int(bit_xor(x, y))),
            Op::Shl => if 0 <= y <= usize::MAX {
                Step::Value(Num::Int(x * pow2(y as nat)))
            } else {
                Step::Fail(ErrorModel::DomainError("shift amount too large"@))
            },
            Op::Shr => if 0 <= y <= usize::MAX {
                Step::Value(Num::Int(x / (pow2(y as nat) as int)))
            } else {
                Step::Fail(ErrorModel::DomainError("shift amount too large"@))
            },
            _ => Step::Float,
        },
        (Num::Float { .. }, Num::Float { .. }) => match op {
            Op::Add | Op::Sub | Op::Mul => if num_size(a) + num_size(b) <= size_limit() {
                Step::Value(
                    match op {
                        Op::Add => float_sum(a, b),
                        Op::Sub => float_difference(a, b),
                        _ => float_product(a, b),
                    },
                )
            } else {
                Step::Float
            },
            Op::And | Op::Or | Op::Xor | Op::Shl | Op::Shr => Step::Fail(ErrorModel::NotAnInteger),
            _ => Step::Float,
        },
        _ => match op {
            Op::And | Op::Or | Op::Xor | Op::Shl | Op::Shr => Step::Fail(ErrorModel::NotAnInteger),
            _ => Step::Float,
        },
    }
}

/// The result of a unary operation on `a`.
pub open spec fn unary_step(op: Op, a: Num) -> Step {
    match a {
        Num::Int(x) => match op {
            Op::Negate => Step::Value(Num::Int(-x)),
            Op::Square => Step::Value(Num::Int(x * x)),
            Op::Abs => Step::Value(Num::Int(if x < 0 { -x } else { x })),
            Op::Not => Step::Value(Num::Int(-x - 1)),
            Op::Factorial => if x < 0 {
                Step::Fail(ErrorModel::DomainError("factorial requires non-negative integer"@))
            } else if x > 10000 {
                Step::Fail(ErrorModel::DomainError("factorial argument too large"@))
            } else {
                Step::Value(Num::Int(factorial(x as nat) as int))
            },
            Op::Sqrt => if x < 0 {
                Step::Fail(ErrorModel::DomainError("sqrt requires non-negative number"@))
            } else {
                Step::Float
            },
            Op::Reciprocal => if x == 0 {
                Step::Fail(ErrorModel::DivisionByZero)
            } else {
                Step::Float
            },
            Op::Log10 => if x <= 0 {
                Step::Fail(ErrorModel::DomainError("log requires positive number"@))
            } else {
                Step::Float
            },
            Op::Ln => if x <= 0 {
                Step::Fail(ErrorModel::DomainError("ln requires positive number"@))
            } else {
                Step::Float
            },
            _ => Step::Float,
        },
        Num::Float { significand, exponent, precision } => match op {
            Op::Negate => Step::Value(Num::Float { significand: -significand, exponent, precision }),
            Op::Square => if 2 * num_size(a) <= size_limit() {
                Step::Value(float_product(a, a))
            } else {
                Step::Float
            },
            Op::Factorial | Op::Not => Step::Fail(ErrorModel::NotAnInteger),
            _ => Step::Float,
        },
    }
}

/// A floating-point computation the engine hands out, on the operands it
/// read from the stack.
#[derive(Debug)]
pub enum FloatWork {
    Unary { op: Op, operand: CalcValue, angle_mode: AngleMode },
    Binary { op: Op, left: CalcValue, right: CalcValue },
}

/// The mathematical content of a [`FloatWork`].
pub enum WorkModel {
    Unary(Op, Num, AngleMode),
    Binary(Op, Num, Num),
}

impl View for FloatWork {
    type V = WorkModel;

    open spec fn view(&self) -> WorkModel {
        match self {
            FloatWork::Unary { op, operand, angle_mode } => WorkModel::Unary(
                *op,
                operand@,
                *angle_mode,
            ),
            FloatWork::Binary { op, left, right } => WorkModel::Binary(*op, left@, right@),
        }
    }
}

impl FloatWork {
    /// How many stack values the computation replaces.
    pub open spec fn arity(&self) -> nat {
        match self {
            FloatWork::Unary { .. } => 1,
            FloatWork::Binary { .. } => 2,
        }
    }

    pub open spec fn wf(&self) -> bool {
        match self {
            FloatWork::Unary { operand, .. } => operand.wf(),
            FloatWork::Binary { left, right, .. } => left.wf() && right.wf(),
        }
    }
}

/// What `apply_op` does to a state.
pub enum Outcome {
    /// The operation completed, giving this state.
    Done(StateModel),
    /// The operation is refused; the state stays as it was.
    Fail(ErrorModel),
    /// A floating-point computation is needed; the state stays as it was.
    Defer(WorkModel),
}

/// The effect of `op` on the state `s`.
pub open spec fn op_spec(s: StateModel, op: Op) -> Outcome {
    let st = s.stack;
    let n = st.len();
    if is_binary(op) {
        if n < 2 {
            Outcome::Fail(ErrorModel::StackUnderflow)
        } else {
            match binary_step(op, st[n - 2], st[n - 1]) {
                Step::Value(v) => Outcome::Done(s.with_stack(st.take(n - 2).push(v))),
                Step::Fail(e) => Outcome::Fail(e),
                Step::Float => Outcome::Defer(WorkModel::Binary(op, st[n - 2], st[n - 1])),
            }
        }
    } else if is_unary(op) {
        if n < 1 {
            Outcome::Fail(ErrorModel::StackUnderflow)
        } else {
            match unary_step(op, st[n - 1]) {
                Step::Value(v) => Outcome::Done(s.with_stack(st.take(n - 1).push(v))),
                Step::Fail(e) => Outcome::Fail(e),
                Step::Float => Outcome::Defer(WorkModel::Unary(op, st[n - 1], s.angle_mode)),
            }
        }
    } else {
        match op {
            Op::Swap => if n < 2 {
                Outcome::Fail(ErrorModel::StackUnderflow)
            } else {
                Outcome::Done(s.with_stack(swap_model(st)))
            },
            Op::Dup => if n < 1 {
                Outcome::Fail(ErrorModel::StackUnderflow)
            } else {
                Outcome::Done(s.with_stack(st.push(st[n - 1])))
            },
            Op::Drop => if n < 1 {
                Outcome::Fail(ErrorModel::StackUnderflow)
            } else {
                Outcome::Done(s.with_stack(st.drop_last()))
            },
            Op::Rotate => if n < 3 {
                Outcome::Fail(ErrorModel::StackUnderflow)
            } else {
                Outcome::Done(s.with_stack(rotate_model(st)))
            },
            Op::Clear => Outcome::Done(s.with_stack(Seq::empty())),
            Op::PushPi => Outcome::Done(s.with_stack(st.push(pi_num()))),
            Op::PushE => Outcome::Done(s.with_stack(st.push(euler_num()))),
            _ => Outcome::Done(s.with_stack(st.push(phi_num()))),
        }
    }
}

/// What a kernel makes of its operands.
enum Kernel {
    Value(CalcValue),
    Fail(CalcError),
    Float,
}

spec fn kernel_matches(k: Kernel, s: Step) -> bool {
    match (k, s) {
        (Kernel::Value(v), Step::Value(m)) => v.wf() && v@ == m,
        (Kernel::Fail(e), Step::Fail(m)) => e@ == m,
        (Kernel::Float, Step::Float) => true,
        _ => false,
    }
}

/// `n!` for `n <= 10000`.
fn factorial_of(n: u64) -> (r: BigInt)
    requires
        n <= 10000,
    ensures
        r.wf(),
        r@ == factorial(n as nat),
{
    let mut result = int_from_u64(1);
    let mut i: u64 = 2;
    assert(factorial(1) == 1) by {
        reveal_with_fuel(factorial, 2);
    }
    while i <= n
        invariant
            2 <= i,
            i <= n + 1 || i == 2,
            n <= 10000,
            result.wf(),
            result@ == factorial((i - 1) as nat),
        decreases n + 1 - i,
    {
        let factor = int_from_u64(i);
        result = int_mul(&result, &factor);
        assert(factorial(i as nat) == i * factorial((i - 1) as nat));
        i = i + 1;
    }
    result
}

fn integer_binary(op: Op, x: &BigInt, y: &BigInt) -> (r: Kernel)
    requires
        x.wf(),
        y.wf(),
    ensures
        kernel_matches(r, binary_step(op, Num::Int(x@), Num::Int(y@))),
{
    match op {
        Op::Add => Kernel::Value(CalcValue::Integer(int_add(x, y))),
        Op::Sub => Kernel::Value(CalcValue::Integer(int_sub(x, y))),
        Op::Mul => Kernel::Value(CalcValue::Integer(int_mul(x, y))),
        Op::Div => {
            if y.is_zero() {
                return Kernel::Fail(CalcError::DivisionByZero);
            }
            let rem = int_rem(x, y);
            if rem.is_zero() {
                Kernel::Value(CalcValue::Integer(int_div(x, y)))
            } else {
                Kernel::Float
            }
        },
        Op::Pow => match int_to_u32(y) {
            Some(e) => {
                if e <= 1000 {
                    Kernel::Value(CalcValue::Integer(int_pow(x, e as usize)))
                } else {
                    Kernel::Float
                }
            },
            None => Kernel::Float,
        },
        Op::Mod => {
            if y.is_zero() {
                return Kernel::Fail(CalcError::DivisionByZero);
            }
            Kernel::Value(CalcValue::Integer(int_rem(x, y)))
        },
        Op::And => Kernel::Value(CalcValue::Integer(int_and(x, y))),
        Op::Or => Kernel::Value(CalcValue::Integer(int_or(x, y))),
        Op::Xor => Kernel::Value(CalcValue::Integer(int_xor(x, y))),
        Op::Shl => match int_to_usize(y) {
            Some(s) => Kernel::Value(CalcValue::Integer(int_shl(x, s))),
            None => Kernel::Fail(CalcError::domain("shift amount too large")),
        },
        Op::Shr => match int_to_usize(y) {
            Some(s) => Kernel::Value(CalcValue::Integer(int_shr(x, s))),
            None => Kernel::Fail(CalcError::domain("shift amount too large")),
        },
        _ => Kernel::Float,
    }
}

fn binary_kernel(op: Op, a: &CalcValue, b: &CalcValue) -> (r: Kernel)
    requires
        a.wf(),
        b.wf(),
    ensures
        kernel_matches(r, binary_step(op, a@, b@)),
{
    match (a, b) {
        (CalcValue::Integer(x), CalcValue::Integer(y)) => integer_binary(op, x, y),
        (CalcValue::Float(x), CalcValue::Float(y)) => match op {
            Op::Add | Op::Sub | Op::Mul => {
                if within_size_limit(x, y) {
                    let r = match op {
                        Op::Add => float_add(x, y),
                        Op::Sub => float_sub(x, y),
                        _ => float_mul(x, y),
                    };
                    Kernel::Value(CalcValue::Float(r))
                } else {
                    Kernel::Float
                }
            },
            Op::And | Op::Or | Op::Xor | Op::Shl | Op::Shr => Kernel::Fail(CalcError::NotAnInteger),
            _ => Kernel::Float,
        },
        _ => match op {
            Op::And | Op::Or | Op::Xor | Op::Shl | Op::Shr => Kernel::Fail(CalcError::NotAnInteger),
            _ => Kernel::Float,
        },
    }
}

fn integer_unary(op: Op, x: &BigInt) -> (r: Kernel)
    requires
        x.wf(),
    ensures
        kernel_matches(r, unary_step(op, Num::Int(x@))),
{
    match op {
        Op::Negate => Kernel::Value(CalcValue::Integer(x.neg())),
        Op::Square => Kernel::Value(CalcValue::Integer(int_mul(x, x))),
        Op::Abs => Kernel::Value(CalcValue::Integer(x.abs())),
        Op::Not => Kernel::Value(CalcValue::Integer(int_not(x))),
        Op::Factorial => {
            if x.is_negative() {
                return Kernel::Fail(CalcError::domain("factorial requires non-negative integer"));
            }
            match int_to_u64(x) {
                Some(n) => {
                    if n > 10000 {
                        Kernel::Fail(CalcError::domain("factorial argument too large"))
                    } else {
                        Kernel::Value(CalcValue::Integer(factorial_of(n)))
                    }
                },
                None => Kernel::Fail(CalcError::domain("factorial argument too large")),
            }
        },
        Op::Sqrt => {
            if x.is_negative() {
                Kernel::Fail(CalcError::domain("sqrt requires non-negative number"))
            } else {
                Kernel::Float
            }
        },
        Op::Reciprocal => {
            if x.is_zero() {
                Kernel::Fail(CalcError::DivisionByZero)
            } else {
                Kernel::Float
            }
        },
        Op::Log10 => {
            if x.is_negative() || x.is_zero() {
                Kernel::Fail(CalcError::domain("log requires positive number"))
            } else {
                Kernel::Float
            }
        },
        Op::Ln => {
            if x.is_negative() || x.is_zero() {
                Kernel::Fail(CalcError::domain("ln requires positive number"))
            } else {
                Kernel::Float
            }
        },
        _ => Kernel::Float,
    }
}

fn unary_kernel(op: Op, a: &CalcValue) -> (r: Kernel)
    requires
        a.wf(),
    ensures
        kernel_matches(r, unary_step(op, a@)),
{
    match a {
        CalcValue::Integer(x) => integer_unary(op, x),
        CalcValue::Float(f) => match op {
            Op::Negate => Kernel::Value(
                CalcValue::Float(
                    BigFloat {
                        significand: f.significand.neg(),
                        exponent: f.exponent,
                        precision: f.precision,
                    },
                ),
            ),
            Op::Square => {
                if within_size_limit(f, f) {
                    Kernel::Value(CalcValue::Float(float_mul(f, f)))
                } else {
                    Kernel::Float
                }
            },
            Op::Factorial | Op::Not => Kernel::Fail(CalcError::NotAnInteger),
            _ => Kernel::Float,
        },
    }
}

/// Whether the result and final state of `apply_op` are those `o` describes.
pub open spec fn result_matches(
    o: Outcome,
    r: Result<Option<FloatWork>, CalcError>,
    before: StateModel,
    after: StateModel,
) -> bool {
    match (o, r) {
        (Outcome::Done(s), Ok(None)) => after == s,
        (Outcome::Fail(e), Err(err)) => err@ == e && after == before,
        (Outcome::Defer(w), Ok(Some(work))) => work@ == w && work.wf() && after == before,
        _ => false,
    }
}

/// Reads the top two values, computes, then changes the stack only on success.
fn binary_op(state: &mut CalcState, op: Op) -> (r: Result<Option<FloatWork>, CalcError>)
    requires
        old(state).wf(),
        is_binary(op),
    ensures
        final(state).wf(),
        result_matches(op_spec(old(state)@, op), r, old(state)@, final(state)@),
{
    let n = state.stack.len();
    if n < 2 {
        return Err(CalcError::StackUnderflow);
    }
    proof {
        assert(state.stack@[n - 2].wf());
        assert(state.stack@[n - 1].wf());
        assert(state@.stack[n - 2] == state.stack@[n - 2]@);
        assert(state@.stack[n - 1] == state.stack@[n - 1]@);
    }
    let k = binary_kernel(op, &state.stack[n - 2], &state.stack[n - 1]);
    match k {
        Kernel::Value(v) => {
            let ghost before = state@;
            let _ = state.pop();
            let _ = state.pop();
            state.push(v);
            proof {
                assert(before.stack.drop_last().drop_last() =~= before.stack.take(n - 2));
            }
            Ok(None)
        },
        Kernel::Fail(e) => Err(e),
        Kernel::Float => {
            let left = state.stack[n - 2].clone();
            let right = state.stack[n - 1].clone();
            Ok(Some(FloatWork::Binary { op, left, right }))
        },
    }
}

/// Reads the top value, computes, then changes the stack only on success.
fn unary_op(state: &mut CalcState, op: Op) -> (r: Result<Option<FloatWork>, CalcError>)
    requires
        old(state).wf(),
        is_unary(op),
    ensures
        final(state).wf(),
        result_matches(op_spec(old(state)@, op), r, old(state)@, final(state)@),
{
    let n = state.stack.len();
    if n < 1 {
        return Err(CalcError::StackUnderflow);
    }
    proof {
        assert(state.stack@[n - 1].wf());
        assert(state@.stack[n - 1] == state.stack@[n - 1]@);
    }
    let k = unary_kernel(op, &state.stack[n - 1]);
    match k {
        Kernel::Value(v) => {
            let ghost before = state@;
            let _ = state.pop();
            state.push(v);
            proof {
                assert(before.stack.drop_last() =~= before.stack.take(n - 1));
            }
            Ok(None)
        },
        Kernel::Fail(e) => Err(e),
        Kernel::Float => {
            let operand = state.stack[n - 1].clone();
            Ok(Some(FloatWork::Unary { op, operand, angle_mode: state.angle_mode }))
        },
    }
}

/// Applies `op` to the state.
///
/// On `Ok(None)` the operation is complete. On `Ok(Some(work))` the result is
/// a floating-point computation on the operands in `work`; the state is
/// unchanged until `finish_op` commits its result. On `Err` the state is
/// unchanged.
pub fn apply_op(state: &mut CalcState, op: Op) -> (r: Result<Option<FloatWork>, CalcError>)
    requires
        old(state).wf(),
    ensures
        final(state).wf(),
        result_matches(op_spec(old(state)@, op), r, old(state)@, final(state)@),
        r is Err ==> final(state)@ == old(state)@,
{
    match op {
        Op::Add | Op::Sub | Op::Mul | Op::Div | Op::Pow | Op::Mod | Op::And | Op::Or | Op::Xor
        | Op::Shl | Op::Shr => binary_op(state, op),
        Op::Negate | Op::Sqrt | Op::Square | Op::Reciprocal | Op::Abs | Op::Factorial | Op::Sin
        | Op::Cos | Op::Tan | Op::Asin | Op::Acos | Op::Atan | Op::Log10 | Op::Ln | Op::Exp
        | Op::Exp10 | Op::Not => unary_op(state, op),
        Op::Swap => match state.swap() {
            Ok(()) => Ok(None),
            Err(e) => Err(e),
        },
        Op::Dup => match state.dup() {
            Ok(()) => Ok(None),
            Err(e) => Err(e),
        },
        Op::Drop => match state.drop() {
            Ok(()) => Ok(None),
            Err(e) => Err(e),
        },
        Op::Rotate => match state.rotate() {
            Ok(()) => Ok(None),
            Err(e) => Err(e),
        },
        Op::Clear => {
            state.clear();
            Ok(None)
        },
        Op::PushPi => {
            state.push(pi());
            Ok(None)
        },
        Op::PushE => {
            state.push(euler());
            Ok(None)
        },
        Op::PushPhi => {
            state.push(phi());
            Ok(None)
        },
    }
}

/// Commits the outcome of a floating-point computation handed out by
/// `apply_op`: on `Ok(v)` the operands of `work` are replaced by `v`; on
/// `Err` the state is unchanged and the error is returned.
pub fn finish_op(state: &mut CalcState, work: &FloatWork, outcome: Result<CalcValue, CalcError>) -> (r:
    Result<(), CalcError>)
    requires
        old(state).wf(),
        old(state)@.stack.len() >= work.arity(),
        outcome matches Ok(v) ==> v.wf(),
    ensures
        final(state).wf(),
        match outcome {
            Ok(v) => r is Ok && final(state)@ == old(state)@.with_stack(
                old(state)@.stack.take(old(state)@.stack.len() - work.arity()).push(v@),
            ),
            Err(e) => r matches Err(err) && err@ == e@ && final(state)@ == old(state)@,
        },
{
    match outcome {
        Ok(v) => {
            let ghost before = state@;
            let _ = state.pop();
            match work {
                FloatWork::Binary { .. } => {
                    let _ = state.pop();
                    proof {
                        assert(before.stack.drop_last().drop_last() =~= before.stack.take(
                            before.stack.len() - 2,
                        ));
                    }
                },
                FloatWork::Unary { .. } => {
                    proof {
                        assert(before.stack.drop_last() =~= before.stack.take(
                            before.stack.len() - 1,
                        ));
                    }
                },
            }
            state.push(v);
            Ok(())
        },
        Err(e) => Err(e),
    }
}

/// Abs on an integer leaves its absolute value: a result that is not
/// negative and is the integer or its negation.
pub proof fn law_abs_integer(s: StateModel, x: int)
    requires
        s.stack.len() >= 1,
        s.stack.last() == Num::Int(x),
    ensures
        op_spec(s, Op::Abs) is Done,
        op_spec(s, Op::Abs) matches Outcome::Done(t) ==> {
            &&& t.stack.len() == s.stack.len()
            &&& t.stack.drop_last() == s.stack.drop_last()
            &&& t.stack.last() is Int
            &&& t.stack.last()->Int_0 >= 0
            &&& (t.stack.last()->Int_0 == x || t.stack.last()->Int_0 == -x)
        },
{
    let n = s.stack.len();
    if let Outcome::Done(t) = op_spec(s, Op::Abs) {
        assert(t.stack.drop_last() =~= s.stack.drop_last());
    }
}

/// Shifting an integer left by `y` bits keeps its sign and is undone by
/// shifting right by `y` bits.
pub proof fn law_shift_left_integer(s: StateModel, x: int, y: int)
    requires
        s.stack.len() >= 2,
        s.stack[s.stack.len() - 2] == Num::Int(x),
        s.stack.last() == Num::Int(y),
        0 <= y <= usize::MAX,
    ensures
        op_spec(s, Op::Shl) is Done,
        op_spec(s, Op::Shl) matches Outcome::Done(t) ==> {
            &&& t.stack.len() == s.stack.len() - 1
            &&& t.stack.drop_last() == s.stack.take(s.stack.len() - 2)
            &&& t.stack.last() is Int
            &&& (t.stack.last()->Int_0 < 0) == (x < 0)
            &&& (t.stack.last()->Int_0 == 0) == (x == 0)
            &&& op_spec(t.with_stack(t.stack.push(Num::Int(y))), Op::Shr) == Outcome::Done(
                s.with_stack(s.stack.take(s.stack.len() - 2).push(Num::Int(x))),
            )
        },
{
    let n = s.stack.len();
    let p: int = pow2(y as nat) as int;
    lemma_pow2_pos(y as nat);
    let r = x * p;
    assert((r < 0) == (x < 0) && (r == 0) == (x == 0)) by (nonlinear_arith)
        requires
            r == x * p,
            p > 0,
    ;
    assert(r / p == x) by (nonlinear_arith)
        requires
            r == x * p,
            p > 0,
    ;
    let t = s.with_stack(s.stack.take(n - 2).push(Num::Int(r)));
    assert(t.stack.drop_last() =~= s.stack.take(n - 2));
    let u = t.with_stack(t.stack.push(Num::Int(y)));
    assert(u.stack.take(u.stack.len() - 2) =~= s.stack.take(n - 2));
}

/// A binary operation is refused with `StackUnderflow` exactly when fewer
/// than two values are on the stack. Otherwise it is decided by the second
/// value and the top value alone, in that order: a result replaces the two,
/// a refusal or a handed-out computation leaves the state as it is.
pub proof fn law_binary_op_reads_top_two(s: StateModel, op: Op)
    requires
        is_binary(op),
    ensures
        (op_spec(s, op) == Outcome::Fail(ErrorModel::StackUnderflow)) == (s.stack.len() < 2),
        s.stack.len() >= 2 ==> {
            let n = s.stack.len();
            let a = s.stack[n - 2];
            let b = s.stack[n - 1];
            op_spec(s, op) == match binary_step(op, a, b) {
                Step::Value(v) => Outcome::Done(s.with_stack(s.stack.take(n - 2).push(v))),
                Step::Fail(e) => Outcome::Fail(e),
                Step::Float => Outcome::Defer(WorkModel::Binary(op, a, b)),
            }
        },
{
    let n = s.stack.len();
    if n >= 2 {
        let step = binary_step(op, s.stack[n - 2], s.stack[n - 1]);
        assert(!(step matches Step::Fail(ErrorModel::StackUnderflow)));
    }
}

/// A unary operation is refused with `StackUnderflow` exactly when the
/// stack is empty. Otherwise it is decided by the top value alone (and the
/// angle mode, for work handed out): a result replaces it, a refusal or a
/// handed-out computation leaves the state as it is.
pub proof fn law_unary_op_reads_top(s: StateModel, op: Op)
    requires
        is_unary(op),
    ensures
        (op_spec(s, op) == Outcome::Fail(ErrorModel::StackUnderflow)) == (s.stack.len() == 0),
        s.stack.len() >= 1 ==> {
            let n = s.stack.len();
            let a = s.stack[n - 1];
            op_spec(s, op) == match unary_step(op, a) {
                Step::Value(v) => Outcome::Done(s.with_stack(s.stack.take(n - 1).push(v))),
                Step::Fail(e) => Outcome::Fail(e),
                Step::Float => Outcome::Defer(WorkModel::Unary(op, a, s.angle_mode)),
            }
        },
{
    let n = s.stack.len();
    if n >= 1 {
        let step = unary_step(op, s.stack[n - 1]);
        assert(!(step matches Step::Fail(ErrorModel::StackUnderflow)));
    }
}

/// An operation that completes changes only the top of the stack: a binary
/// operation replaces the top two values by its result, a unary operation
/// the top value; registers and modes are kept by every operation.
pub proof fn law_completed_op_touches_top(s: StateModel, op: Op)
    ensures
        op_spec(s, op) matches Outcome::Done(t) ==> {
            &&& t.registers == s.registers
            &&& t.angle_mode == s.angle_mode
            &&& t.base == s.base
            &&& t.hex_style == s.hex_style
            &&& is_binary(op) ==> t.stack.len() == s.stack.len() - 1 && t.stack.take(
                s.stack.len() - 2,
            ) == s.stack.take(s.stack.len() - 2)
            &&& is_unary(op) ==> t.stack.len() == s.stack.len() && t.stack.take(s.stack.len() - 1)
                == s.stack.take(s.stack.len() - 1)
        },
{
    if let Outcome::Done(t) = op_spec(s, op) {
        let n = s.stack.len();
        if is_binary(op) {
            assert(t.stack.take(n - 2) =~= s.stack.take(n - 2));
        }
        if is_unary(op) {
            assert(t.stack.take(n - 1) =~= s.stack.take(n - 1));
        }
    }
}

/// A refused or deferred operation leaves the state as it was.
pub proof fn law_refusal_is_atomic(
    s: StateModel,
    op: Op,
    r: Result<Option<FloatWork>, CalcError>,
    after: StateModel,
)
    requires
        result_matches(op_spec(s, op), r, s, after),
        !(r matches Ok(None)),
    ensures
        after == s,
{
}

/// Negating twice gives back the value.
pub proof fn law_negate_involution(a: Num)
    ensures
        unary_step(Op::Negate, a) matches Step::Value(b) && unary_step(Op::Negate, b)
            == Step::Value(a),
{
}

/// Integer division that stays an integer is exact: the quotient times the
/// divisor is the dividend.
pub proof fn law_exact_division(x: int, y: int)
    requires
        binary_step(Op::Div, Num::Int(x), Num::Int(y)) matches Step::Value(Num::Int(_)),
    ensures
        binary_step(Op::Div, Num::Int(x), Num::Int(y)) matches Step::Value(Num::Int(q)) && q * y
            == x,
{
    let ax = if x < 0 { -x } else { x };
    let ay = if y < 0 { -y } else { y };
    lemma_fundamental_div_mod(ax, ay);
    let q = ax / ay;
    assert(ax == ay * q);
    assert(trunc_div(x, y) * y == x) by (nonlinear_arith)
        requires
            ax == ay * q,
            ax == (if x < 0 { -x } else { x }),
            ay == (if y < 0 { -y } else { y }),
            trunc_div(x, y) == (if (x < 0) != (y < 0) { -q } else { q }),
    ;
}

/// Integer sums and products do not depend on the order of the operands,
/// subtraction undoes addition, squaring is multiplying by itself, and
/// negation and the bitwise complement are undone by themselves.
pub proof fn law_integer_ring(x: int, y: int)
    ensures
        binary_step(Op::Add, Num::Int(x), Num::Int(y)) == binary_step(Op::Add, Num::Int(y), Num::Int(x)),
        binary_step(Op::Mul, Num::Int(x), Num::Int(y)) == binary_step(Op::Mul, Num::Int(y), Num::Int(x)),
        binary_step(Op::Add, Num::Int(x), Num::Int(y)) matches Step::Value(Num::Int(r)) && binary_step(
            Op::Sub,
            Num::Int(r),
            Num::Int(y),
        ) == Step::Value(Num::Int(x)),
        binary_step(Op::Add, Num::Int(x), Num::Int(0)) == Step::Value(Num::Int(x)),
        binary_step(Op::Mul, Num::Int(x), Num::Int(1)) == Step::Value(Num::Int(x)),
        unary_step(Op::Square, Num::Int(x)) == binary_step(Op::Mul, Num::Int(x), Num::Int(x)),
        unary_step(Op::Negate, Num::Int(x)) matches Step::Value(Num::Int(r)) && unary_step(
            Op::Negate,
            Num::Int(r),
        ) == Step::Value(Num::Int(x)) && r + x == 0,
        unary_step(Op::Not, Num::Int(x)) matches Step::Value(Num::Int(r)) && unary_step(
            Op::Not,
            Num::Int(r),
        ) == Step::Value(Num::Int(x)) && (r < 0) == (x >= 0),
{
    assert(x * y == y * x) by (nonlinear_arith);
}

/// The integer remainder is smaller than the divisor in size and has the
/// sign of the dividend; the dividend is a whole number of divisors plus
/// the remainder, and division stays exact precisely when the remainder is
/// zero (otherwise it is handed out).
pub proof fn law_integer_remainder(x: int, y: int)
    requires
        y != 0,
    ensures
        binary_step(Op::Mod, Num::Int(x), Num::Int(y)) matches Step::Value(Num::Int(m)) && magnitude(
            m,
        ) < magnitude(y) && (m != 0 ==> (m < 0) == (x < 0)) && x == trunc_div(x, y) * y + m
            && (m == 0 <==> binary_step(Op::Div, Num::Int(x), Num::Int(y)) is Value) && (m != 0
            <==> binary_step(Op::Div, Num::Int(x), Num::Int(y)) is Float),
        binary_step(Op::Mod, Num::Int(x), Num::Int(0)) == Step::Fail(ErrorModel::DivisionByZero),
        binary_step(Op::Div, Num::Int(x), Num::Int(0)) == Step::Fail(ErrorModel::DivisionByZero),
{
    let ax = if x < 0 { -x } else { x };
    let ay = if y < 0 { -y } else { y };
    lemma_fundamental_div_mod(ax, ay);
    lemma_mod_bound(ax, ay);
    let q = ax / ay;
    let r = ax % ay;
    let m = trunc_rem(x, y);
    let k = trunc_div(x, y);
    assert(x == k * y + m) by (nonlinear_arith)
        requires
            ax == ay * q + r,
            ax == (if x < 0 { -x } else { x }),
            ay == (if y < 0 { -y } else { y }),
            k == (if (x < 0) != (y < 0) { -q } else { q }),
            m == (if x < 0 { -r } else { r }),
    ;
}

/// Integer powers multiply by the base once per step of the exponent, up
/// to the largest exponent computed exactly.
pub proof fn law_integer_power(x: int, y: int)
    requires
        0 <= y < 1000,
    ensures
        binary_step(Op::Pow, Num::Int(x), Num::Int(0)) == Step::Value(Num::Int(1)),
        binary_step(Op::Pow, Num::Int(x), Num::Int(y)) matches Step::Value(Num::Int(p))
            && binary_step(Op::Pow, Num::Int(x), Num::Int(y + 1)) == Step::Value(Num::Int(x * p)),
{
    reveal(pow);
    assert(pow(x, (y + 1) as nat) == x * pow(x, y as nat));
}

/// Factorials: `0! = 1`, `(n+1)! = (n+1) n!` within the computed range, and
/// negative integers are refused.
pub proof fn law_integer_factorial(n: int)
    ensures
        unary_step(Op::Factorial, Num::Int(0)) == Step::Value(Num::Int(1)),
        0 <= n < 10000 ==> (unary_step(Op::Factorial, Num::Int(n)) matches Step::Value(Num::Int(f))
            && unary_step(Op::Factorial, Num::Int(n + 1)) == Step::Value(Num::Int((n + 1) * f))),
        n < 0 ==> unary_step(Op::Factorial, Num::Int(n)) is Fail,
{
    assert(factorial(0) == 1);
    if 0 <= n < 10000 {
        assert(factorial((n + 1) as nat) == (n + 1) * factorial(n as nat));
    }
}

/// An integer combined with itself: AND and OR give it back, XOR gives 0;
/// AND with 0 gives 0 and OR with 0 gives the integer.
pub proof fn law_bitwise_self(x: int)
    ensures
        binary_step(Op::And, Num::Int(x), Num::Int(x)) == Step::Value(Num::Int(x)),
        binary_step(Op::Or, Num::Int(x), Num::Int(x)) == Step::Value(Num::Int(x)),
        binary_step(Op::Xor, Num::Int(x), Num::Int(x)) == Step::Value(Num::Int(0)),
        binary_step(Op::And, Num::Int(x), Num::Int(0)) == Step::Value(Num::Int(0)),
        binary_step(Op::Or, Num::Int(x), Num::Int(0)) == Step::Value(Num::Int(x)),
{
    lemma_bit_self(x);
}

proof fn lemma_bit_self(x: int)
    ensures
        bit_and(x, x) == x,
        bit_or(x, x) == x,
        bit_xor(x, x) == 0,
    decreases (if x < 0 { -x } else { x }),
{
    if x != 0 && x != -1 {
        lemma_bit_self(x / 2);
        assert(2 * (x / 2) + x % 2 == x);
    }
}

/// Dup copies the top value onto the stack, and Drop right after it gives
/// the state back; Clear leaves an empty stack with registers and modes kept.
pub proof fn law_dup_then_drop(s: StateModel)
    requires
        s.stack.len() >= 1,
    ensures
        op_spec(s, Op::Dup) matches Outcome::Done(t) && t.stack.len() == s.stack.len() + 1
            && t.stack.last() == s.stack.last() && t.stack.drop_last() == s.stack && op_spec(
            t,
            Op::Drop,
        ) == Outcome::Done(s),
        op_spec(s, Op::Clear) == Outcome::Done(s.with_stack(Seq::empty())),
{
    let t = s.with_stack(s.stack.push(s.stack.last()));
    assert(t.stack.drop_last() =~= s.stack);
    assert(t.with_stack(t.stack.drop_last()) == s);
}

/// Work handed out names the operation and exactly the operands on top of
/// the stack (and, for a unary function, the angle mode).
pub proof fn law_deferred_work_reads_top(s: StateModel, op: Op)
    ensures
        op_spec(s, op) matches Outcome::Defer(w) ==> {
            let n = s.stack.len();
            match w {
                WorkModel::Binary(o, a, b) => o == op && is_binary(op) && n >= 2 && a == s.stack[n
                    - 2] && b == s.stack[n - 1],
                WorkModel::Unary(o, a, m) => o == op && is_unary(op) && n >= 1 && a == s.stack[n
                    - 1] && m == s.angle_mode,
            }
        },
{
}

/// Operations that exist only on integers, and integer arithmetic other
/// than division, powers and the functions of analysis, never hand out
/// floating-point work when their operands are integers; a completed
/// operation then leaves an integer on top.
pub proof fn law_integers_stay_exact(s: StateModel, op: Op)
    requires
        s.stack.len() >= 2,
        s.stack[s.stack.len() - 1] is Int,
        s.stack[s.stack.len() - 2] is Int,
        match op {
            Op::Add | Op::Sub | Op::Mul | Op::Mod | Op::And | Op::Or | Op::Xor | Op::Shl | Op::Shr
            | Op::Negate | Op::Square | Op::Abs | Op::Not | Op::Factorial => true,
            _ => false,
        },
    ensures
        !(op_spec(s, op) is Defer),
        op_spec(s, op) matches Outcome::Done(t) ==> t.stack.last() is Int,
{
}

} // verus!
