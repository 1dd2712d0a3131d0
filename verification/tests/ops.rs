use dashu::float::round::mode::Zero;
use dashu::float::{FBig, Repr};
use dashu::integer::{IBig, Sign, UBig};
use rpnpad::bigint::BigInt;
use rpnpad::error::CalcError;
use rpnpad::ops::{apply_op, finish_op, FloatWork, Op};
use rpnpad::stack::CalcState;
use rpnpad::value::{BigFloat, CalcValue};

fn int_value(n: i64) -> CalcValue {
    CalcValue::from_i64(n)
}

fn big_of(x: &IBig) -> BigInt {
    let (s, m) = x.clone().into_parts();
    BigInt { negative: bool::from(s), magnitude: m.to_le_bytes().into_vec() }
}

fn ibig_of(x: &BigInt) -> IBig {
    IBig::from_parts(Sign::from(x.negative), UBig::from_le_bytes(&x.magnitude))
}

fn float(f: f64) -> CalcValue {
    let v: FBig<Zero, 2> = FBig::try_from(f).unwrap();
    CalcValue::Float(BigFloat {
        significand: big_of(v.repr().significand()),
        exponent: v.repr().exponent(),
        precision: v.precision(),
    })
}

fn to_f64(v: &CalcValue) -> f64 {
    match v {
        CalcValue::Integer(x) => ibig_of(x).to_f64().value(),
        CalcValue::Float(f) => {
            let repr = Repr::<2>::new(ibig_of(&f.significand), f.exponent);
            FBig::<Zero, 2>::from_repr_const(repr).with_precision(f.precision).value().to_f64().value()
        }
    }
}

fn state_with(vals: &[i64]) -> CalcState {
    let mut s = CalcState::new();
    for &v in vals {
        s.push(int_value(v));
    }
    s
}

fn approx_eq(a: f64, b: f64) -> bool {
    (a - b).abs() < 1e-9
}

fn top_f64(s: &CalcState) -> f64 {
    to_f64(s.peek().unwrap())
}

// ── Op::constructible ────────────────────────────────────────────────────

#[test]
fn test_op_constructible_and_comparable() {
    let _ = Op::Sin;
    assert_ne!(Op::Add, Op::Sub);
}

// ── Binary arithmetic ────────────────────────────────────────────────────

#[test]
fn test_add_int_int() {
    let mut s = state_with(&[3, 4]);
    apply_op(&mut s, Op::Add).unwrap();
    assert_eq!(s.peek(), Some(&int_value(7)));
    assert_eq!(s.depth(), 1);
}

#[test]
fn test_sub_int_int() {
    let mut s = state_with(&[10, 3]);
    apply_op(&mut s, Op::Sub).unwrap();
    assert_eq!(s.peek(), Some(&int_value(7)));
}

#[test]
fn test_mul_int_int() {
    let mut s = state_with(&[6, 7]);
    apply_op(&mut s, Op::Mul).unwrap();
    assert_eq!(s.peek(), Some(&int_value(42)));
}

#[test]
fn test_div_exact_stays_integer() {
    let mut s = state_with(&[12, 4]);
    apply_op(&mut s, Op::Div).unwrap();
    assert_eq!(s.peek(), Some(&int_value(3)));
}

#[test]
fn test_div_by_zero_returns_error_stack_unchanged() {
    let mut s = state_with(&[5, 0]);
    let err = apply_op(&mut s, Op::Div).unwrap_err();
    assert!(matches!(err, CalcError::DivisionByZero));
    assert_eq!(s.depth(), 2);
    assert_eq!(s.peek(), Some(&int_value(0)));
}

#[test]
fn test_pow_integer_exact() {
    let mut s = state_with(&[2, 10]);
    apply_op(&mut s, Op::Pow).unwrap();
    assert_eq!(s.peek(), Some(&int_value(1024)));
}

#[test]
fn test_mod_integer() {
    let mut s = state_with(&[17, 5]);
    apply_op(&mut s, Op::Mod).unwrap();
    assert_eq!(s.peek(), Some(&int_value(2)));
}

#[test]
fn test_mod_by_zero_error_stack_unchanged() {
    let mut s = state_with(&[7, 0]);
    let err = apply_op(&mut s, Op::Mod).unwrap_err();
    assert!(matches!(err, CalcError::DivisionByZero));
    assert_eq!(s.depth(), 2);
}

#[test]
fn test_binary_op_underflow_stack_unchanged() {
    let mut s = state_with(&[1]);
    let err = apply_op(&mut s, Op::Add).unwrap_err();
    assert!(matches!(err, CalcError::StackUnderflow));
    assert_eq!(s.depth(), 1);
    assert_eq!(s.peek(), Some(&int_value(1)));
}

// ── Unary arithmetic ─────────────────────────────────────────────────────

#[test]
fn test_negate_integer() {
    let mut s = state_with(&[5]);
    apply_op(&mut s, Op::Negate).unwrap();
    assert_eq!(s.peek(), Some(&int_value(-5)));
}

#[test]
fn test_negate_float() {
    let mut s = CalcState::new();
    s.push(float(2.5));
    apply_op(&mut s, Op::Negate).unwrap();
    assert!(approx_eq(top_f64(&s), -2.5));
}

#[test]
fn test_sqrt_negative_domain_error_stack_unchanged() {
    let mut s = state_with(&[-1]);
    let err = apply_op(&mut s, Op::Sqrt).unwrap_err();
    assert!(matches!(err, CalcError::DomainError(_)));
    assert_eq!(s.depth(), 1);
    assert_eq!(s.peek(), Some(&int_value(-1)));
}

#[test]
fn test_square_integer() {
    let mut s = state_with(&[7]);
    apply_op(&mut s, Op::Square).unwrap();
    assert_eq!(s.peek(), Some(&int_value(49)));
}

#[test]
fn test_reciprocal_zero_error_stack_unchanged() {
    let mut s = state_with(&[0]);
    let err = apply_op(&mut s, Op::Reciprocal).unwrap_err();
    assert!(matches!(err, CalcError::DivisionByZero));
    assert_eq!(s.depth(), 1);
}

#[test]
fn test_abs_negative_integer() {
    let mut s = state_with(&[-5]);
    apply_op(&mut s, Op::Abs).unwrap();
    assert_eq!(s.peek(), Some(&int_value(5)));
}

#[test]
fn test_factorial_five() {
    let mut s = state_with(&[5]);
    apply_op(&mut s, Op::Factorial).unwrap();
    assert_eq!(s.peek(), Some(&int_value(120)));
}

#[test]
fn test_factorial_zero() {
    let mut s = state_with(&[0]);
    apply_op(&mut s, Op::Factorial).unwrap();
    assert_eq!(s.peek(), Some(&int_value(1)));
}

#[test]
fn test_factorial_negative_domain_error_stack_unchanged() {
    let mut s = state_with(&[-1]);
    let err = apply_op(&mut s, Op::Factorial).unwrap_err();
    assert!(matches!(err, CalcError::DomainError(_)));
    assert_eq!(s.depth(), 1);
}

#[test]
fn test_factorial_float_not_integer_error() {
    let mut s = CalcState::new();
    s.push(float(5.0));
    let err = apply_op(&mut s, Op::Factorial).unwrap_err();
    assert!(matches!(err, CalcError::NotAnInteger));
    assert_eq!(s.depth(), 1);
}

#[test]
fn test_unary_op_underflow_stack_unchanged() {
    let mut s = CalcState::new();
    let err = apply_op(&mut s, Op::Sqrt).unwrap_err();
    assert!(matches!(err, CalcError::StackUnderflow));
    assert_eq!(s.depth(), 0);
}

// ── Log/Exp ──────────────────────────────────────────────────────────────

#[test]
fn test_ln_zero_domain_error_stack_unchanged() {
    let mut s = state_with(&[0]);
    let err = apply_op(&mut s, Op::Ln).unwrap_err();
    assert!(matches!(err, CalcError::DomainError(_)));
    assert_eq!(s.depth(), 1);
}

#[test]
fn test_ln_negative_domain_error_stack_unchanged() {
    let mut s = state_with(&[-5]);
    let err = apply_op(&mut s, Op::Ln).unwrap_err();
    assert!(matches!(err, CalcError::DomainError(_)));
    assert_eq!(s.depth(), 1);
}

#[test]
fn test_log10_zero_domain_error_stack_unchanged() {
    let mut s = state_with(&[0]);
    let err = apply_op(&mut s, Op::Log10).unwrap_err();
    assert!(matches!(err, CalcError::DomainError(_)));
    assert_eq!(s.depth(), 1);
}

// ── Bitwise ──────────────────────────────────────────────────────────────

#[test]
fn test_and_integers() {
    let mut s = state_with(&[0b1100, 0b1010]);
    apply_op(&mut s, Op::And).unwrap();
    assert_eq!(s.peek(), Some(&int_value(0b1000)));
}

#[test]
fn test_or_integers() {
    let mut s = state_with(&[0b1100, 0b1010]);
    apply_op(&mut s, Op::Or).unwrap();
    assert_eq!(s.peek(), Some(&int_value(0b1110)));
}

#[test]
fn test_xor_integers() {
    let mut s = state_with(&[0b1100, 0b1010]);
    apply_op(&mut s, Op::Xor).unwrap();
    assert_eq!(s.peek(), Some(&int_value(0b0110)));
}

#[test]
fn test_shl_integer() {
    let mut s = state_with(&[1, 4]);
    apply_op(&mut s, Op::Shl).unwrap();
    assert_eq!(s.peek(), Some(&int_value(16)));
}

#[test]
fn test_shr_integer() {
    let mut s = state_with(&[16, 2]);
    apply_op(&mut s, Op::Shr).unwrap();
    assert_eq!(s.peek(), Some(&int_value(4)));
}

#[test]
fn test_not_integer() {
    let mut s = state_with(&[0]);
    apply_op(&mut s, Op::Not).unwrap();
    // !0 = -1 for IBig (two's complement signed)
    assert_eq!(s.peek(), Some(&int_value(-1)));
}

#[test]
fn test_and_float_not_integer_error_stack_unchanged() {
    let mut s = CalcState::new();
    s.push(float(3.0));
    s.push(int_value(2));
    let err = apply_op(&mut s, Op::And).unwrap_err();
    assert!(matches!(err, CalcError::NotAnInteger));
    assert_eq!(s.depth(), 2);
}

#[test]
fn test_not_float_not_integer_error_stack_unchanged() {
    let mut s = CalcState::new();
    s.push(float(3.0));
    let err = apply_op(&mut s, Op::Not).unwrap_err();
    assert!(matches!(err, CalcError::NotAnInteger));
    assert_eq!(s.depth(), 1);
}

// ── Constants ────────────────────────────────────────────────────────────

#[test]
fn test_push_pi() {
    let mut s = CalcState::new();
    apply_op(&mut s, Op::PushPi).unwrap();
    assert_eq!(s.depth(), 1);
    assert!(approx_eq(top_f64(&s), std::f64::consts::PI));
}

#[test]
fn test_push_e() {
    let mut s = CalcState::new();
    apply_op(&mut s, Op::PushE).unwrap();
    assert!(approx_eq(top_f64(&s), std::f64::consts::E));
}

#[test]
fn test_push_phi() {
    let mut s = CalcState::new();
    apply_op(&mut s, Op::PushPhi).unwrap();
    let phi = (1.0 + 5.0_f64.sqrt()) / 2.0;
    assert!(approx_eq(top_f64(&s), phi));
}

// ── Stack ops via apply_op ────────────────────────────────────────────────

#[test]
fn test_swap_via_apply_op() {
    let mut s = state_with(&[1, 2]);
    apply_op(&mut s, Op::Swap).unwrap();
    assert_eq!(s.peek(), Some(&int_value(1)));
}

#[test]
fn test_dup_via_apply_op() {
    let mut s = state_with(&[5]);
    apply_op(&mut s, Op::Dup).unwrap();
    assert_eq!(s.depth(), 2);
    assert_eq!(s.peek(), Some(&int_value(5)));
}

#[test]
fn test_drop_via_apply_op() {
    let mut s = state_with(&[1, 2]);
    apply_op(&mut s, Op::Drop).unwrap();
    assert_eq!(s.depth(), 1);
    assert_eq!(s.peek(), Some(&int_value(1)));
}

#[test]
fn test_rotate_via_apply_op() {
    let mut s = state_with(&[1, 2, 3]);
    apply_op(&mut s, Op::Rotate).unwrap();
    assert_eq!(s.peek(), Some(&int_value(2)));
}

#[test]
fn test_clear_via_apply_op() {
    let mut s = state_with(&[1, 2, 3]);
    apply_op(&mut s, Op::Clear).unwrap();
    assert!(s.is_empty());
}

#[test]
fn test_swap_underflow_via_apply_op() {
    let mut s = state_with(&[1]);
    let err = apply_op(&mut s, Op::Swap).unwrap_err();
    assert!(matches!(err, CalcError::StackUnderflow));
    assert_eq!(s.depth(), 1);
}

// ── Further cases ─────────────────────────────────────────────────────────

#[test]
fn constants_are_the_doubles_nearest() {
    for (op, x) in [
        (Op::PushPi, std::f64::consts::PI),
        (Op::PushE, std::f64::consts::E),
        (Op::PushPhi, (1.0 + 5.0_f64.sqrt()) / 2.0),
    ] {
        let mut s = CalcState::new();
        apply_op(&mut s, op).unwrap();
        assert_eq!(s.peek(), Some(&float(x)));
        assert_eq!(top_f64(&s), x);
    }
}

#[test]
fn float_result_is_deferred_with_operands() {
    let mut s = state_with(&[10, 3]);
    let work = apply_op(&mut s, Op::Div).unwrap().unwrap();
    assert_eq!(s.depth(), 2);
    match &work {
        FloatWork::Binary { op, left, right } => {
            assert_eq!(*op, Op::Div);
            assert_eq!(left, &int_value(10));
            assert_eq!(right, &int_value(3));
        }
        FloatWork::Unary { .. } => panic!("division takes two operands"),
    }
    finish_op(&mut s, &work, Ok(float(10.0 / 3.0))).unwrap();
    assert_eq!(s.depth(), 1);
    assert!(approx_eq(top_f64(&s), 10.0 / 3.0));
}

#[test]
fn failed_float_work_leaves_stack() {
    let mut s = CalcState::new();
    s.push(float(2.0));
    let work = apply_op(&mut s, Op::Asin).unwrap().unwrap();
    match &work {
        FloatWork::Unary { op, operand, .. } => {
            assert_eq!(*op, Op::Asin);
            assert_eq!(operand, &float(2.0));
        }
        FloatWork::Binary { .. } => panic!("asin takes one operand"),
    }
    let err = finish_op(&mut s, &work, Err(CalcError::DomainError("value out of domain".to_string())))
        .unwrap_err();
    assert!(matches!(err, CalcError::DomainError(_)));
    assert_eq!(s.depth(), 1);
    assert_eq!(s.peek(), Some(&float(2.0)));
}

#[test]
fn div_truncates_and_mod_keeps_sign_of_dividend() {
    let mut s = state_with(&[-7, 2]);
    apply_op(&mut s, Op::Mod).unwrap();
    assert_eq!(s.peek(), Some(&int_value(-1)));
    let mut s = state_with(&[-12, 4]);
    apply_op(&mut s, Op::Div).unwrap();
    assert_eq!(s.peek(), Some(&int_value(-3)));
}

#[test]
fn bitwise_on_negative_integers() {
    let mut s = state_with(&[-12, 10]);
    apply_op(&mut s, Op::And).unwrap();
    assert_eq!(s.peek(), Some(&int_value(-12 & 10)));
    let mut s = state_with(&[-12, 10]);
    apply_op(&mut s, Op::Or).unwrap();
    assert_eq!(s.peek(), Some(&int_value(-12 | 10)));
    let mut s = state_with(&[-12, 10]);
    apply_op(&mut s, Op::Xor).unwrap();
    assert_eq!(s.peek(), Some(&int_value(-12 ^ 10)));
    let mut s = state_with(&[-9, 2]);
    apply_op(&mut s, Op::Shr).unwrap();
    assert_eq!(s.peek(), Some(&int_value(-3)));
}

#[test]
fn negative_shift_is_domain_error() {
    let mut s = state_with(&[1, -1]);
    let err = apply_op(&mut s, Op::Shl).unwrap_err();
    assert_eq!(err, CalcError::DomainError("shift amount too large".to_string()));
    assert_eq!(s.depth(), 2);
}

#[test]
fn factorial_limits() {
    let mut s = state_with(&[10001]);
    let err = apply_op(&mut s, Op::Factorial).unwrap_err();
    assert_eq!(err, CalcError::DomainError("factorial argument too large".to_string()));
    let mut s = state_with(&[20]);
    apply_op(&mut s, Op::Factorial).unwrap();
    assert_eq!(s.peek(), Some(&int_value(2432902008176640000)));
}

#[test]
fn pow_large_exponent_is_deferred() {
    let mut s = state_with(&[2, 1001]);
    assert!(apply_op(&mut s, Op::Pow).unwrap().is_some());
    let mut s = state_with(&[2, -1]);
    assert!(apply_op(&mut s, Op::Pow).unwrap().is_some());
    let mut s = state_with(&[-3, 3]);
    apply_op(&mut s, Op::Pow).unwrap();
    assert_eq!(s.peek(), Some(&int_value(-27)));
}

#[test]
fn swap_twice_restores_stack() {
    let mut s = state_with(&[1, 2, 3]);
    apply_op(&mut s, Op::Swap).unwrap();
    apply_op(&mut s, Op::Swap).unwrap();
    assert_eq!(s.stack, vec![int_value(1), int_value(2), int_value(3)]);
}

#[test]
fn rotate_three_times_restores_stack() {
    let mut s = state_with(&[1, 2, 3, 4]);
    apply_op(&mut s, Op::Rotate).unwrap();
    assert_eq!(s.stack, vec![int_value(1), int_value(4), int_value(2), int_value(3)]);
    apply_op(&mut s, Op::Rotate).unwrap();
    apply_op(&mut s, Op::Rotate).unwrap();
    assert_eq!(s.stack, vec![int_value(1), int_value(2), int_value(3), int_value(4)]);
}

#[test]
fn rotate_underflow_leaves_stack() {
    let mut s = state_with(&[1, 2]);
    let err = apply_op(&mut s, Op::Rotate).unwrap_err();
    assert!(matches!(err, CalcError::StackUnderflow));
    assert_eq!(s.stack, vec![int_value(1), int_value(2)]);
}

#[test]
fn large_integer_arithmetic_is_exact() {
    let mut s = state_with(&[i64::MAX, i64::MAX]);
    apply_op(&mut s, Op::Mul).unwrap();
    let expected = IBig::from(i64::MAX) * IBig::from(i64::MAX);
    assert_eq!(s.peek(), Some(&CalcValue::Integer(big_of(&expected))));
    apply_op(&mut s, Op::Negate).unwrap();
    apply_op(&mut s, Op::Abs).unwrap();
    assert_eq!(s.peek(), Some(&CalcValue::Integer(big_of(&expected))));
}

#[test]
fn float_sum_difference_product_are_computed_here() {
    let mut s = CalcState::new();
    s.push(float(1.5));
    s.push(float(2.25));
    assert!(apply_op(&mut s, Op::Add).unwrap().is_none());
    assert_eq!(s.depth(), 1);
    assert_eq!(s.peek(), Some(&float(3.75)));

    s.push(float(0.5));
    assert!(apply_op(&mut s, Op::Sub).unwrap().is_none());
    assert_eq!(top_f64(&s), 3.25);

    s.push(float(-2.0));
    assert!(apply_op(&mut s, Op::Mul).unwrap().is_none());
    assert_eq!(top_f64(&s), -6.5);

    assert!(apply_op(&mut s, Op::Square).unwrap().is_none());
    assert_eq!(top_f64(&s), 42.25);
    assert_eq!(s.depth(), 1);
}

#[test]
fn float_sum_keeps_the_larger_precision() {
    let mut s = CalcState::new();
    s.push(float(0.1));
    s.push(float(0.2));
    apply_op(&mut s, Op::Add).unwrap();
    match s.peek().unwrap() {
        CalcValue::Float(f) => assert_eq!(f.precision, 53),
        CalcValue::Integer(_) => panic!("a sum of floats is a float"),
    }
    assert!(approx_eq(top_f64(&s), 0.3));
}

#[test]
fn mixed_and_float_quotients_are_deferred() {
    let mut s = CalcState::new();
    s.push(int_value(1));
    s.push(float(0.5));
    let work = apply_op(&mut s, Op::Add).unwrap().unwrap();
    assert!(matches!(work, FloatWork::Binary { op: Op::Add, .. }));
    assert_eq!(s.depth(), 2);
    let mut t = CalcState::new();
    t.push(float(1.0));
    t.push(float(4.0));
    assert!(apply_op(&mut t, Op::Div).unwrap().is_some());
    assert_eq!(t.depth(), 2);
}

/// The float a handed-out operand becomes, as the terminal program reads it.
fn as_fbig(v: &CalcValue) -> FBig<Zero, 2> {
    match v {
        CalcValue::Integer(x) => FBig::try_from(ibig_of(x).to_f64().value()).unwrap(),
        CalcValue::Float(f) => FBig::<Zero, 2>::from_repr_const(Repr::new(ibig_of(&f.significand), f.exponent))
            .with_precision(f.precision)
            .value(),
    }
}

fn float_value(f: FBig<Zero, 2>) -> CalcValue {
    CalcValue::Float(BigFloat {
        significand: big_of(f.repr().significand()),
        exponent: f.repr().exponent(),
        precision: f.precision(),
    })
}

#[test]
fn test_div_non_exact_promotes_to_float() {
    let mut s = state_with(&[10, 3]);
    // The engine hands out the quotient of Y by X, leaving the stack as it is.
    let work = apply_op(&mut s, Op::Div).unwrap().unwrap();
    assert_eq!(s.depth(), 2);
    let quotient = match &work {
        FloatWork::Binary { op: Op::Div, left, right } => {
            assert_eq!(left, &int_value(10));
            assert_eq!(right, &int_value(3));
            as_fbig(left) / as_fbig(right)
        }
        other => panic!("unexpected work {:?}", other),
    };
    finish_op(&mut s, &work, Ok(float_value(quotient))).unwrap();
    assert!(matches!(s.peek(), Some(CalcValue::Float(_))));
    assert!(approx_eq(top_f64(&s), 10.0 / 3.0));
}

#[test]
fn test_abs_negative_float() {
    let mut s = CalcState::new();
    // -2.5 = -5 * 2^-1, with the 53 bits of a double.
    s.push(CalcValue::Float(BigFloat {
        significand: BigInt { negative: true, magnitude: vec![5] },
        exponent: -1,
        precision: 53,
    }));
    let work = apply_op(&mut s, Op::Abs).unwrap().unwrap();
    let magnitude = match &work {
        FloatWork::Unary { op: Op::Abs, operand, .. } => {
            assert_eq!(to_f64(operand), -2.5);
            to_f64(operand).abs()
        }
        other => panic!("unexpected work {:?}", other),
    };
    finish_op(&mut s, &work, Ok(float(magnitude))).unwrap();
    assert!(approx_eq(top_f64(&s), 2.5));
}
