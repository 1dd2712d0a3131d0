use rpnpad::angle::AngleMode;
use rpnpad::base::{Base, HexStyle};
use rpnpad::error::CalcError;
use rpnpad::action::Action;
use rpnpad::ops::Op;
use rpnpad::value::CalcValue;
use rpnpad::config::Config;

#[test]
fn test_hexstyle_cycle_full_roundtrip() {
    let start = HexStyle::ZeroX;
    let cycled = start.cycle().cycle().cycle().cycle();
    assert_eq!(cycled, start);
}

#[test]
fn test_hexstyle_display() {
    assert_eq!(HexStyle::ZeroX.to_string(), "0x");
    assert_eq!(HexStyle::Dollar.to_string(), "$");
    assert_eq!(HexStyle::Hash.to_string(), "#");
    assert_eq!(HexStyle::Suffix.to_string(), "h");
}

#[test]
fn test_calcerror_display_messages() {
    assert_eq!(CalcError::StackUnderflow.to_string(), "Stack underflow");
    assert_eq!(CalcError::DivisionByZero.to_string(), "Division by zero");
    assert_eq!(
        CalcError::DomainError("sqrt of negative".to_string()).to_string(),
        "Domain error: sqrt of negative"
    );
    assert_eq!(
        CalcError::InvalidInput("foo".to_string()).to_string(),
        "Invalid input: foo"
    );
    assert_eq!(
        CalcError::NotAnInteger.to_string(),
        "Operation requires an integer"
    );
}

#[test]
fn test_action_constructible() {
    let _ = Action::Push(CalcValue::from_i64(42));
    let _ = Action::Execute(Op::Sin);
    let _ = Action::Undo;
}

#[test]
fn base_cycle_and_radix() {
    let start = Base::Dec;
    assert_eq!(start.cycle(), Base::Hex);
    assert_eq!(start.cycle().cycle().cycle().cycle(), start);
    assert_eq!(Base::Dec.radix(), 10);
    assert_eq!(Base::Hex.radix(), 16);
    assert_eq!(Base::Oct.radix(), 8);
    assert_eq!(Base::Bin.radix(), 2);
    assert_eq!(Base::Oct.to_string(), "OCT");
}

#[test]
fn angle_cycle_has_period_three() {
    let start = AngleMode::Deg;
    assert_eq!(start.cycle(), AngleMode::Rad);
    assert_eq!(start.cycle().cycle(), AngleMode::Grad);
    assert_eq!(start.cycle().cycle().cycle(), start);
    assert_eq!(AngleMode::Grad.to_string(), "GRD");
}

#[test]
fn incompatible_units_message() {
    assert_eq!(
        CalcError::IncompatibleUnits("cannot convert weight to length".to_string()).to_string(),
        "Incompatible units: cannot convert weight to length"
    );
}

#[test]
fn config_defaults() {
    let c = Config::load();
    assert_eq!(c.angle_mode, AngleMode::Deg);
    assert_eq!(c.base, Base::Dec);
    assert_eq!(c.precision, 15);
    assert_eq!(c.max_undo_history, 1000);
    assert!(c.persist_session);
}

#[test]
fn session_integration_placeholder() {
    // Session saving and loading are input/output of the application and
    // are exercised there.
}
