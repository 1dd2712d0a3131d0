use rpnpad::action::Action;
use rpnpad::commands::parse_command;
use rpnpad::error::CalcError;
use rpnpad::parser::{parse_value, Parsed};
use rpnpad::value::CalcValue;

fn int_val(n: i64) -> Parsed {
    Parsed::Number(CalcValue::from_i64(n))
}

// ── STORE ────────────────────────────────────────────────────────────────

#[test]
fn test_store_command_simple() {
    assert_eq!(
        parse_command("myvar STORE"),
        Ok(Action::StoreRegister("myvar".to_string()))
    );
}

#[test]
fn test_store_command_alphanumeric() {
    assert_eq!(
        parse_command("r1 STORE"),
        Ok(Action::StoreRegister("r1".to_string()))
    );
}

// ── RCL ──────────────────────────────────────────────────────────────────

#[test]
fn test_rcl_command_simple() {
    assert_eq!(
        parse_command("myvar RCL"),
        Ok(Action::RecallRegister("myvar".to_string()))
    );
}

#[test]
fn test_rcl_command_alphanumeric() {
    assert_eq!(
        parse_command("r1 RCL"),
        Ok(Action::RecallRegister("r1".to_string()))
    );
}

// ── errors ───────────────────────────────────────────────────────────────

#[test]
fn test_unknown_command_single_word() {
    // "STORE" alone has no register name — must fail
    assert!(matches!(
        parse_command("STORE"),
        Err(CalcError::InvalidInput(_))
    ));
}

#[test]
fn test_unknown_command_garbage() {
    assert!(matches!(
        parse_command("not a command"),
        Err(CalcError::InvalidInput(_))
    ));
}

#[test]
fn test_unknown_command_empty() {
    assert!(matches!(parse_command(""), Err(CalcError::InvalidInput(_))));
}

#[test]
fn test_unknown_command_wrong_verb() {
    assert!(matches!(
        parse_command("myvar SAVE"),
        Err(CalcError::InvalidInput(_))
    ));
}

#[test]
fn command_words_split_on_any_whitespace() {
    assert_eq!(
        parse_command("  x\t STORE \n"),
        Ok(Action::StoreRegister("x".to_string()))
    );
    assert_eq!(
        parse_command("RCL RCL"),
        Ok(Action::RecallRegister("RCL".to_string()))
    );
    assert_eq!(
        parse_command("x store"),
        Err(CalcError::InvalidInput("Unknown command: x store".to_string()))
    );
}

// ── integers ────────────────────────────────────────────────────────────

#[test]
fn test_parse_integer_positive() {
    assert_eq!(parse_value("42"), Ok(int_val(42)));
}

#[test]
fn test_parse_integer_negative() {
    assert_eq!(parse_value("-17"), Ok(int_val(-17)));
}

#[test]
fn test_parse_integer_zero() {
    assert_eq!(parse_value("0"), Ok(int_val(0)));
}

// ── floats ──────────────────────────────────────────────────────────────

#[test]
fn test_parse_float_decimal() {
    assert!(matches!(parse_value("3.14"), Ok(Parsed::FloatText(_))));
}

#[test]
fn test_parse_float_scientific() {
    assert!(matches!(parse_value("1.5e-3"), Ok(Parsed::FloatText(_))));
}

#[test]
fn test_parse_float_scientific_positive_exp() {
    assert!(matches!(parse_value("1e10"), Ok(Parsed::FloatText(_))));
}

// ── hex ─────────────────────────────────────────────────────────────────

#[test]
fn test_parse_hex_uppercase() {
    assert_eq!(parse_value("0xFF"), Ok(int_val(255)));
}

#[test]
fn test_parse_hex_lowercase() {
    assert_eq!(parse_value("0xff"), Ok(int_val(255)));
}

#[test]
fn test_parse_hex_prefix_uppercase() {
    assert_eq!(parse_value("0XFF"), Ok(int_val(255)));
}

#[test]
fn test_parse_hex_negative() {
    assert_eq!(parse_value("-0xFF"), Ok(int_val(-255)));
}

// ── octal ────────────────────────────────────────────────────────────────

#[test]
fn test_parse_octal() {
    assert_eq!(parse_value("0o377"), Ok(int_val(255)));
}

#[test]
fn test_parse_octal_prefix_uppercase() {
    assert_eq!(parse_value("0O377"), Ok(int_val(255)));
}

#[test]
fn test_parse_octal_negative() {
    assert_eq!(parse_value("-0o10"), Ok(int_val(-8)));
}

// ── binary ───────────────────────────────────────────────────────────────

#[test]
fn test_parse_binary() {
    assert_eq!(parse_value("0b11111111"), Ok(int_val(255)));
}

#[test]
fn test_parse_binary_prefix_uppercase() {
    assert_eq!(parse_value("0B101"), Ok(int_val(5)));
}

#[test]
fn test_parse_binary_negative() {
    assert_eq!(parse_value("-0b101"), Ok(int_val(-5)));
}

// ── digit separators ────────────────────────────────────────────────────

#[test]
fn test_parse_digit_separators_integer() {
    assert_eq!(parse_value("1_000_000"), Ok(int_val(1_000_000)));
}

#[test]
fn test_parse_digit_separators_hex() {
    assert_eq!(parse_value("0xFF_FF"), Ok(int_val(65535)));
}

// ── errors ───────────────────────────────────────────────────────────────

#[test]
fn test_parse_empty_string() {
    assert!(matches!(parse_value(""), Err(CalcError::InvalidInput(_))));
}

#[test]
fn test_parse_garbage() {
    assert!(matches!(
        parse_value("abc"),
        Err(CalcError::InvalidInput(_))
    ));
}

#[test]
fn test_parse_invalid_hex() {
    assert!(matches!(
        parse_value("0xGG"),
        Err(CalcError::InvalidInput(_))
    ));
}

#[test]
fn test_parse_invalid_octal() {
    assert!(matches!(
        parse_value("0o99"),
        Err(CalcError::InvalidInput(_))
    ));
}

#[test]
fn test_parse_invalid_binary() {
    assert!(matches!(
        parse_value("0b2"),
        Err(CalcError::InvalidInput(_))
    ));
}

// ── further cases ────────────────────────────────────────────────────────

#[test]
fn parse_error_messages() {
    assert_eq!(parse_value(""), Err(CalcError::InvalidInput("Empty input".to_string())));
    assert_eq!(parse_value("___"), Err(CalcError::InvalidInput("Empty input".to_string())));
    assert_eq!(parse_value("abc"), Err(CalcError::InvalidInput("Invalid integer: abc".to_string())));
    assert_eq!(
        parse_value("0xGG"),
        Err(CalcError::InvalidInput("Invalid hex number: 0xGG".to_string()))
    );
    assert_eq!(
        parse_value("-0o9"),
        Err(CalcError::InvalidInput("Invalid octal number: 0o9".to_string()))
    );
    assert_eq!(
        parse_value("0b"),
        Err(CalcError::InvalidInput("Invalid binary number: 0b".to_string()))
    );
}

#[test]
fn parse_signs_and_separators() {
    assert_eq!(parse_value("+12"), Ok(int_val(12)));
    assert_eq!(parse_value("-0"), Ok(int_val(0)));
    assert_eq!(parse_value("0x-10"), Ok(int_val(-16)));
    assert_eq!(parse_value("1_2_3"), parse_value("123"));
    assert_eq!(parse_value("0x1e5"), Ok(int_val(0x1e5)));
    assert_eq!(parse_value("1_5e_3"), Ok(Parsed::FloatText("15e3".to_string())));
    assert!(parse_value("--5").is_err());
}

#[test]
fn parse_wide_integer() {
    let parsed = parse_value("123456789012345678901234567890").unwrap();
    let expected: dashu::integer::IBig = "123456789012345678901234567890".parse().unwrap();
    let (sign, mag) = expected.into_parts();
    let expected = rpnpad::bigint::BigInt {
        negative: bool::from(sign),
        magnitude: mag.to_le_bytes().into_vec(),
    };
    assert_eq!(parsed, Parsed::Number(CalcValue::Integer(expected)));
}
