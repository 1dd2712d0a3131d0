use dashu::float::round::mode::Zero;
use dashu::float::{FBig, Repr};
use dashu::integer::{IBig, Sign, UBig};
use rpnpad::bigint::BigInt;
use rpnpad::error::CalcError;
use rpnpad::units::{canonical_display, convert, lookup_unit, parse_scale, TaggedValue, UnitCategory};
use rpnpad::value::BigFloat;

fn amount(f: f64) -> BigFloat {
    let v: FBig<Zero, 2> = FBig::try_from(f).unwrap();
    let (s, m) = v.repr().significand().clone().into_parts();
    BigFloat {
        significand: BigInt { negative: bool::from(s), magnitude: m.to_le_bytes().into_vec() },
        exponent: v.repr().exponent(),
        precision: v.precision(),
    }
}

fn to_f64(f: &BigFloat) -> f64 {
    let sig = IBig::from_parts(
        Sign::from(f.significand.negative),
        UBig::from_le_bytes(&f.significand.magnitude),
    );
    FBig::<Zero, 2>::from_repr_const(Repr::new(sig, f.exponent))
        .with_precision(f.precision)
        .value()
        .to_f64()
        .value()
}

/// The amount rounded to the nearest double.
fn nearest(f: &BigFloat) -> f64 {
    let sig = IBig::from_parts(
        Sign::from(f.significand.negative),
        UBig::from_le_bytes(&f.significand.magnitude),
    );
    Repr::<2>::new(sig, f.exponent).to_f64().value()
}

/// The amount as the nearest double, written shortest.
fn shown(f: &BigFloat) -> String {
    format!("{}", nearest(f))
}

// ── lookup ───────────────────────────────────────────────────────────────

#[test]
fn test_lookup_known_unit() {
    assert!(lookup_unit("oz").is_some());
    assert!(lookup_unit("g").is_some());
    assert!(lookup_unit("°F").is_some());
    assert!(lookup_unit("F").is_some()); // alias
}

#[test]
fn test_lookup_unknown_unit() {
    assert!(lookup_unit("fathoms").is_none());
    assert!(lookup_unit("psi").is_none());
    assert!(lookup_unit("OZ").is_none()); // case-sensitive
}

#[test]
fn test_canonical_display_alias() {
    assert_eq!(canonical_display("F"), "°F");
    assert_eq!(canonical_display("C"), "°C");
    assert_eq!(canonical_display("degF"), "°F");
    assert_eq!(canonical_display("degC"), "°C");
}

#[test]
fn test_canonical_display_canonical() {
    assert_eq!(canonical_display("oz"), "oz");
    assert_eq!(canonical_display("°F"), "°F");
}

// ── weight conversion ────────────────────────────────────────────────────

#[test]
fn test_oz_to_g() {
    // 1.9 oz → ~53.86 g
    let oz = lookup_unit("oz").unwrap();
    let g = lookup_unit("g").unwrap();
    let result = convert(amount(1.9), &oz, &g).unwrap();
    assert!((to_f64(&result) - 53.8640939).abs() < 0.001, "1.9 oz in grams = {}", to_f64(&result));
}

#[test]
fn test_g_to_oz() {
    let g = lookup_unit("g").unwrap();
    let oz = lookup_unit("oz").unwrap();
    let result = convert(amount(53.86), &g, &oz).unwrap();
    assert!((to_f64(&result) - 1.9).abs() < 0.01, "53.86 g in oz = {}", to_f64(&result));
}

#[test]
fn test_lb_to_g() {
    // 1 lb → 453.592 g
    let lb = lookup_unit("lb").unwrap();
    let g = lookup_unit("g").unwrap();
    let result = convert(amount(1.0), &lb, &g).unwrap();
    assert!((to_f64(&result) - 453.59237).abs() < 0.001, "1 lb in g = {}", to_f64(&result));
}

#[test]
fn test_oz_to_kg() {
    let oz = lookup_unit("oz").unwrap();
    let kg = lookup_unit("kg").unwrap();
    let result = convert(amount(1.0), &oz, &kg).unwrap();
    assert!((to_f64(&result) - 0.028349523125).abs() < 1e-9, "1 oz in kg = {}", to_f64(&result));
}

// ── length conversion ────────────────────────────────────────────────────

#[test]
fn test_ft_to_m() {
    // 6 ft → 1.8288 m
    let ft = lookup_unit("ft").unwrap();
    let m = lookup_unit("m").unwrap();
    let result = convert(amount(6.0), &ft, &m).unwrap();
    assert!((to_f64(&result) - 1.8288).abs() < 1e-9, "6 ft in m = {}", to_f64(&result));
}

#[test]
fn test_in_to_cm() {
    let inch = lookup_unit("in").unwrap();
    let cm = lookup_unit("cm").unwrap();
    let result = convert(amount(1.0), &inch, &cm).unwrap();
    assert!((to_f64(&result) - 2.54).abs() < 1e-9, "1 in in cm = {}", to_f64(&result));
}

#[test]
fn test_mi_to_km() {
    let mi = lookup_unit("mi").unwrap();
    let km = lookup_unit("km").unwrap();
    let result = convert(amount(1.0), &mi, &km).unwrap();
    assert!((to_f64(&result) - 1.609344).abs() < 1e-6, "1 mi in km = {}", to_f64(&result));
}

// ── length conversion no noise ────────────────────────────────────────────

#[test]
fn test_ft_to_cm_no_noise() {
    // 1.223 ft → cm should display as 37.27704, not 37.27704000000001
    let ft = lookup_unit("ft").unwrap();
    let cm = lookup_unit("cm").unwrap();
    let result = convert(parse_scale("1.223"), &ft, &cm).unwrap();
    let displayed = shown(&result);
    assert_eq!(displayed, "37.27704", "expected clean 37.27704, got {}", displayed);
}

#[test]
fn test_ft_cm_ft_roundtrip_no_noise() {
    // 3.2 ft → cm → ft should round-trip cleanly
    let ft = lookup_unit("ft").unwrap();
    let cm = lookup_unit("cm").unwrap();
    let start = parse_scale("3.2");
    let in_cm = convert(start, &ft, &cm).unwrap();
    let back = convert(in_cm, &cm, &ft).unwrap();
    let displayed = shown(&back);
    assert_eq!(displayed, "3.2", "round-trip 3.2 ft→cm→ft, got {}", displayed);
}

// ── temperature conversion ────────────────────────────────────────────────

#[test]
fn test_f_to_c() {
    // 98.6 °F → 37 °C
    let f = lookup_unit("°F").unwrap();
    let c = lookup_unit("°C").unwrap();
    let result = convert(amount(98.6), &f, &c).unwrap();
    assert!((to_f64(&result) - 37.0).abs() < 0.001, "98.6 °F in °C = {}", to_f64(&result));
}

#[test]
fn test_c_to_f() {
    // 100 °C → 212 °F
    let c = lookup_unit("°C").unwrap();
    let f = lookup_unit("°F").unwrap();
    let result = convert(amount(100.0), &c, &f).unwrap();
    assert!((to_f64(&result) - 212.0).abs() < 0.001, "100 °C in °F = {}", to_f64(&result));
}

#[test]
fn test_f_to_c_freezing() {
    let f = lookup_unit("°F").unwrap();
    let c = lookup_unit("°C").unwrap();
    let result = convert(amount(32.0), &f, &c).unwrap();
    assert!(to_f64(&result).abs() < 1e-9, "32 °F = 0 °C, got {}", to_f64(&result));
}

#[test]
fn test_temperature_alias_f_to_c() {
    // "F" alias should resolve to °F for conversion
    let tagged = TaggedValue::new(amount(98.6), "F");
    assert_eq!(tagged.unit, "°F");
    let converted = tagged.convert_to("C").unwrap();
    assert_eq!(converted.unit, "°C");
    assert!((to_f64(&converted.amount) - 37.0).abs() < 0.001);
}

// ── incompatible categories ───────────────────────────────────────────────

#[test]
fn test_incompatible_weight_to_length() {
    let oz = lookup_unit("oz").unwrap();
    let m = lookup_unit("m").unwrap();
    assert!(matches!(convert(amount(1.0), &oz, &m), Err(CalcError::IncompatibleUnits(_))));
}

#[test]
fn test_incompatible_weight_to_temperature() {
    let g = lookup_unit("g").unwrap();
    let f = lookup_unit("°F").unwrap();
    assert!(matches!(convert(amount(1.0), &g, &f), Err(CalcError::IncompatibleUnits(_))));
}

// ── same unit (no conversion) ─────────────────────────────────────────────

#[test]
fn test_same_unit_no_op() {
    let oz = lookup_unit("oz").unwrap();
    let result = convert(amount(1.9), &oz, &oz).unwrap();
    assert!((to_f64(&result) - 1.9).abs() < 1e-10);
}

// ── TaggedValue ──────────────────────────────────────────────────────────

#[test]
fn test_tagged_value_new_normalises_alias() {
    let t = TaggedValue::new(amount(98.6), "F");
    assert_eq!(t.unit, "°F");
    assert!((to_f64(&t.amount) - 98.6).abs() < 1e-10);
}

#[test]
fn test_tagged_value_convert_to() {
    let t = TaggedValue::new(amount(1.9), "oz");
    let converted = t.convert_to("g").unwrap();
    assert_eq!(converted.unit, "g");
    assert!((to_f64(&converted.amount) - 53.86).abs() < 0.01);
}

#[test]
fn test_tagged_value_convert_to_incompatible() {
    let t = TaggedValue::new(amount(1.9), "oz");
    assert!(matches!(t.convert_to("m"), Err(CalcError::IncompatibleUnits(_))));
}

// ── further cases ─────────────────────────────────────────────────────────

#[test]
fn lookup_gives_table_entry() {
    let ft = lookup_unit("ft").unwrap();
    assert_eq!(ft.abbrev, "ft");
    assert_eq!(ft.display, "ft");
    assert_eq!(ft.category, UnitCategory::Length);
    assert_eq!(ft.to_base, Some("0.3048"));
    let f = lookup_unit("degF").unwrap();
    assert_eq!(f.display, "°F");
    assert_eq!(f.category, UnitCategory::Temperature);
    assert_eq!(f.to_base, None);
}

#[test]
fn canonical_display_unknown_is_unchanged() {
    assert_eq!(canonical_display("furlong"), "furlong");
    assert_eq!(canonical_display(canonical_display("degC")), "°C");
}

#[test]
fn category_names_and_message() {
    assert_eq!(UnitCategory::Weight.name(), "weight");
    assert_eq!(UnitCategory::Length.name(), "length");
    assert_eq!(UnitCategory::Temperature.name(), "temperature");
    let oz = lookup_unit("oz").unwrap();
    let m = lookup_unit("m").unwrap();
    assert_eq!(
        convert(amount(1.0), &oz, &m).unwrap_err(),
        CalcError::IncompatibleUnits("cannot convert weight to length".to_string())
    );
}

#[test]
fn scale_factors_are_exact_decimals() {
    // 0.3048 read exactly, then rounded to 128 bits: within 2^-128 relative.
    let ft = parse_scale("0.3048");
    assert_eq!(ft.precision, 128);
    assert_eq!(nearest(&ft), 0.3048);
    let km = parse_scale("1000");
    assert_eq!(nearest(&km), 1000.0);
    assert_eq!(km.exponent, 3);
    assert_eq!(km.significand, BigInt { negative: false, magnitude: vec![125] });
    assert_eq!(nearest(&parse_scale("1609.344")), 1609.344);
    assert_eq!(nearest(&parse_scale("5.")), 5.0);
}

#[test]
fn identity_conversions_keep_the_amount() {
    let f = lookup_unit("F").unwrap();
    let f2 = lookup_unit("°F").unwrap();
    // Same display form: no arithmetic at all.
    assert_eq!(convert(amount(98.6), &f, &f2).unwrap(), amount(98.6));
    let g = TaggedValue::new(amount(1.0), "g");
    let same = g.convert_to("g").unwrap();
    assert_eq!(same, TaggedValue::new(amount(1.0), "g"));
    // An alias converts to its own display form without arithmetic.
    let t = TaggedValue::new(amount(98.6), "F");
    let again = t.convert_to("degF").unwrap();
    assert_eq!(again.unit, "°F");
    assert_eq!(again.amount, amount(98.6));
}

#[test]
fn linear_conversion_uses_128_bits() {
    let ft = lookup_unit("ft").unwrap();
    let m = lookup_unit("m").unwrap();
    let result = convert(amount(6.0), &ft, &m).unwrap();
    assert_eq!(result.precision, 128);
    let c = lookup_unit("C").unwrap();
    let f = lookup_unit("degF").unwrap();
    let boiling = convert(amount(100.0), &c, &f).unwrap();
    assert_eq!(nearest(&boiling), 212.0);
    assert_eq!(boiling.precision, 128);
}

#[test]
fn tagged_value_conversion_errors() {
    let t = TaggedValue::new(amount(98.6), "degF");
    let c = t.convert_to("C").unwrap();
    assert_eq!(c.unit, "°C");
    assert_eq!(
        t.convert_to("parsec").unwrap_err(),
        CalcError::InvalidInput("unknown unit: parsec".to_string())
    );
    let odd = TaggedValue::new(amount(1.0), "cubit");
    assert_eq!(odd.unit, "cubit");
    assert!(odd.unit_def().is_none());
    assert_eq!(
        odd.convert_to("m").unwrap_err(),
        CalcError::IncompatibleUnits("unknown unit: cubit".to_string())
    );
    assert_eq!(
        t.convert_to("kg").unwrap_err(),
        CalcError::IncompatibleUnits("cannot convert temperature to weight".to_string())
    );
}

#[test]
fn identity_and_refusal_hold_for_any_amount() {
    let huge = BigFloat {
        significand: BigInt { negative: true, magnitude: vec![3] },
        exponent: isize::MAX - 1,
        precision: 53,
    };
    let oz = lookup_unit("oz").unwrap();
    let m = lookup_unit("m").unwrap();
    let f = lookup_unit("F").unwrap();
    let f2 = lookup_unit("°F").unwrap();
    assert_eq!(convert(huge.clone(), &oz, &oz).unwrap(), huge);
    assert_eq!(convert(huge.clone(), &f, &f2).unwrap(), huge);
    assert!(matches!(convert(huge.clone(), &oz, &m), Err(CalcError::IncompatibleUnits(_))));
    let t = TaggedValue::new(huge.clone(), "oz");
    assert_eq!(t.convert_to("oz").unwrap().amount, huge);
}
