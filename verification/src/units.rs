//! Physical units: the table of known units, lookup by abbreviation, and
//! conversion of amounts between units, in binary floats of 128 bits with
//! scale factors read exactly from their decimal form.
use vstd::prelude::*;
use crate::error::{CalcError, ErrorModel};
use vstd::arithmetic::power::pow;
use vstd::arithmetic::power2::lemma2_to64_rest;
use crate::bigint::{int_from_str_radix, int_from_u64, int_pow};
use crate::bigint::int_from_i64;
use crate::float::{
    bit_len, fits_precision, float_add, float_difference, float_div, float_mul, float_of_int,
    float_product, float_quotient, float_size, float_sub, float_sum, lemma_bit_len_decimal_step,
    lemma_bit_len_below, magnitude, rounded_div, size_limit, rounded_int, rounded_quotient,
};
use crate::text::{all_digits, chars_of, digit_value, digits_value, parse_radix};
use crate::value::{BigFloat, Num};

verus! {

#[derive(Debug, Clone, Copy, PartialEq, Eq, Structural)]
pub enum UnitCategory {
    Weight,
    Length,
    Temperature,
}

pub open spec fn category_name(c: UnitCategory) -> Seq<char> {
    match c {
        UnitCategory::Weight => "weight"@,
        UnitCategory::Length => "length"@,
        UnitCategory::Temperature => "temperature"@,
    }
}

impl UnitCategory {
    pub fn name(&self) -> (r: &'static str)
        ensures
            r@ == category_name(*self),
    {
        match self {
            UnitCategory::Weight => "weight",
            UnitCategory::Length => "length",
            UnitCategory::Temperature => "temperature",
        }
    }
}

/// A physical unit. Linear units have a `to_base` scale factor as an exact
/// decimal string; temperature uses None and is handled by affine conversion.
#[derive(Debug, Clone, Copy)]
pub struct Unit {
    pub abbrev: &'static str,
    /// Display abbreviation (may differ from abbrev for aliases).
    pub display: &'static str,
    pub category: UnitCategory,
    /// Scale factor to base unit as exact decimal string. None for temperature (affine).
    pub to_base: Option<&'static str>,
}

/// The mathematical content of a [`Unit`].
pub struct UnitModel {
    pub abbrev: Seq<char>,
    pub display: Seq<char>,
    pub category: UnitCategory,
    pub to_base: Option<Seq<char>>,
}

impl View for Unit {
    type V = UnitModel;

    open spec fn view(&self) -> UnitModel {
        UnitModel {
            abbrev: self.abbrev@,
            display: self.display@,
            category: self.category,
            to_base: match self.to_base {
                Some(s) => Some(s@),
                None => None,
            },
        }
    }
}

pub open spec fn unit_model(
    abbrev: Seq<char>,
    display: Seq<char>,
    category: UnitCategory,
    to_base: Option<Seq<char>>,
) -> UnitModel {
    UnitModel { abbrev, display, category, to_base }
}

/// All recognised units, in lookup order. Weight is based on kg, length on
/// m; temperatures convert affinely. The ASCII aliases `F`, `C`, `degF`,
/// `degC` display as their canonical forms.
pub open spec fn unit_table() -> Seq<UnitModel> {
    seq![
        unit_model("oz"@, "oz"@, UnitCategory::Weight, Some("0.028349523125"@)),
        unit_model("lb"@, "lb"@, UnitCategory::Weight, Some("0.45359237"@)),
        unit_model("g"@, "g"@, UnitCategory::Weight, Some("0.001"@)),
        unit_model("kg"@, "kg"@, UnitCategory::Weight, Some("1"@)),
        unit_model("mm"@, "mm"@, UnitCategory::Length, Some("0.001"@)),
        unit_model("cm"@, "cm"@, UnitCategory::Length, Some("0.01"@)),
        unit_model("m"@, "m"@, UnitCategory::Length, Some("1"@)),
        unit_model("km"@, "km"@, UnitCategory::Length, Some("1000"@)),
        unit_model("in"@, "in"@, UnitCategory::Length, Some("0.0254"@)),
        unit_model("ft"@, "ft"@, UnitCategory::Length, Some("0.3048"@)),
        unit_model("yd"@, "yd"@, UnitCategory::Length, Some("0.9144"@)),
        unit_model("mi"@, "mi"@, UnitCategory::Length, Some("1609.344"@)),
        unit_model("°F"@, "°F"@, UnitCategory::Temperature, None),
        unit_model("°C"@, "°C"@, UnitCategory::Temperature, None),
        unit_model("F"@, "°F"@, UnitCategory::Temperature, None),
        unit_model("C"@, "°C"@, UnitCategory::Temperature, None),
        unit_model("degF"@, "°F"@, UnitCategory::Temperature, None),
        unit_model("degC"@, "°C"@, UnitCategory::Temperature, None),
    ]
}

fn linear(abbrev: &'static str, category: UnitCategory, to_base: &'static str) -> (r: Unit)
    ensures
        r@ == unit_model(abbrev@, abbrev@, category, Some(to_base@)),
{
    Unit { abbrev, display: abbrev, category, to_base: Some(to_base) }
}

fn temperature(abbrev: &'static str, display: &'static str) -> (r: Unit)
    ensures
        r@ == unit_model(abbrev@, display@, UnitCategory::Temperature, None),
{
    Unit { abbrev, display, category: UnitCategory::Temperature, to_base: None }
}

pub open spec fn units_model(v: Seq<Unit>) -> Seq<UnitModel> {
    v.map_values(|u: Unit| u@)
}

/// The table of units.
pub fn units() -> (r: Vec<Unit>)
    ensures
        units_model(r@) == unit_table(),
{
    let mut v: Vec<Unit> = Vec::new();
    v.push(linear("oz", UnitCategory::Weight, "0.028349523125"));
    v.push(linear("lb", UnitCategory::Weight, "0.45359237"));
    v.push(linear("g", UnitCategory::Weight, "0.001"));
    v.push(linear("kg", UnitCategory::Weight, "1"));
    v.push(linear("mm", UnitCategory::Length, "0.001"));
    v.push(linear("cm", UnitCategory::Length, "0.01"));
    v.push(linear("m", UnitCategory::Length, "1"));
    v.push(linear("km", UnitCategory::Length, "1000"));
    v.push(linear("in", UnitCategory::Length, "0.0254"));
    v.push(linear("ft", UnitCategory::Length, "0.3048"));
    v.push(linear("yd", UnitCategory::Length, "0.9144"));
    v.push(linear("mi", UnitCategory::Length, "1609.344"));
    v.push(temperature("°F", "°F"));
    v.push(temperature("°C", "°C"));
    v.push(temperature("F", "°F"));
    v.push(temperature("C", "°C"));
    v.push(temperature("degF", "°F"));
    v.push(temperature("degC", "°C"));
    assert(units_model(v@) =~= unit_table());
    v
}

/// The first unit of `t` with abbreviation `a`.
pub open spec fn find_unit(t: Seq<UnitModel>, a: Seq<char>) -> Option<UnitModel>
    decreases t.len(),
{
    if t.len() == 0 {
        None
    } else if t[0].abbrev == a {
        Some(t[0])
    } else {
        find_unit(t.drop_first(), a)
    }
}

/// Text equality.
pub fn str_eq(a: &str, b: &str) -> (r: bool)
    ensures
        r == (a@ == b@),
{
    let x = chars_of(a);
    let y = chars_of(b);
    if x.len() != y.len() {
        return false;
    }
    let n = x.len();
    for i in 0..n
        invariant
            n == x@.len(),
            n == y@.len(),
            x@ == a@,
            y@ == b@,
            forall|j: int| 0 <= j < i ==> x@[j] == y@[j],
    {
        if x[i] != y[i] {
            return false;
        }
    }
    assert(x@ =~= y@);
    true
}

/// Look up a unit by abbreviation (case-sensitive). Returns the first match.
pub fn lookup_unit(abbrev: &str) -> (r: Option<Unit>)
    ensures
        (match r {
            Some(u) => Some(u@),
            None => None,
        }) == find_unit(unit_table(), abbrev@),
{
    let table = units();
    let n = table.len();
    assert(unit_table().skip(0) =~= unit_table());
    for i in 0..n
        invariant
            n == table@.len(),
            units_model(table@) == unit_table(),
            find_unit(unit_table(), abbrev@) == find_unit(unit_table().skip(i as int), abbrev@),
    {
        let u = table[i];
        assert(unit_table().skip(i as int).drop_first() =~= unit_table().skip(i + 1));
        assert(unit_table().skip(i as int)[0] == u@);
        if str_eq(u.abbrev, abbrev) {
            return Some(u);
        }
    }
    assert(unit_table().skip(n as int).len() == 0);
    None
}

/// The display form of a unit abbreviation: that of the unit it names, or
/// the text itself when it names no unit.
pub open spec fn display_of(a: Seq<char>) -> Seq<char> {
    match find_unit(unit_table(), a) {
        Some(u) => u.display,
        None => a,
    }
}

/// Canonical display abbreviation for a given abbreviation string.
/// Returns `abbrev` unchanged if not found.
pub fn canonical_display<'a>(abbrev: &'a str) -> (r: &'a str)
    ensures
        r@ == display_of(abbrev@),
{
    match lookup_unit(abbrev) {
        Some(u) => u.display,
        None => abbrev,
    }
}

/// How a conversion between two units goes.
pub enum PlanModel {
    /// The amount is unchanged.
    Identity,
    /// Multiply by the first scale factor, then divide by the second.
    Linear(Seq<char>, Seq<char>),
    /// The affine formula between two temperature scales, by display form.
    Temperature(Seq<char>, Seq<char>),
}

/// How an amount in `from` becomes one in `to`: refused across categories,
/// unchanged between the same unit or the same display form, otherwise by
/// the scale factors (linear units) or the formula between the display
/// forms (temperatures).
pub open spec fn plan_spec(from: UnitModel, to: UnitModel) -> Result<PlanModel, ErrorModel> {
    if from.category != to.category {
        Err(
            ErrorModel::IncompatibleUnits(
                "cannot convert "@ + category_name(from.category) + " to "@ + category_name(
                    to.category,
                ),
            ),
        )
    } else if from.abbrev == to.abbrev || from.display == to.display {
        Ok(PlanModel::Identity)
    } else if from.category == UnitCategory::Temperature {
        Ok(PlanModel::Temperature(from.display, to.display))
    } else {
        Ok(PlanModel::Linear(from.to_base.unwrap(), to.to_base.unwrap()))
    }
}

/// `i` is the position of the first decimal point of `s`.
pub open spec fn is_first_point(s: Seq<char>, i: int) -> bool {
    &&& 0 <= i < s.len()
    &&& s[i] == '.'
    &&& forall|j: int| 0 <= j < i ==> s[j] != '.'
}

/// The characters of a decimal before its first point (all of them when it
/// has none).
pub open spec fn whole_digits(s: Seq<char>) -> Seq<char> {
    if exists|i: int| is_first_point(s, i) {
        s.take(choose|i: int| is_first_point(s, i))
    } else {
        s
    }
}

/// The characters of a decimal after its first point (none when it has
/// none).
pub open spec fn fraction_digits(s: Seq<char>) -> Seq<char> {
    if exists|i: int| is_first_point(s, i) {
        s.skip((choose|i: int| is_first_point(s, i)) + 1)
    } else {
        Seq::empty()
    }
}

/// A decimal with its first point left out.
pub open spec fn scale_digits(s: Seq<char>) -> Seq<char> {
    whole_digits(s) + fraction_digits(s)
}

/// The longest scale factor that is read: one character for every 2048
/// of the size limit of float operands.
pub open spec fn scale_length_limit() -> int {
    size_limit() / 2048
}

/// A scale factor that can be read: with the point left out it is an
/// integer, and its length keeps the floats made from it within the size
/// limit.
pub open spec fn readable_scale(s: Seq<char>) -> bool {
    &&& s.len() <= scale_length_limit()
    &&& parse_radix(scale_digits(s), 10) is Some
}

/// The integer a scale factor reads as, its point left out.
pub open spec fn scale_integer(s: Seq<char>) -> int {
    parse_radix(scale_digits(s), 10).unwrap()
}

/// An integer rounded to a float of 128 bits.
pub open spec fn float_int(n: int) -> Num {
    rounded_int(128, n)
}

/// The scale factor `s` as a float of 128 bits: its integer, divided by ten
/// to the number of fraction digits when there are any, each rounded to
/// 128 bits.
pub open spec fn scale_value(s: Seq<char>) -> Num {
    let places = fraction_digits(s).len();
    if places == 0 {
        float_int(scale_integer(s))
    } else {
        rounded_quotient(128, float_int(scale_integer(s)), float_int(pow(10, places)))
    }
}

/// The size that a scale factor read as a float stays within.
pub open spec fn scale_size_limit() -> int {
    size_limit() / 8
}

/// The size of an amount on which a conversion does arithmetic: small
/// enough that every intermediate float stays within the size limit.
pub open spec fn amount_limit() -> int {
    size_limit() / 64
}

/// The pairs of display forms between which a temperature formula applies.
pub open spec fn temperature_formula(from: Seq<char>, to: Seq<char>) -> bool {
    (from == "°F"@ && to == "°C"@) || (from == "°C"@ && to == "°F"@)
}

/// A conversion that does arithmetic on the amount (rather than refusing
/// it or returning it as it is).
pub open spec fn converts_by_arithmetic(from: UnitModel, to: UnitModel) -> bool {
    match plan_spec(from, to) {
        Ok(PlanModel::Linear(_, _)) => true,
        Ok(PlanModel::Temperature(f, t)) => temperature_formula(f, t),
        _ => false,
    }
}

/// A conversion of a tagged value to `target` that does arithmetic on the
/// amount.
pub open spec fn tagged_converts_by_arithmetic(unit: Seq<char>, target: Seq<char>) -> bool {
    match find_unit(unit_table(), unit) {
        Some(from) => match find_unit(unit_table(), display_of(target)) {
            Some(to) => converts_by_arithmetic(from, to),
            None => false,
        },
        None => false,
    }
}

/// The affine formulas between Fahrenheit and Celsius; the amount is kept
/// for any other pair of display forms.
pub open spec fn temperature_spec(a: Num, from: Seq<char>, to: Seq<char>) -> Num {
    if from == "°F"@ && to == "°C"@ {
        float_quotient(
            float_product(float_difference(a, float_int(32)), float_int(5)),
            float_int(9),
        )
    } else if from == "°C"@ && to == "°F"@ {
        float_sum(float_quotient(float_product(a, float_int(9)), float_int(5)), float_int(32))
    } else {
        a
    }
}

/// An amount in `from` converted to `to`: the plan's arithmetic on floats.
pub open spec fn convert_spec(amount: Num, from: UnitModel, to: UnitModel) -> Result<
    Num,
    ErrorModel,
> {
    match plan_spec(from, to) {
        Err(e) => Err(e),
        Ok(PlanModel::Identity) => Ok(amount),
        Ok(PlanModel::Temperature(f, t)) => Ok(temperature_spec(amount, f, t)),
        Ok(PlanModel::Linear(fs, ts)) => Ok(
            float_quotient(float_product(amount, scale_value(fs)), scale_value(ts)),
        ),
    }
}

/// Units whose conversion can be carried out: a linear conversion needs
/// both scale factors, readable, and a target factor that is not zero.
pub open spec fn convertible(from: UnitModel, to: UnitModel) -> bool {
    match plan_spec(from, to) {
        Ok(PlanModel::Linear(_, _)) => {
            &&& from.to_base matches Some(fs) && readable_scale(fs)
            &&& to.to_base matches Some(ts) && readable_scale(ts) && scale_integer(ts) != 0
        },
        _ => true,
    }
}

proof fn lemma_point_split(s: Seq<char>, i: int)
    requires
        is_first_point(s, i),
    ensures
        whole_digits(s) == s.take(i),
        fraction_digits(s) == s.skip(i + 1),
{
    let k = choose|k: int| is_first_point(s, k);
    assert(is_first_point(s, k));
    if k < i {
        assert(s[k] != '.');
    } else if k > i {
        assert(s[i] != '.');
    }
}

proof fn lemma_no_point(s: Seq<char>)
    requires
        forall|j: int| 0 <= j < s.len() ==> s[j] != '.',
    ensures
        whole_digits(s) == s,
        fraction_digits(s) == Seq::<char>::empty(),
{
}

proof fn lemma_digits_value_nonneg(c: Seq<char>)
    ensures
        digits_value(c, 10) >= 0,
    decreases c.len(),
{
    if c.len() > 0 {
        lemma_digits_value_nonneg(c.drop_last());
    }
}

/// `n` decimal digits take at most `4 n` bits.
proof fn lemma_digits_value_bits(c: Seq<char>)
    requires
        all_digits(c, 10),
    ensures
        bit_len(digits_value(c, 10) as nat) <= 4 * c.len(),
    decreases c.len(),
{
    lemma_digits_value_nonneg(c);
    if c.len() > 0 {
        let init = c.drop_last();
        assert(all_digits(init, 10)) by {
            assert forall|i: int| 0 <= i < init.len() implies #[trigger] digit_value(init[i]) < 10 by {
                assert(init[i] == c[i]);
            }
        }
        lemma_digits_value_bits(init);
        lemma_digits_value_nonneg(init);
        assert(digit_value(c[c.len() - 1]) < 10);
        assert(digit_value(c.last()) >= 0);
        lemma_bit_len_decimal_step(digits_value(init, 10) as nat, digit_value(c.last()) as nat);
    }
}

/// A digit other than zero makes the value positive.
proof fn lemma_digits_value_positive(c: Seq<char>, j: int)
    requires
        all_digits(c, 10),
        0 <= j < c.len(),
        '1' <= c[j] <= '9',
    ensures
        digits_value(c, 10) > 0,
    decreases c.len(),
{
    let init = c.drop_last();
    lemma_digits_value_nonneg(init);
    if j < c.len() - 1 {
        assert(all_digits(init, 10)) by {
            assert forall|i: int| 0 <= i < init.len() implies #[trigger] digit_value(init[i]) < 10 by {
                assert(init[i] == c[i]);
            }
        }
        assert(init[j] == c[j]);
        lemma_digits_value_positive(init, j);
        assert(digit_value(c[c.len() - 1]) < 10);
    }
}

/// Ten to the power `k` takes at most `4 k + 1` bits.
proof fn lemma_pow10_bits(k: nat)
    ensures
        pow(10, k) >= 1,
        bit_len(pow(10, k) as nat) <= 4 * k + 1,
    decreases k,
{
    reveal(pow);
    if k == 0 {
        assert(bit_len(0) == 0);
        assert(bit_len(1) == 1 + bit_len(0));
    } else {
        lemma_pow10_bits((k - 1) as nat);
        let x = pow(10, (k - 1) as nat);
        assert(pow(10, k) == 10 * x);
        lemma_bit_len_decimal_step(x as nat, 0);
    }
}

/// What reading a scale factor needs: bounded sizes of its integer and of
/// its count of fraction digits, and the characters read being free of
/// digit separators.
proof fn lemma_readable_scale(s: Seq<char>)
    requires
        readable_scale(s),
    ensures
        bit_len(magnitude(scale_integer(s))) <= 4 * scale_length_limit(),
        fraction_digits(s).len() <= scale_length_limit(),
        forall|i: int| 0 <= i < scale_digits(s).len() ==> scale_digits(s)[i] != '_',
{
    let c = scale_digits(s);
    if exists|i: int| is_first_point(s, i) {
        let i = choose|i: int| is_first_point(s, i);
        lemma_point_split(s, i);
    }
    assert(c.len() <= s.len());
    let body = if c.len() > 0 && (c[0] == '-' || c[0] == '+') {
        c.drop_first()
    } else {
        c
    };
    assert(all_digits(body, 10));
    lemma_digits_value_bits(body);
    lemma_digits_value_nonneg(body);
    assert(magnitude(scale_integer(s)) == digits_value(body, 10));
    assert forall|i: int| 0 <= i < c.len() implies c[i] != '_' by {
        if body.len() < c.len() {
            if i > 0 {
                assert(body[i - 1] == c[i]);
                assert(digit_value(body[i - 1]) < 10);
            }
        } else {
            assert(digit_value(body[i]) < 10);
        }
    }
}

/// A constant scale factor: digits, with a point at `point` or none
/// (`point` past the end), and a digit other than zero.
proof fn lemma_scale_constant(s: Seq<char>, point: int, nonzero: int)
    requires
        s.len() <= scale_length_limit(),
        point == s.len() || (0 <= point < s.len() && s[point] == '.'),
        forall|j: int| 0 <= j < s.len() && j != point ==> '0' <= #[trigger] s[j] <= '9',
        0 <= nonzero < s.len(),
        nonzero != point,
        '1' <= s[nonzero] <= '9',
    ensures
        readable_scale(s),
        scale_integer(s) > 0,
        scale_integer(s) == digits_value(scale_digits(s), 10),
        point < s.len() ==> scale_digits(s) == s.take(point) + s.skip(point + 1)
            && fraction_digits(s).len() == s.len() - point - 1,
        point == s.len() ==> scale_digits(s) == s && fraction_digits(s).len() == 0,
{
    let c = scale_digits(s);
    if point < s.len() {
        assert(is_first_point(s, point));
        lemma_point_split(s, point);
        assert(c == s.take(point) + s.skip(point + 1));
        assert forall|i: int| 0 <= i < c.len() implies #[trigger] digit_value(c[i]) < 10 by {
            if i < point {
                assert(c[i] == s[i]);
            } else {
                assert(c[i] == s[i + 1]);
            }
        }
        let k = if nonzero < point {
            nonzero
        } else {
            nonzero - 1
        };
        assert(c[k] == s[nonzero]);
        lemma_digits_value_positive(c, k);
    } else {
        lemma_no_point(s);
        assert(c =~= s);
        assert forall|i: int| 0 <= i < c.len() implies #[trigger] digit_value(c[i]) < 10 by {
            assert(c[i] == s[i]);
        }
        lemma_digits_value_positive(c, nonzero);
    }
    assert(c[0] != '-' && c[0] != '+') by {
        assert(digit_value(c[0]) < 10);
    }
}

/// An exact decimal scale factor (e.g. "0.3048") as a float of 128 bits,
/// without passing through a double: its digits, the point left out, read
/// as an integer and divided by the matching power of ten.
pub fn parse_scale(s: &str) -> (r: BigFloat)
    requires
        readable_scale(s@),
    ensures
        r.significand.wf(),
        r@ == scale_value(s@),
        r.precision == 128,
        float_size(r) <= scale_size_limit(),
        scale_integer(s@) != 0 ==> r.significand@ != 0,
{
    let chars = chars_of(s);
    let n = chars.len();
    let mut i: usize = 0;
    while i < n && chars[i] != '.'
        invariant
            n == chars@.len(),
            chars@ == s@,
            i <= n,
            forall|j: int| 0 <= j < i ==> chars@[j] != '.',
        decreases n - i,
    {
        i = i + 1;
    }
    let mut combined: Vec<char> = Vec::new();
    for j in 0..i
        invariant
            n == chars@.len(),
            chars@ == s@,
            i <= n,
            combined@ == s@.take(j as int),
    {
        combined.push(chars[j]);
        assert(combined@ =~= s@.take(j + 1));
    }
    let mut places: usize = 0;
    if i < n {
        let mut j: usize = i + 1;
        while j < n
            invariant
                n == chars@.len(),
                chars@ == s@,
                i < n,
                i + 1 <= j <= n,
                places == j - (i + 1),
                combined@ == s@.take(i as int) + s@.subrange(i + 1, j as int),
            decreases n - j,
        {
            combined.push(chars[j]);
            assert(combined@ =~= s@.take(i as int) + s@.subrange(i + 1, j + 1));
            j = j + 1;
            places = places + 1;
        }
        proof {
            assert(is_first_point(s@, i as int));
            lemma_point_split(s@, i as int);
            assert(combined@ =~= scale_digits(s@));
        }
    } else {
        proof {
            lemma_no_point(s@);
            assert(combined@ =~= scale_digits(s@));
        }
    }
    proof {
        lemma_readable_scale(s@);
    }
    let significand = int_from_str_radix(combined.as_slice(), 10).unwrap();
    let num = float_of_int(128, &significand);
    if places == 0 {
        num
    } else {
        proof {
            lemma_pow10_bits(places as nat);
        }
        let den = float_of_int(128, &int_pow(&int_from_u64(10), places));
        rounded_div(128, &num, &den)
    }
}

/// The scale factors of the table can be read, and none is zero.
proof fn lemma_table_scale(k: int)
    requires
        0 <= k < 12,
    ensures
        unit_table()[k].to_base matches Some(s) && readable_scale(s) && scale_integer(s) != 0,
{
    if k == 0 {
        reveal_strlit("0.028349523125");
        lemma_scale_constant("0.028349523125"@, 1, 3);
    } else if k == 1 {
        reveal_strlit("0.45359237");
        lemma_scale_constant("0.45359237"@, 1, 2);
    } else if k == 2 || k == 4 {
        reveal_strlit("0.001");
        lemma_scale_constant("0.001"@, 1, 4);
    } else if k == 3 || k == 6 {
        reveal_strlit("1");
        lemma_scale_constant("1"@, 1, 0);
    } else if k == 5 {
        reveal_strlit("0.01");
        lemma_scale_constant("0.01"@, 1, 3);
    } else if k == 7 {
        reveal_strlit("1000");
        lemma_scale_constant("1000"@, 4, 0);
    } else if k == 8 {
        reveal_strlit("0.0254");
        lemma_scale_constant("0.0254"@, 1, 3);
    } else if k == 9 {
        reveal_strlit("0.3048");
        lemma_scale_constant("0.3048"@, 1, 2);
    } else if k == 10 {
        reveal_strlit("0.9144");
        lemma_scale_constant("0.9144"@, 1, 2);
    } else {
        reveal_strlit("1609.344");
        lemma_scale_constant("1609.344"@, 4, 0);
    }
}

/// Any two units of the table meet what `convert` needs of its units.
pub proof fn lemma_table_convertible(i: int, k: int)
    requires
        0 <= i < unit_table().len(),
        0 <= k < unit_table().len(),
    ensures
        convertible(unit_table()[i], unit_table()[k]),
{
    let from = unit_table()[i];
    let to = unit_table()[k];
    if plan_spec(from, to) matches Ok(PlanModel::Linear(_, _)) {
        assert(from.category != UnitCategory::Temperature);
        assert(i < 12);
        assert(k < 12);
        lemma_table_scale(i);
        lemma_table_scale(k);
    }
}

/// Between units of the table, a conversion is refused exactly when the
/// two are of different categories, and then with `IncompatibleUnits`.
pub proof fn law_convert_refuses_across_categories(amount: Num, i: int, k: int)
    requires
        0 <= i < unit_table().len(),
        0 <= k < unit_table().len(),
    ensures
        convertible(unit_table()[i], unit_table()[k]),
        (convert_spec(amount, unit_table()[i], unit_table()[k]) is Err) == (unit_table()[i].category
            != unit_table()[k].category),
        convert_spec(amount, unit_table()[i], unit_table()[k]) matches Err(e) ==> e
            is IncompatibleUnits,
{
    lemma_table_convertible(i, k);
}

/// The exact value of a unit's scale factor as a fraction, the point put
/// back: its integer over ten to the number of its fraction digits.
pub open spec fn scale_fraction(u: UnitModel) -> (int, int) {
    let s = u.to_base.unwrap();
    (scale_integer(s), pow(10, fraction_digits(s).len()))
}

/// `a` is `num / den` times `b`, exactly, by their scale factors.
pub open spec fn scaled_as(a: UnitModel, b: UnitModel, num: int, den: int) -> bool {
    &&& a.to_base is Some
    &&& b.to_base is Some
    &&& a.category == b.category
    &&& scale_fraction(a).0 * scale_fraction(b).1 * den == scale_fraction(b).0 * scale_fraction(
        a,
    ).1 * num
}

/// The unit an abbreviation names.
pub open spec fn unit_named(a: Seq<char>) -> UnitModel {
    find_unit(unit_table(), a).unwrap()
}

proof fn lemma_scale_text_0()
    ensures
        ({
            let s = "0.028349523125"@;
            scale_integer(s) == 28349523125int && pow(10, fraction_digits(s).len()) == 1000000000000int
        }),
{
    reveal_strlit("0.028349523125");
    let s = "0.028349523125"@;
    lemma_scale_constant(s, 1, 3);
    let c = seq!['0', '0', '2', '8', '3', '4', '9', '5', '2', '3', '1', '2', '5'];
    assert(scale_digits(s) =~= c);
    assert(digits_value(c, 10) == 28349523125int) by {
        reveal_with_fuel(digits_value, 14);
    }
    assert(pow(10, 12) == 1000000000000int) by {
        reveal_with_fuel(pow, 13);
    }
}

proof fn lemma_scale_text_1()
    ensures
        ({
            let s = "0.45359237"@;
            scale_integer(s) == 45359237int && pow(10, fraction_digits(s).len()) == 100000000int
        }),
{
    reveal_strlit("0.45359237");
    let s = "0.45359237"@;
    lemma_scale_constant(s, 1, 2);
    let c = seq!['0', '4', '5', '3', '5', '9', '2', '3', '7'];
    assert(scale_digits(s) =~= c);
    assert(digits_value(c, 10) == 45359237int) by {
        reveal_with_fuel(digits_value, 10);
    }
    assert(pow(10, 8) == 100000000int) by {
        reveal_with_fuel(pow, 9);
    }
}

proof fn lemma_scale_text_2()
    ensures
        ({
            let s = "0.001"@;
            scale_integer(s) == 1int && pow(10, fraction_digits(s).len()) == 1000int
        }),
{
    reveal_strlit("0.001");
    let s = "0.001"@;
    lemma_scale_constant(s, 1, 4);
    let c = seq!['0', '0', '0', '1'];
    assert(scale_digits(s) =~= c);
    assert(digits_value(c, 10) == 1int) by {
        reveal_with_fuel(digits_value, 5);
    }
    assert(pow(10, 3) == 1000int) by {
        reveal_with_fuel(pow, 4);
    }
}

proof fn lemma_scale_text_3()
    ensures
        ({
            let s = "1"@;
            scale_integer(s) == 1int && pow(10, fraction_digits(s).len()) == 1int
        }),
{
    reveal_strlit("1");
    let s = "1"@;
    lemma_scale_constant(s, 1, 0);
    let c = seq!['1'];
    assert(scale_digits(s) =~= c);
    assert(digits_value(c, 10) == 1int) by {
        reveal_with_fuel(digits_value, 2);
    }
    assert(pow(10, 0) == 1int) by {
        reveal_with_fuel(pow, 1);
    }
}

proof fn lemma_scale_text_5()
    ensures
        ({
            let s = "0.01"@;
            scale_integer(s) == 1int && pow(10, fraction_digits(s).len()) == 100int
        }),
{
    reveal_strlit("0.01");
    let s = "0.01"@;
    lemma_scale_constant(s, 1, 3);
    let c = seq!['0', '0', '1'];
    assert(scale_digits(s) =~= c);
    assert(digits_value(c, 10) == 1int) by {
        reveal_with_fuel(digits_value, 4);
    }
    assert(pow(10, 2) == 100int) by {
        reveal_with_fuel(pow, 3);
    }
}

proof fn lemma_scale_text_7()
    ensures
        ({
            let s = "1000"@;
            scale_integer(s) == 1000int && pow(10, fraction_digits(s).len()) == 1int
        }),
{
    reveal_strlit("1000");
    let s = "1000"@;
    lemma_scale_constant(s, 4, 0);
    let c = seq!['1', '0', '0', '0'];
    assert(scale_digits(s) =~= c);
    assert(digits_value(c, 10) == 1000int) by {
        reveal_with_fuel(digits_value, 5);
    }
    assert(pow(10, 0) == 1int) by {
        reveal_with_fuel(pow, 1);
    }
}

proof fn lemma_scale_text_8()
    ensures
        ({
            let s = "0.0254"@;
            scale_integer(s) == 254int && pow(10, fraction_digits(s).len()) == 10000int
        }),
{
    reveal_strlit("0.0254");
    let s = "0.0254"@;
    lemma_scale_constant(s, 1, 3);
    let c = seq!['0', '0', '2', '5', '4'];
    assert(scale_digits(s) =~= c);
    assert(digits_value(c, 10) == 254int) by {
        reveal_with_fuel(digits_value, 6);
    }
    assert(pow(10, 4) == 10000int) by {
        reveal_with_fuel(pow, 5);
    }
}

proof fn lemma_scale_text_9()
    ensures
        ({
            let s = "0.3048"@;
            scale_integer(s) == 3048int && pow(10, fraction_digits(s).len()) == 10000int
        }),
{
    reveal_strlit("0.3048");
    let s = "0.3048"@;
    lemma_scale_constant(s, 1, 2);
    let c = seq!['0', '3', '0', '4', '8'];
    assert(scale_digits(s) =~= c);
    assert(digits_value(c, 10) == 3048int) by {
        reveal_with_fuel(digits_value, 6);
    }
    assert(pow(10, 4) == 10000int) by {
        reveal_with_fuel(pow, 5);
    }
}

proof fn lemma_scale_text_10()
    ensures
        ({
            let s = "0.9144"@;
            scale_integer(s) == 9144int && pow(10, fraction_digits(s).len()) == 10000int
        }),
{
    reveal_strlit("0.9144");
    let s = "0.9144"@;
    lemma_scale_constant(s, 1, 2);
    let c = seq!['0', '9', '1', '4', '4'];
    assert(scale_digits(s) =~= c);
    assert(digits_value(c, 10) == 9144int) by {
        reveal_with_fuel(digits_value, 6);
    }
    assert(pow(10, 4) == 10000int) by {
        reveal_with_fuel(pow, 5);
    }
}

proof fn lemma_scale_text_11()
    ensures
        ({
            let s = "1609.344"@;
            scale_integer(s) == 1609344int && pow(10, fraction_digits(s).len()) == 1000int
        }),
{
    reveal_strlit("1609.344");
    let s = "1609.344"@;
    lemma_scale_constant(s, 4, 0);
    let c = seq!['1', '6', '0', '9', '3', '4', '4'];
    assert(scale_digits(s) =~= c);
    assert(digits_value(c, 10) == 1609344int) by {
        reveal_with_fuel(digits_value, 8);
    }
    assert(pow(10, 3) == 1000int) by {
        reveal_with_fuel(pow, 4);
    }
}

/// The first unit of the table with abbreviation `a` is found.
proof fn lemma_find_first(t: Seq<UnitModel>, a: Seq<char>, k: int)
    requires
        0 <= k < t.len(),
        t[k].abbrev == a,
        forall|j: int| 0 <= j < k ==> t[j].abbrev != a,
    ensures
        find_unit(t, a) == Some(t[k]),
    decreases k,
{
    if k > 0 {
        let r = t.drop_first();
        assert forall|j: int| 0 <= j < k - 1 implies r[j].abbrev != a by {
            assert(r[j] == t[j + 1]);
        }
        lemma_find_first(r, a, k - 1);
    }
}

proof fn lemma_named_oz()
    ensures
        unit_named("oz"@) == unit_table()[0],
{
    lemma_find_first(unit_table(), "oz"@, 0);
}

proof fn lemma_named_lb()
    ensures
        unit_named("lb"@) == unit_table()[1],
{
    reveal_strlit("lb");
    assert forall|j: int| 0 <= j < 1 implies unit_table()[j].abbrev != "lb"@ by {
        if j == 0 {
            reveal_strlit("oz");
            assert("oz"@[0] != "lb"@[0]);
        }
    }
    lemma_find_first(unit_table(), "lb"@, 1);
}

proof fn lemma_named_g()
    ensures
        unit_named("g"@) == unit_table()[2],
{
    reveal_strlit("g");
    assert forall|j: int| 0 <= j < 2 implies unit_table()[j].abbrev != "g"@ by {
        if j == 0 {
            reveal_strlit("oz");
            assert("oz"@.len() != "g"@.len());
        }
        if j == 1 {
            reveal_strlit("lb");
            assert("lb"@.len() != "g"@.len());
        }
    }
    lemma_find_first(unit_table(), "g"@, 2);
}

proof fn lemma_named_kg()
    ensures
        unit_named("kg"@) == unit_table()[3],
{
    reveal_strlit("kg");
    assert forall|j: int| 0 <= j < 3 implies unit_table()[j].abbrev != "kg"@ by {
        if j == 0 {
            reveal_strlit("oz");
            assert("oz"@[0] != "kg"@[0]);
        }
        if j == 1 {
            reveal_strlit("lb");
            assert("lb"@[0] != "kg"@[0]);
        }
        if j == 2 {
            reveal_strlit("g");
            assert("g"@.len() != "kg"@.len());
        }
    }
    lemma_find_first(unit_table(), "kg"@, 3);
}

proof fn lemma_named_mm()
    ensures
        unit_named("mm"@) == unit_table()[4],
{
    reveal_strlit("mm");
    assert forall|j: int| 0 <= j < 4 implies unit_table()[j].abbrev != "mm"@ by {
        if j == 0 {
            reveal_strlit("oz");
            assert("oz"@[0] != "mm"@[0]);
        }
        if j == 1 {
            reveal_strlit("lb");
            assert("lb"@[0] != "mm"@[0]);
        }
        if j == 2 {
            reveal_strlit("g");
            assert("g"@.len() != "mm"@.len());
        }
        if j == 3 {
            reveal_strlit("kg");
            assert("kg"@[0] != "mm"@[0]);
        }
    }
    lemma_find_first(unit_table(), "mm"@, 4);
}

proof fn lemma_named_cm()
    ensures
        unit_named("cm"@) == unit_table()[5],
{
    reveal_strlit("cm");
    assert forall|j: int| 0 <= j < 5 implies unit_table()[j].abbrev != "cm"@ by {
        if j == 0 {
            reveal_strlit("oz");
            assert("oz"@[0] != "cm"@[0]);
        }
        if j == 1 {
            reveal_strlit("lb");
            assert("lb"@[0] != "cm"@[0]);
        }
        if j == 2 {
            reveal_strlit("g");
            assert("g"@.len() != "cm"@.len());
        }
        if j == 3 {
            reveal_strlit("kg");
            assert("kg"@[0] != "cm"@[0]);
        }
        if j == 4 {
            reveal_strlit("mm");
            assert("mm"@[0] != "cm"@[0]);
        }
    }
    lemma_find_first(unit_table(), "cm"@, 5);
}

proof fn lemma_named_m()
    ensures
        unit_named("m"@) == unit_table()[6],
{
    reveal_strlit("m");
    assert forall|j: int| 0 <= j < 6 implies unit_table()[j].abbrev != "m"@ by {
        if j == 0 {
            reveal_strlit("oz");
            assert("oz"@.len() != "m"@.len());
        }
        if j == 1 {
            reveal_strlit("lb");
            assert("lb"@.len() != "m"@.len());
        }
        if j == 2 {
            reveal_strlit("g");
            assert("g"@[0] != "m"@[0]);
        }
        if j == 3 {
            reveal_strlit("kg");
            assert("kg"@.len() != "m"@.len());
        }
        if j == 4 {
            reveal_strlit("mm");
            assert("mm"@.len() != "m"@.len());
        }
        if j == 5 {
            reveal_strlit("cm");
            assert("cm"@.len() != "m"@.len());
        }
    }
    lemma_find_first(unit_table(), "m"@, 6);
}

proof fn lemma_named_km()
    ensures
        unit_named("km"@) == unit_table()[7],
{
    reveal_strlit("km");
    assert forall|j: int| 0 <= j < 7 implies unit_table()[j].abbrev != "km"@ by {
        if j == 0 {
            reveal_strlit("oz");
            assert("oz"@[0] != "km"@[0]);
        }
        if j == 1 {
            reveal_strlit("lb");
            assert("lb"@[0] != "km"@[0]);
        }
        if j == 2 {
            reveal_strlit("g");
            assert("g"@.len() != "km"@.len());
        }
        if j == 3 {
            reveal_strlit("kg");
            assert("kg"@[1] != "km"@[1]);
        }
        if j == 4 {
            reveal_strlit("mm");
            assert("mm"@[0] != "km"@[0]);
        }
        if j == 5 {
            reveal_strlit("cm");
            assert("cm"@[0] != "km"@[0]);
        }
        if j == 6 {
            reveal_strlit("m");
            assert("m"@.len() != "km"@.len());
        }
    }
    lemma_find_first(unit_table(), "km"@, 7);
}

proof fn lemma_named_in()
    ensures
        unit_named("in"@) == unit_table()[8],
{
    reveal_strlit("in");
    assert forall|j: int| 0 <= j < 8 implies unit_table()[j].abbrev != "in"@ by {
        if j == 0 {
            reveal_strlit("oz");
            assert("oz"@[0] != "in"@[0]);
        }
        if j == 1 {
            reveal_strlit("lb");
            assert("lb"@[0] != "in"@[0]);
        }
        if j == 2 {
            reveal_strlit("g");
            assert("g"@.len() != "in"@.len());
        }
        if j == 3 {
            reveal_strlit("kg");
            assert("kg"@[0] != "in"@[0]);
        }
        if j == 4 {
            reveal_strlit("mm");
            assert("mm"@[0] != "in"@[0]);
        }
        if j == 5 {
            reveal_strlit("cm");
            assert("cm"@[0] != "in"@[0]);
        }
        if j == 6 {
            reveal_strlit("m");
            assert("m"@.len() != "in"@.len());
        }
        if j == 7 {
            reveal_strlit("km");
            assert("km"@[0] != "in"@[0]);
        }
    }
    lemma_find_first(unit_table(), "in"@, 8);
}

proof fn lemma_named_ft()
    ensures
        unit_named("ft"@) == unit_table()[9],
{
    reveal_strlit("ft");
    assert forall|j: int| 0 <= j < 9 implies unit_table()[j].abbrev != "ft"@ by {
        if j == 0 {
            reveal_strlit("oz");
            assert("oz"@[0] != "ft"@[0]);
        }
        if j == 1 {
            reveal_strlit("lb");
            assert("lb"@[0] != "ft"@[0]);
        }
        if j == 2 {
            reveal_strlit("g");
            assert("g"@.len() != "ft"@.len());
        }
        if j == 3 {
            reveal_strlit("kg");
            assert("kg"@[0] != "ft"@[0]);
        }
        if j == 4 {
            reveal_strlit("mm");
            assert("mm"@[0] != "ft"@[0]);
        }
        if j == 5 {
            reveal_strlit("cm");
            assert("cm"@[0] != "ft"@[0]);
        }
        if j == 6 {
            reveal_strlit("m");
            assert("m"@.len() != "ft"@.len());
        }
        if j == 7 {
            reveal_strlit("km");
            assert("km"@[0] != "ft"@[0]);
        }
        if j == 8 {
            reveal_strlit("in");
            assert("in"@[0] != "ft"@[0]);
        }
    }
    lemma_find_first(unit_table(), "ft"@, 9);
}

proof fn lemma_named_yd()
    ensures
        unit_named("yd"@) == unit_table()[10],
{
    reveal_strlit("yd");
    assert forall|j: int| 0 <= j < 10 implies unit_table()[j].abbrev != "yd"@ by {
        if j == 0 {
            reveal_strlit("oz");
            assert("oz"@[0] != "yd"@[0]);
        }
        if j == 1 {
            reveal_strlit("lb");
            assert("lb"@[0] != "yd"@[0]);
        }
        if j == 2 {
            reveal_strlit("g");
            assert("g"@.len() != "yd"@.len());
        }
        if j == 3 {
            reveal_strlit("kg");
            assert("kg"@[0] != "yd"@[0]);
        }
        if j == 4 {
            reveal_strlit("mm");
            assert("mm"@[0] != "yd"@[0]);
        }
        if j == 5 {
            reveal_strlit("cm");
            assert("cm"@[0] != "yd"@[0]);
        }
        if j == 6 {
            reveal_strlit("m");
            assert("m"@.len() != "yd"@.len());
        }
        if j == 7 {
            reveal_strlit("km");
            assert("km"@[0] != "yd"@[0]);
        }
        if j == 8 {
            reveal_strlit("in");
            assert("in"@[0] != "yd"@[0]);
        }
        if j == 9 {
            reveal_strlit("ft");
            assert("ft"@[0] != "yd"@[0]);
        }
    }
    lemma_find_first(unit_table(), "yd"@, 10);
}

proof fn lemma_named_mi()
    ensures
        unit_named("mi"@) == unit_table()[11],
{
    reveal_strlit("mi");
    assert forall|j: int| 0 <= j < 11 implies unit_table()[j].abbrev != "mi"@ by {
        if j == 0 {
            reveal_strlit("oz");
            assert("oz"@[0] != "mi"@[0]);
        }
        if j == 1 {
            reveal_strlit("lb");
            assert("lb"@[0] != "mi"@[0]);
        }
        if j == 2 {
            reveal_strlit("g");
            assert("g"@.len() != "mi"@.len());
        }
        if j == 3 {
            reveal_strlit("kg");
            assert("kg"@[0] != "mi"@[0]);
        }
        if j == 4 {
            reveal_strlit("mm");
            assert("mm"@[1] != "mi"@[1]);
        }
        if j == 5 {
            reveal_strlit("cm");
            assert("cm"@[0] != "mi"@[0]);
        }
        if j == 6 {
            reveal_strlit("m");
            assert("m"@.len() != "mi"@.len());
        }
        if j == 7 {
            reveal_strlit("km");
            assert("km"@[0] != "mi"@[0]);
        }
        if j == 8 {
            reveal_strlit("in");
            assert("in"@[0] != "mi"@[0]);
        }
        if j == 9 {
            reveal_strlit("ft");
            assert("ft"@[0] != "mi"@[0]);
        }
        if j == 10 {
            reveal_strlit("yd");
            assert("yd"@[0] != "mi"@[0]);
        }
    }
    lemma_find_first(unit_table(), "mi"@, 11);
}

/// The units stand in the ratios that define them: a gram is a thousandth
/// of a kilogram, a pound 0.45359237 kg and sixteen ounces; a millimetre is
/// a thousandth of a metre, a centimetre a hundredth, a kilometre a
/// thousand metres; an inch is 2.54 cm, a foot twelve inches, a yard three
/// feet and a mile 1760 yards. Exact, as the scale factors are read.
pub proof fn law_unit_definitions()
    ensures
        scaled_as(unit_named("g"@), unit_named("kg"@), 1, 1000),
        scaled_as(unit_named("lb"@), unit_named("kg"@), 45359237, 100000000),
        scaled_as(unit_named("oz"@), unit_named("lb"@), 1, 16),
        scaled_as(unit_named("mm"@), unit_named("m"@), 1, 1000),
        scaled_as(unit_named("cm"@), unit_named("m"@), 1, 100),
        scaled_as(unit_named("km"@), unit_named("m"@), 1000, 1),
        scaled_as(unit_named("in"@), unit_named("cm"@), 254, 100),
        scaled_as(unit_named("ft"@), unit_named("in"@), 12, 1),
        scaled_as(unit_named("yd"@), unit_named("ft"@), 3, 1),
        scaled_as(unit_named("mi"@), unit_named("yd"@), 1760, 1),
{
    lemma_named_oz();
    lemma_named_lb();
    lemma_named_g();
    lemma_named_kg();
    lemma_named_mm();
    lemma_named_cm();
    lemma_named_m();
    lemma_named_km();
    lemma_named_in();
    lemma_named_ft();
    lemma_named_yd();
    lemma_named_mi();
    lemma_scale_text_0();
    lemma_scale_text_1();
    lemma_scale_text_2();
    lemma_scale_text_3();
    lemma_scale_text_5();
    lemma_scale_text_7();
    lemma_scale_text_8();
    lemma_scale_text_9();
    lemma_scale_text_10();
    lemma_scale_text_11();
}

/// An integer as a float of 128 bits.
fn fbig_int(n: i64) -> (r: BigFloat)
    ensures
        r.significand.wf(),
        r@ == float_int(n as int),
        r.precision == 128,
        fits_precision(r),
        float_size(r) <= 1024,
        (r.significand@ == 0) == (n == 0),
{
    proof {
        lemma2_to64_rest();
        lemma_bit_len_below(magnitude(n as int), 64);
    }
    float_of_int(128, &int_from_i64(n))
}

/// The affine formulas between Fahrenheit and Celsius, by display form;
/// the amount is kept for any other pair.
fn convert_temperature(amount: BigFloat, from_display: &str, to_display: &str) -> (r: BigFloat)
    requires
        amount.significand.wf(),
        temperature_formula(from_display@, to_display@) ==> float_size(amount) <= amount_limit(),
    ensures
        r.significand.wf(),
        r@ == temperature_spec(amount@, from_display@, to_display@),
{
    if str_eq(from_display, "°F") && str_eq(to_display, "°C") {
        let difference = float_sub(&amount, &fbig_int(32));
        let scaled = float_mul(&difference, &fbig_int(5));
        float_div(&scaled, &fbig_int(9))
    } else if str_eq(from_display, "°C") && str_eq(to_display, "°F") {
        let scaled = float_mul(&amount, &fbig_int(9));
        let quotient = float_div(&scaled, &fbig_int(5));
        float_add(&quotient, &fbig_int(32))
    } else {
        amount
    }
}

/// Converts `amount` (in `from`) to the unit `to`: refused with
/// `IncompatibleUnits` across categories, unchanged between the same unit
/// (or the same display form), otherwise multiplied by the source's scale
/// factor and divided by the target's, or put through the temperature
/// formula, in floats of at least 128 bits.
pub fn convert(amount: BigFloat, from: &Unit, to: &Unit) -> (r: Result<BigFloat, CalcError>)
    requires
        convertible(from@, to@),
        amount.significand.wf(),
        converts_by_arithmetic(from@, to@) ==> float_size(amount) <= amount_limit(),
    ensures
        match r {
            Ok(x) => x.significand.wf() && convert_spec(amount@, from@, to@) == Ok::<
                Num,
                ErrorModel,
            >(x@),
            Err(e) => convert_spec(amount@, from@, to@) == Err::<Num, ErrorModel>(e@),
        },
{
    if from.category != to.category {
        let msg = String::from_str("cannot convert ").concat(from.category.name()).concat(
            " to ",
        ).concat(to.category.name());
        return Err(CalcError::IncompatibleUnits(msg));
    }
    if str_eq(from.abbrev, to.abbrev) || str_eq(from.display, to.display) {
        return Ok(amount);
    }
    match from.category {
        UnitCategory::Temperature => Ok(convert_temperature(amount, from.display, to.display)),
        _ => {
            let from_scale = parse_scale(from.to_base.unwrap());
            let to_scale = parse_scale(to.to_base.unwrap());
            let scaled = float_mul(&amount, &from_scale);
            Ok(float_div(&scaled, &to_scale))
        },
    }
}

/// A tagged value converted to the unit `target`: refused when its own unit
/// is unknown (`IncompatibleUnits`) or the target is (`InvalidInput`),
/// otherwise the converted amount tagged with the target's display form.
pub open spec fn convert_to_spec(amount: Num, unit: Seq<char>, target: Seq<char>) -> Result<
    (Num, Seq<char>),
    ErrorModel,
> {
    match find_unit(unit_table(), unit) {
        None => Err(ErrorModel::IncompatibleUnits("unknown unit: "@ + unit)),
        Some(from) => {
            let shown = display_of(target);
            match find_unit(unit_table(), shown) {
                None => Err(ErrorModel::InvalidInput("unknown unit: "@ + target)),
                Some(to) => match convert_spec(amount, from, to) {
                    Ok(x) => Ok((x, shown)),
                    Err(e) => Err(e),
                },
            }
        },
    }
}

/// A numeric value tagged with a physical unit.
#[derive(Debug, PartialEq)]
pub struct TaggedValue {
    /// The numeric amount in the named unit's scale.
    pub amount: BigFloat,
    /// Unit abbreviation, in its display form when the unit is known.
    pub unit: String,
}

impl TaggedValue {
    /// An amount tagged with `unit`, aliases replaced by their display form.
    pub fn new(amount: BigFloat, unit: &str) -> (r: TaggedValue)
        ensures
            r.amount == amount,
            r.unit@ == display_of(unit@),
    {
        TaggedValue { amount, unit: String::from_str(canonical_display(unit)) }
    }

    /// The unit definition, if the unit is known.
    pub fn unit_def(&self) -> (r: Option<Unit>)
        ensures
            (match r {
                Some(u) => Some(u@),
                None => None,
            }) == find_unit(unit_table(), self.unit@),
    {
        lookup_unit(self.unit.as_str())
    }

    /// Converts this value to the unit `target_abbrev` (an alias is taken
    /// for its display form, which tags the result). The value's own unit
    /// must be known (else `IncompatibleUnits`), so must the target (else
    /// `InvalidInput`), and both must be of one category.
    pub fn convert_to(&self, target_abbrev: &str) -> (r: Result<TaggedValue, CalcError>)
        requires
            self.amount.significand.wf(),
            tagged_converts_by_arithmetic(self.unit@, target_abbrev@) ==> float_size(self.amount)
                <= amount_limit(),
        ensures
            match r {
                Ok(t) => t.amount.significand.wf() && convert_to_spec(
                    self.amount@,
                    self.unit@,
                    target_abbrev@,
                ) == Ok::<(Num, Seq<char>), ErrorModel>((t.amount@, t.unit@)),
                Err(e) => convert_to_spec(self.amount@, self.unit@, target_abbrev@) == Err::<
                    (Num, Seq<char>),
                    ErrorModel,
                >(e@),
            },
    {
        let from = match self.unit_def() {
            Some(u) => u,
            None => {
                return Err(
                    CalcError::IncompatibleUnits(
                        String::from_str("unknown unit: ").concat(self.unit.as_str()),
                    ),
                );
            },
        };
        let target_display = canonical_display(target_abbrev);
        let to = match lookup_unit(target_display) {
            Some(u) => u,
            None => {
                return Err(
                    CalcError::InvalidInput(String::from_str("unknown unit: ").concat(target_abbrev)),
                );
            },
        };
        proof {
            lemma_find_unit_found(unit_table(), self.unit@);
            lemma_find_unit_found(unit_table(), target_display@);
            let i = choose|j: int|
                0 <= j < unit_table().len() && unit_table()[j] == from@ && from@.abbrev == self.unit@;
            let k = choose|j: int|
                0 <= j < unit_table().len() && unit_table()[j] == to@ && to@.abbrev
                    == target_display@;
            lemma_table_convertible(i, k);
        }
        match convert(self.amount.clone(), &from, &to) {
            Ok(amount) => Ok(TaggedValue { amount, unit: String::from_str(target_display) }),
            Err(e) => Err(e),
        }
    }
}

proof fn lemma_find_unit_found(t: Seq<UnitModel>, a: Seq<char>)
    ensures
        find_unit(t, a) matches Some(u) ==> exists|j: int| 0 <= j < t.len() && t[j] == u && u.abbrev == a,
        find_unit(t, a) is None ==> forall|j: int| 0 <= j < t.len() ==> t[j].abbrev != a,
    decreases t.len(),
{
    if t.len() > 0 && t[0].abbrev != a {
        lemma_find_unit_found(t.drop_first(), a);
        if let Some(u) = find_unit(t, a) {
            let j = choose|j: int| 0 <= j < t.drop_first().len() && t.drop_first()[j] == u && u.abbrev == a;
            assert(t[j + 1] == u);
        } else {
            assert forall|j: int| 0 <= j < t.len() implies t[j].abbrev != a by {
                if j > 0 {
                    assert(t[j] == t.drop_first()[j - 1]);
                }
            }
        }
    }
}

/// The display forms of the units.
spec fn is_display_form(s: Seq<char>) -> bool {
    ||| s == "oz"@
    ||| s == "lb"@
    ||| s == "g"@
    ||| s == "kg"@
    ||| s == "mm"@
    ||| s == "cm"@
    ||| s == "m"@
    ||| s == "km"@
    ||| s == "in"@
    ||| s == "ft"@
    ||| s == "yd"@
    ||| s == "mi"@
    ||| s == "°F"@
    ||| s == "°C"@
}

proof fn lemma_display_is_display_form(k: int)
    requires
        0 <= k < unit_table().len(),
    ensures
        is_display_form(unit_table()[k].display),
{
    if k == 0 {
    } else 
    if k == 1 {
    } else 
    if k == 2 {
    } else 
    if k == 3 {
    } else 
    if k == 4 {
    } else 
    if k == 5 {
    } else 
    if k == 6 {
    } else 
    if k == 7 {
    } else 
    if k == 8 {
    } else 
    if k == 9 {
    } else 
    if k == 10 {
    } else 
    if k == 11 {
    } else 
    if k == 12 {
    } else 
    if k == 13 {
    } else 
    if k == 14 {
    } else 
    if k == 15 {
    } else 
    if k == 16 {
    } else {
    }
}

proof fn lemma_alias_is_not_display_form(j: int)
    requires
        14 <= j < unit_table().len(),
    ensures
        !is_display_form(unit_table()[j].abbrev),
{
    reveal_strlit("oz");
    reveal_strlit("lb");
    reveal_strlit("g");
    reveal_strlit("kg");
    reveal_strlit("mm");
    reveal_strlit("cm");
    reveal_strlit("m");
    reveal_strlit("km");
    reveal_strlit("in");
    reveal_strlit("ft");
    reveal_strlit("yd");
    reveal_strlit("mi");
    reveal_strlit("°F");
    reveal_strlit("°C");
    reveal_strlit("F");
    reveal_strlit("C");
    reveal_strlit("degF");
    reveal_strlit("degC");
    assert("g"@[0] == 'g' && "m"@[0] == 'm');
    if j == 14 {
        assert("F"@[0] == 'F');
    } else if j == 15 {
        assert("C"@[0] == 'C');
    } else if j == 16 {
        assert("degF"@.len() == 4);
    } else {
        assert("degC"@.len() == 4);
    }
}

proof fn lemma_canonical_shows_itself(j: int)
    requires
        0 <= j < 14,
    ensures
        unit_table()[j].display == unit_table()[j].abbrev,
{
    if j == 0 {
    } else 
    if j == 1 {
    } else 
    if j == 2 {
    } else 
    if j == 3 {
    } else 
    if j == 4 {
    } else 
    if j == 5 {
    } else 
    if j == 6 {
    } else 
    if j == 7 {
    } else 
    if j == 8 {
    } else 
    if j == 9 {
    } else 
    if j == 10 {
    } else 
    if j == 11 {
    } else 
    if j == 12 {
    } else {
    }
}

/// Every unit whose abbreviation is the display form of some unit shows
/// itself as it is written.
proof fn lemma_display_forms_are_canonical(j: int, k: int)
    requires
        0 <= j < unit_table().len(),
        0 <= k < unit_table().len(),
        unit_table()[j].abbrev == unit_table()[k].display,
    ensures
        unit_table()[j].display == unit_table()[j].abbrev,
{
    lemma_display_is_display_form(k);
    if j >= 14 {
        lemma_alias_is_not_display_form(j);
    } else {
        lemma_canonical_shows_itself(j);
    }
}

/// A known unit's display form names a unit too, one that shows as it is
/// written.
proof fn lemma_display_known(a: Seq<char>)
    requires
        find_unit(unit_table(), a) is Some,
    ensures
        find_unit(unit_table(), display_of(a)) matches Some(v) && v.display == display_of(a)
            && v.category == find_unit(unit_table(), a).unwrap().category,
{
    let t = unit_table();
    lemma_find_unit_found(t, a);
    let u = find_unit(t, a).unwrap();
    let d = u.display;
    let k = choose|j: int| 0 <= j < t.len() && t[j] == u && u.abbrev == a;
    lemma_find_unit_found(t, d);
    reveal_strlit("°F");
    reveal_strlit("°C");
    assert(t[12].abbrev == t[12].display);
    assert(t[13].abbrev == t[13].display);
    if k < 14 {
        assert(t[k].abbrev == t[k].display);
    } else {
        assert(t[k].display == t[12].abbrev || t[k].display == t[13].abbrev);
    }
    assert(find_unit(t, d) is Some);
    let v = find_unit(t, d).unwrap();
    let j = choose|j: int| 0 <= j < t.len() && t[j] == v && v.abbrev == d;
    lemma_display_forms_are_canonical(j, k);
    if k < 14 {
        lemma_canonical_shows_itself(k);
    } else {
        lemma_temperature_forms(j);
    }
}

/// The units written `°F` or `°C` are temperatures.
proof fn lemma_temperature_forms(j: int)
    requires
        0 <= j < unit_table().len(),
        unit_table()[j].abbrev == "°F"@ || unit_table()[j].abbrev == "°C"@,
    ensures
        unit_table()[j].category == UnitCategory::Temperature,
{
    reveal_strlit("°F");
    reveal_strlit("°C");
    reveal_strlit("oz");
    reveal_strlit("lb");
    reveal_strlit("g");
    reveal_strlit("kg");
    reveal_strlit("mm");
    reveal_strlit("cm");
    reveal_strlit("m");
    reveal_strlit("km");
    reveal_strlit("in");
    reveal_strlit("ft");
    reveal_strlit("yd");
    reveal_strlit("mi");
    if j < 12 {
        assert(unit_table()[j].abbrev[0] != "°F"@[0]);
        assert(unit_table()[j].abbrev[0] != "°C"@[0]);
    }
}

/// The display form of an abbreviation is its own display form: aliases
/// resolve to canonical units in one step.
pub proof fn law_canonical_display_idempotent(a: Seq<char>)
    ensures
        display_of(display_of(a)) == display_of(a),
{
    if find_unit(unit_table(), a) is Some {
        lemma_display_known(a);
    }
}

/// Converting an amount between a unit and itself leaves it unchanged.
pub proof fn law_convert_to_same_unit(amount: Num, u: UnitModel)
    ensures
        convert_spec(amount, u, u) == Ok::<Num, ErrorModel>(amount),
{
}

/// A tagged value of a known unit, converted to that unit (or an alias of
/// it), keeps its amount and is tagged with the unit's display form.
pub proof fn law_convert_to_own_unit(amount: Num, unit: Seq<char>)
    requires
        find_unit(unit_table(), unit) is Some,
    ensures
        convert_to_spec(amount, unit, unit) == Ok::<(Num, Seq<char>), ErrorModel>(
            (amount, display_of(unit)),
        ),
{
    lemma_display_known(unit);
}

} // verus!
