//! Parsing of numbers typed by the user.
use vstd::prelude::*;
use crate::bigint::int_from_str_radix;
use crate::error::{CalcError, ErrorModel};
use crate::text::{
    chars_of, lemma_without_underscores_has_none, lemma_without_underscores_idempotent,
    lemma_without_underscores_none, all_digits, digit_value, digits_value,
    parse_radix, remove_underscores, string_of, without_underscores,
};
use crate::value::{CalcValue, Num};

verus! {

/// A parsed number: an integer value, or the text of a decimal fraction
/// (with `.` or an exponent), whose conversion to a binary float is done
/// outside the engine.
#[derive(Debug, PartialEq)]
pub enum Parsed {
    Number(CalcValue),
    FloatText(String),
}

/// The mathematical content of a [`Parsed`].
pub enum ParsedModel {
    Number(Num),
    FloatText(Seq<char>),
}

impl View for Parsed {
    type V = ParsedModel;

    open spec fn view(&self) -> ParsedModel {
        match self {
            Parsed::Number(v) => ParsedModel::Number(v@),
            Parsed::FloatText(s) => ParsedModel::FloatText(s@),
        }
    }
}

impl Parsed {
    pub open spec fn wf(&self) -> bool {
        match self {
            Parsed::Number(v) => v.wf(),
            Parsed::FloatText(_) => true,
        }
    }
}

/// The radix that a prefix letter selects (`x` 16, `o` 8, `b` 2, either
/// case); 0 for any other character.
pub open spec fn prefix_radix(c: char) -> int {
    if c == 'x' || c == 'X' {
        16
    } else if c == 'o' || c == 'O' {
        8
    } else if c == 'b' || c == 'B' {
        2
    } else {
        0
    }
}

/// `s` starts with `0x`, `0o` or `0b` (either case).
pub open spec fn has_radix_prefix(s: Seq<char>) -> bool {
    s.len() >= 2 && s[0] == '0' && prefix_radix(s[1]) != 0
}

/// The message for digits that do not form a number in `radix`.
pub open spec fn radix_error(radix: int, digits: Seq<char>) -> Seq<char> {
    (if radix == 16 {
        "Invalid hex number: 0x"@
    } else if radix == 8 {
        "Invalid octal number: 0o"@
    } else {
        "Invalid binary number: 0b"@
    }) + digits
}

/// The number written with `digits` after a radix prefix, negated when the
/// prefix had a leading `-`.
pub open spec fn radix_number(digits: Seq<char>, radix: int, negative: bool) -> Result<
    ParsedModel,
    ErrorModel,
> {
    match parse_radix(digits, radix) {
        Some(v) => Ok(ParsedModel::Number(Num::Int(if negative { -v } else { v }))),
        None => Err(ErrorModel::InvalidInput(radix_error(radix, digits))),
    }
}

/// The text holds `.`, `e` or `E`.
pub open spec fn looks_like_float(s: Seq<char>) -> bool {
    exists|i: int| 0 <= i < s.len() && (s[i] == '.' || s[i] == 'e' || s[i] == 'E')
}

/// What `parse_value` gives for `input`: `_` separators are ignored; a
/// `0x`/`0o`/`0b` prefix, possibly after `-`, selects the radix; text with
/// `.` or an exponent is a decimal fraction; anything else is a decimal
/// integer.
pub open spec fn parse_value_spec(input: Seq<char>) -> Result<ParsedModel, ErrorModel> {
    let clean = without_underscores(input);
    if clean.len() == 0 {
        Err(ErrorModel::InvalidInput("Empty input"@))
    } else if has_radix_prefix(clean) {
        radix_number(clean.skip(2), prefix_radix(clean[1]), false)
    } else if clean[0] == '-' && has_radix_prefix(clean.skip(1)) {
        radix_number(clean.skip(3), prefix_radix(clean[2]), true)
    } else if looks_like_float(clean) {
        Ok(ParsedModel::FloatText(clean))
    } else {
        match parse_radix(clean, 10) {
            Some(v) => Ok(ParsedModel::Number(Num::Int(v))),
            None => Err(ErrorModel::InvalidInput("Invalid integer: "@ + clean)),
        }
    }
}

fn prefix_radix_of(c: char) -> (r: u32)
    ensures
        r == prefix_radix(c),
{
    if c == 'x' || c == 'X' {
        16
    } else if c == 'o' || c == 'O' {
        8
    } else if c == 'b' || c == 'B' {
        2
    } else {
        0
    }
}

/// The characters of `v` from index `start` on.
fn suffix(v: &Vec<char>, start: usize) -> (r: Vec<char>)
    requires
        start <= v@.len(),
    ensures
        r@ == v@.skip(start as int),
{
    let mut out: Vec<char> = Vec::new();
    let n = v.len();
    let mut i = start;
    while i < n
        invariant
            n == v@.len(),
            start <= i <= n,
            out@ == v@.subrange(start as int, i as int),
        decreases n - i,
    {
        out.push(v[i]);
        i = i + 1;
        assert(out@ =~= v@.subrange(start as int, i as int));
    }
    assert(out@ =~= v@.skip(start as int));
    out
}

fn has_float_marker(s: &Vec<char>) -> (r: bool)
    ensures
        r == looks_like_float(s@),
{
    let n = s.len();
    for i in 0..n
        invariant
            n == s@.len(),
            forall|j: int| 0 <= j < i ==> !(s@[j] == '.' || s@[j] == 'e' || s@[j] == 'E'),
    {
        if s[i] == '.' || s[i] == 'e' || s[i] == 'E' {
            return true;
        }
    }
    false
}

/// Parses the digits of `clean` from `start` on in `radix`.
fn parse_prefixed(clean: &Vec<char>, start: usize, radix: u32, negative: bool) -> (r: Result<
    Parsed,
    CalcError,
>)
    requires
        start <= clean@.len(),
        radix == 2 || radix == 8 || radix == 16,
        forall|i: int| 0 <= i < clean@.len() ==> clean@[i] != '_',
    ensures
        match r {
            Ok(p) => p.wf() && radix_number(clean@.skip(start as int), radix as int, negative)
                == Ok::<ParsedModel, ErrorModel>(p@),
            Err(e) => radix_number(clean@.skip(start as int), radix as int, negative) == Err::<
                ParsedModel,
                ErrorModel,
            >(e@),
        },
{
    let digits = suffix(clean, start);
    match int_from_str_radix(digits.as_slice(), radix) {
        Some(x) => {
            let v = if negative {
                x.neg()
            } else {
                x
            };
            Ok(Parsed::Number(CalcValue::Integer(v)))
        },
        None => {
            let head = if radix == 16 {
                String::from_str("Invalid hex number: 0x")
            } else if radix == 8 {
                String::from_str("Invalid octal number: 0o")
            } else {
                String::from_str("Invalid binary number: 0b")
            };
            let tail = string_of(digits.as_slice());
            Err(CalcError::InvalidInput(head.concat(tail.as_str())))
        },
    }
}

/// Parses a number typed by the user.
pub fn parse_value(input: &str) -> (r: Result<Parsed, CalcError>)
    ensures
        match r {
            Ok(p) => p.wf() && parse_value_spec(input@) == Ok::<ParsedModel, ErrorModel>(p@),
            Err(e) => parse_value_spec(input@) == Err::<ParsedModel, ErrorModel>(e@),
        },
{
    let raw = chars_of(input);
    let clean = remove_underscores(&raw);
    proof {
        lemma_without_underscores_has_none(raw@);
    }
    let n = clean.len();
    if n == 0 {
        return Err(CalcError::invalid("Empty input"));
    }
    if n >= 2 && clean[0] == '0' {
        let radix = prefix_radix_of(clean[1]);
        if radix != 0 {
            return parse_prefixed(&clean, 2, radix, false);
        }
    }
    if n >= 3 && clean[0] == '-' && clean[1] == '0' {
        let radix = prefix_radix_of(clean[2]);
        if radix != 0 {
            proof {
                assert(clean@.skip(1).skip(2) =~= clean@.skip(3));
            }
            return parse_prefixed(&clean, 3, radix, true);
        }
    }
    if has_float_marker(&clean) {
        return Ok(Parsed::FloatText(string_of(clean.as_slice())));
    }
    match int_from_str_radix(clean.as_slice(), 10) {
        Some(x) => Ok(Parsed::Number(CalcValue::Integer(x))),
        None => {
            let text = string_of(clean.as_slice());
            Err(CalcError::InvalidInput(String::from_str("Invalid integer: ").concat(text.as_str())))
        },
    }
}

/// `_` is only a digit separator: removing it from the input does not
/// change what is parsed.
pub proof fn law_separators_ignored(input: Seq<char>)
    ensures
        parse_value_spec(without_underscores(input)) == parse_value_spec(input),
{
    lemma_without_underscores_idempotent(input);
}

/// Text with a decimal point or an exponent marker, `e` or `E` alike, and
/// no radix prefix, is float text, kept as it was typed.
pub proof fn law_float_text(input: Seq<char>, i: int)
    requires
        0 <= i < input.len(),
        input[i] == '.' || input[i] == 'e' || input[i] == 'E',
        forall|j: int| 0 <= j < input.len() ==> input[j] != '_',
        !has_radix_prefix(input),
        !(input[0] == '-' && has_radix_prefix(input.skip(1))),
    ensures
        parse_value_spec(input) == Ok::<ParsedModel, ErrorModel>(ParsedModel::FloatText(input)),
{
    lemma_without_underscores_none(input);
}

/// The exponent marker is read alike in either case: writing `E` for an
/// `e` does not change whether the text is float text.
pub proof fn law_exponent_case(input: Seq<char>, i: int)
    requires
        0 <= i < input.len(),
        input[i] == 'e',
        forall|j: int| 0 <= j < input.len() ==> input[j] != '_',
    ensures
        (parse_value_spec(input) is Ok && parse_value_spec(input)->Ok_0 is FloatText) == (
        parse_value_spec(input.update(i, 'E')) is Ok && parse_value_spec(input.update(i, 'E'))->Ok_0 is FloatText),
{
    let t = input.update(i, 'E');
    lemma_without_underscores_none(input);
    assert forall|j: int| 0 <= j < t.len() implies t[j] != '_' by {}
    lemma_without_underscores_none(t);
    assert(looks_like_float(input));
    assert(t[i] == 'E');
    assert(looks_like_float(t));
    if input.len() >= 2 && i >= 2 {
        assert(t[0] == input[0] && t[1] == input[1]);
    }
    if input.len() >= 3 && i >= 3 {
        assert(t.skip(1)[0] == input.skip(1)[0] && t.skip(1)[1] == input.skip(1)[1]);
    }
}

/// Decimal digits are read as the integer they write, and a leading `-`
/// negates it.
pub proof fn law_decimal_integer(d: Seq<char>)
    requires
        d.len() > 0,
        forall|i: int| 0 <= i < d.len() ==> '0' <= #[trigger] d[i] <= '9',
    ensures
        parse_value_spec(d) == Ok::<ParsedModel, ErrorModel>(
            ParsedModel::Number(Num::Int(digits_value(d, 10))),
        ),
        parse_value_spec(seq!['-'] + d) == Ok::<ParsedModel, ErrorModel>(
            ParsedModel::Number(Num::Int(-digits_value(d, 10))),
        ),
{
    let m = seq!['-'] + d;
    lemma_without_underscores_none(d);
    assert forall|j: int| 0 <= j < m.len() implies m[j] != '_' by {
        if j > 0 {
            assert(m[j] == d[j - 1]);
        }
    }
    lemma_without_underscores_none(m);
    assert(all_digits(d, 10)) by {
        assert forall|i: int| 0 <= i < d.len() implies #[trigger] digit_value(d[i]) < 10 by {
            assert('0' <= d[i] <= '9');
        }
    }
    assert(!looks_like_float(d)) by {
        assert forall|i: int| 0 <= i < d.len() implies !(d[i] == '.' || d[i] == 'e' || d[i]
            == 'E') by {
            assert('0' <= d[i] <= '9');
        }
    }
    assert(!looks_like_float(m)) by {
        assert forall|i: int| 0 <= i < m.len() implies !(m[i] == '.' || m[i] == 'e' || m[i]
            == 'E') by {
            if i > 0 {
                assert(m[i] == d[i - 1]);
                assert('0' <= d[i - 1] <= '9');
            }
        }
    }
    assert(m.skip(1) =~= d);
    assert(m.drop_first() =~= d);
    if d.len() >= 2 {
        assert('0' <= d[1] <= '9');
    }
    assert('0' <= d[0] <= '9');
}

/// A `-` before a radix prefix negates the number that follows.
pub proof fn law_negative_prefix(digits: Seq<char>, letter: char)
    requires
        prefix_radix(letter) != 0,
    ensures
        ({
            let plain = radix_number(digits, prefix_radix(letter), false);
            let negated = radix_number(digits, prefix_radix(letter), true);
            match plain {
                Ok(ParsedModel::Number(Num::Int(v))) => negated == Ok::<ParsedModel, ErrorModel>(
                    ParsedModel::Number(Num::Int(-v)),
                ),
                _ => negated == plain,
            }
        }),
{
}

} // verus!
