//! Arbitrary-precision integers held as plain values (a sign and the
//! little-endian bytes of the magnitude); arithmetic is done by `dashu`.
use vstd::prelude::*;
use vstd::arithmetic::power::pow;
use vstd::arithmetic::power2::pow2;
use dashu::integer::{IBig, Sign, UBig};
use crate::text::parse_radix;

verus! {

/// Value of little-endian base-256 digits.
pub open spec fn bytes_value(b: Seq<u8>) -> nat
    decreases b.len(),
{
    if b.len() == 0 {
        0
    } else {
        b[0] as nat + 256 * bytes_value(b.drop_first())
    }
}

/// An integer of unbounded size: `negative` and the magnitude as
/// little-endian bytes, without high zero bytes.
#[derive(Debug, PartialEq, Eq)]
pub struct BigInt {
    pub negative: bool,
    pub magnitude: Vec<u8>,
}

impl View for BigInt {
    type V = int;

    open spec fn view(&self) -> int {
        if self.negative {
            -(bytes_value(self.magnitude@) as int)
        } else {
            bytes_value(self.magnitude@) as int
        }
    }
}

impl BigInt {
    /// The canonical form: no high zero byte, and zero is never negative.
    pub open spec fn wf(&self) -> bool {
        &&& (self.magnitude@.len() > 0 ==> self.magnitude@.last() != 0)
        &&& (self.magnitude@.len() == 0 ==> !self.negative)
    }
}

pub(crate) proof fn lemma_bytes_value_positive(b: Seq<u8>)
    requires
        b.len() > 0,
        b.last() != 0,
    ensures
        bytes_value(b) > 0,
    decreases b.len(),
{
    if b.len() > 1 {
        lemma_bytes_value_positive(b.drop_first());
    }
}

/// A canonical integer is zero exactly when it has no magnitude bytes.
pub proof fn lemma_wf_zero(x: BigInt)
    requires
        x.wf(),
    ensures
        (x@ == 0) == (x.magnitude@.len() == 0),
        (x@ < 0) == x.negative,
{
    if x.magnitude@.len() > 0 {
        lemma_bytes_value_positive(x.magnitude@);
    }
}

impl Clone for BigInt {
    fn clone(&self) -> (r: Self)
        ensures
            r@ == self@,
            r.wf() == self.wf(),
            r.negative == self.negative,
            r.magnitude@ == self.magnitude@,
    {
        let m = self.magnitude.clone();
        assert(m@ =~= self.magnitude@);
        BigInt { negative: self.negative, magnitude: m }
    }
}

impl BigInt {
    /// Whether the value is in canonical form.
    pub fn is_canonical(&self) -> (r: bool)
        ensures
            r == self.wf(),
    {
        let n = self.magnitude.len();
        if n == 0 {
            !self.negative
        } else {
            self.magnitude[n - 1] != 0
        }
    }

    pub fn is_zero(&self) -> (r: bool)
        requires
            self.wf(),
        ensures
            r == (self@ == 0),
    {
        proof {
            lemma_wf_zero(*self);
        }
        self.magnitude.len() == 0
    }

    pub fn is_negative(&self) -> (r: bool)
        requires
            self.wf(),
        ensures
            r == (self@ < 0),
    {
        proof {
            lemma_wf_zero(*self);
        }
        self.negative
    }

    /// Negation (the sign of a nonzero value flips).
    pub fn neg(&self) -> (r: Self)
        requires
            self.wf(),
        ensures
            r.wf(),
            r@ == -self@,
    {
        let m = self.magnitude.clone();
        assert(m@ =~= self.magnitude@);
        let negative = !self.negative && m.len() > 0;
        BigInt { negative, magnitude: m }
    }

    /// Absolute value.
    pub fn abs(&self) -> (r: Self)
        requires
            self.wf(),
        ensures
            r.wf(),
            r@ == (if self@ < 0 { -self@ } else { self@ }),
    {
        proof {
            lemma_wf_zero(*self);
        }
        let m = self.magnitude.clone();
        assert(m@ =~= self.magnitude@);
        BigInt { negative: false, magnitude: m }
    }
}

/// Quotient of division rounding toward zero.
pub open spec fn trunc_div(a: int, b: int) -> int {
    let q = (if a < 0 { -a } else { a }) / (if b < 0 { -b } else { b });
    if (a < 0) != (b < 0) { -q } else { q }
}

/// Remainder of division rounding toward zero; it has the sign of `a`.
pub open spec fn trunc_rem(a: int, b: int) -> int {
    let r = (if a < 0 { -a } else { a }) % (if b < 0 { -b } else { b });
    if a < 0 { -r } else { r }
}

/// Bitwise AND of two's complement integers of unbounded width.
pub open spec fn bit_and(a: int, b: int) -> int
    decreases (if a < 0 { -a } else { a }) + (if b < 0 { -b } else { b }),
{
    if a == 0 || b == 0 {
        0
    } else if a == -1 {
        b
    } else if b == -1 {
        a
    } else {
        2 * bit_and(a / 2, b / 2) + (if a % 2 == 1 && b % 2 == 1 { 1int } else { 0int })
    }
}

/// Bitwise OR of two's complement integers of unbounded width.
pub open spec fn bit_or(a: int, b: int) -> int
    decreases (if a < 0 { -a } else { a }) + (if b < 0 { -b } else { b }),
{
    if a == 0 {
        b
    } else if b == 0 {
        a
    } else if a == -1 || b == -1 {
        -1
    } else {
        2 * bit_or(a / 2, b / 2) + (if a % 2 == 1 || b % 2 == 1 { 1int } else { 0int })
    }
}

/// Bitwise XOR of two's complement integers of unbounded width.
pub open spec fn bit_xor(a: int, b: int) -> int
    decreases (if a < 0 { -a } else { a }) + (if b < 0 { -b } else { b }),
{
    if a == 0 {
        b
    } else if b == 0 {
        a
    } else if a == -1 {
        -b - 1
    } else if b == -1 {
        -a - 1
    } else {
        2 * bit_xor(a / 2, b / 2) + (if a % 2 != b % 2 { 1int } else { 0int })
    }
}

/// `dashu`'s `IBig + IBig`: claimed to be the exact sum.
/// Operands reach `dashu` by `UBig::from_le_bytes` and `IBig::from_parts`;
/// the result returns by `IBig::into_parts` and `UBig::to_le_bytes`, which
/// give a positive zero and no high zero byte, so it is claimed canonical.
#[verifier::external_body]
pub(crate) fn int_add(a: &BigInt, b: &BigInt) -> (r: BigInt)
    requires
        a.wf(),
        b.wf(),
    ensures
        r.wf(),
        r@ == a@ + b@,
{
    let x = IBig::from_parts(Sign::from(a.negative), UBig::from_le_bytes(&a.magnitude));
    let y = IBig::from_parts(Sign::from(b.negative), UBig::from_le_bytes(&b.magnitude));
    let (s, m) = (x + y).into_parts();
    BigInt { negative: bool::from(s), magnitude: m.to_le_bytes().into_vec() }
}


/// `dashu`'s `IBig - IBig`: claimed to be the exact difference.
/// Operands reach `dashu` by `UBig::from_le_bytes` and `IBig::from_parts`;
/// the result returns by `IBig::into_parts` and `UBig::to_le_bytes`, which
/// give a positive zero and no high zero byte, so it is claimed canonical.
#[verifier::external_body]
pub(crate) fn int_sub(a: &BigInt, b: &BigInt) -> (r: BigInt)
    requires
        a.wf(),
        b.wf(),
    ensures
        r.wf(),
        r@ == a@ - b@,
{
    let x = IBig::from_parts(Sign::from(a.negative), UBig::from_le_bytes(&a.magnitude));
    let y = IBig::from_parts(Sign::from(b.negative), UBig::from_le_bytes(&b.magnitude));
    let (s, m) = (x - y).into_parts();
    BigInt { negative: bool::from(s), magnitude: m.to_le_bytes().into_vec() }
}

/// `dashu`'s `IBig * IBig`: claimed to be the exact product.
/// Operands reach `dashu` by `UBig::from_le_bytes` and `IBig::from_parts`;
/// the result returns by `IBig::into_parts` and `UBig::to_le_bytes`, which
/// give a positive zero and no high zero byte, so it is claimed canonical.
#[verifier::external_body]
pub(crate) fn int_mul(a: &BigInt, b: &BigInt) -> (r: BigInt)
    requires
        a.wf(),
        b.wf(),
    ensures
        r.wf(),
        r@ == a@ * b@,
{
    let x = IBig::from_parts(Sign::from(a.negative), UBig::from_le_bytes(&a.magnitude));
    let y = IBig::from_parts(Sign::from(b.negative), UBig::from_le_bytes(&b.magnitude));
    let (s, m) = (x * y).into_parts();
    BigInt { negative: bool::from(s), magnitude: m.to_le_bytes().into_vec() }
}

/// `dashu`'s `IBig / IBig`: claimed to be the quotient rounded toward zero
/// (magnitude quotient with the product of the signs). It panics on a zero
/// divisor, which `requires` leaves out.
/// Operands reach `dashu` by `UBig::from_le_bytes` and `IBig::from_parts`;
/// the result returns by `IBig::into_parts` and `UBig::to_le_bytes`, which
/// give a positive zero and no high zero byte, so it is claimed canonical.
#[verifier::external_body]
pub(crate) fn int_div(a: &BigInt, b: &BigInt) -> (r: BigInt)
    requires
        a.wf(),
        b.wf(),
        b@ != 0,
    ensures
        r.wf(),
        r@ == trunc_div(a@, b@),
{
    let x = IBig::from_parts(Sign::from(a.negative), UBig::from_le_bytes(&a.magnitude));
    let y = IBig::from_parts(Sign::from(b.negative), UBig::from_le_bytes(&b.magnitude));
    let (s, m) = (x / y).into_parts();
    BigInt { negative: bool::from(s), magnitude: m.to_le_bytes().into_vec() }
}

/// `dashu`'s `IBig % IBig`: claimed to be the remainder of division rounding
/// toward zero, with the sign of `a`. It panics on a zero divisor, which
/// `requires` leaves out.
/// Operands reach `dashu` by `UBig::from_le_bytes` and `IBig::from_parts`;
/// the result returns by `IBig::into_parts` and `UBig::to_le_bytes`, which
/// give a positive zero and no high zero byte, so it is claimed canonical.
#[verifier::external_body]
pub(crate) fn int_rem(a: &BigInt, b: &BigInt) -> (r: BigInt)
    requires
        a.wf(),
        b.wf(),
        b@ != 0,
    ensures
        r.wf(),
        r@ == trunc_rem(a@, b@),
{
    let x = IBig::from_parts(Sign::from(a.negative), UBig::from_le_bytes(&a.magnitude));
    let y = IBig::from_parts(Sign::from(b.negative), UBig::from_le_bytes(&b.magnitude));
    let (s, m) = (x % y).into_parts();
    BigInt { negative: bool::from(s), magnitude: m.to_le_bytes().into_vec() }
}

/// `dashu`'s `IBig::pow`: claimed to be `a` to the power `e` (1 when `e` is 0).
/// Operands reach `dashu` by `UBig::from_le_bytes` and `IBig::from_parts`;
/// the result returns by `IBig::into_parts` and `UBig::to_le_bytes`, which
/// give a positive zero and no high zero byte, so it is claimed canonical.
#[verifier::external_body]
pub(crate) fn int_pow(a: &BigInt, e: usize) -> (r: BigInt)
    requires
        a.wf(),
    ensures
        r.wf(),
        r@ == pow(a@, e as nat),
{
    let x = IBig::from_parts(Sign::from(a.negative), UBig::from_le_bytes(&a.magnitude));
    let (s, m) = x.pow(e).into_parts();
    BigInt { negative: bool::from(s), magnitude: m.to_le_bytes().into_vec() }
}

/// `dashu`'s `IBig & IBig`: claimed to be the bitwise AND of the two's
/// complement forms of unbounded width.
/// Operands reach `dashu` by `UBig::from_le_bytes` and `IBig::from_parts`;
/// the result returns by `IBig::into_parts` and `UBig::to_le_bytes`, which
/// give a positive zero and no high zero byte, so it is claimed canonical.
#[verifier::external_body]
pub(crate) fn int_and(a: &BigInt, b: &BigInt) -> (r: BigInt)
    requires
        a.wf(),
        b.wf(),
    ensures
        r.wf(),
        r@ == bit_and(a@, b@),
{
    let x = IBig::from_parts(Sign::from(a.negative), UBig::from_le_bytes(&a.magnitude));
    let y = IBig::from_parts(Sign::from(b.negative), UBig::from_le_bytes(&b.magnitude));
    let (s, m) = (x & y).into_parts();
    BigInt { negative: bool::from(s), magnitude: m.to_le_bytes().into_vec() }
}

/// `dashu`'s `IBig | IBig`: claimed to be the bitwise OR of the two's
/// complement forms of unbounded width.
/// Operands reach `dashu` by `UBig::from_le_bytes` and `IBig::from_parts`;
/// the result returns by `IBig::into_parts` and `UBig::to_le_bytes`, which
/// give a positive zero and no high zero byte, so it is claimed canonical.
#[verifier::external_body]
pub(crate) fn int_or(a: &BigInt, b: &BigInt) -> (r: BigInt)
    requires
        a.wf(),
        b.wf(),
    ensures
        r.wf(),
        r@ == bit_or(a@, b@),
{
    let x = IBig::from_parts(Sign::from(a.negative), UBig::from_le_bytes(&a.magnitude));
    let y = IBig::from_parts(Sign::from(b.negative), UBig::from_le_bytes(&b.magnitude));
    let (s, m) = (x | y).into_parts();
    BigInt { negative: bool::from(s), magnitude: m.to_le_bytes().into_vec() }
}

/// `dashu`'s `IBig ^ IBig`: claimed to be the bitwise XOR of the two's
/// complement forms of unbounded width.
/// Operands reach `dashu` by `UBig::from_le_bytes` and `IBig::from_parts`;
/// the result returns by `IBig::into_parts` and `UBig::to_le_bytes`, which
/// give a positive zero and no high zero byte, so it is claimed canonical.
#[verifier::external_body]
pub(crate) fn int_xor(a: &BigInt, b: &BigInt) -> (r: BigInt)
    requires
        a.wf(),
        b.wf(),
    ensures
        r.wf(),
        r@ == bit_xor(a@, b@),
{
    let x = IBig::from_parts(Sign::from(a.negative), UBig::from_le_bytes(&a.magnitude));
    let y = IBig::from_parts(Sign::from(b.negative), UBig::from_le_bytes(&b.magnitude));
    let (s, m) = (x ^ y).into_parts();
    BigInt { negative: bool::from(s), magnitude: m.to_le_bytes().into_vec() }
}

/// `dashu`'s `!IBig`: claimed to be the bitwise complement, `-a - 1`.
/// Operands reach `dashu` by `UBig::from_le_bytes` and `IBig::from_parts`;
/// the result returns by `IBig::into_parts` and `UBig::to_le_bytes`, which
/// give a positive zero and no high zero byte, so it is claimed canonical.
#[verifier::external_body]
pub(crate) fn int_not(a: &BigInt) -> (r: BigInt)
    requires
        a.wf(),
    ensures
        r.wf(),
        r@ == -a@ - 1,
{
    let x = IBig::from_parts(Sign::from(a.negative), UBig::from_le_bytes(&a.magnitude));
    let (s, m) = (!x).into_parts();
    BigInt { negative: bool::from(s), magnitude: m.to_le_bytes().into_vec() }
}

/// `dashu`'s `IBig << usize`: claimed to be `a * 2^shift`. Running out of
/// memory on a huge shift is not modelled.
/// Operands reach `dashu` by `UBig::from_le_bytes` and `IBig::from_parts`;
/// the result returns by `IBig::into_parts` and `UBig::to_le_bytes`, which
/// give a positive zero and no high zero byte, so it is claimed canonical.
#[verifier::external_body]
pub(crate) fn int_shl(a: &BigInt, shift: usize) -> (r: BigInt)
    requires
        a.wf(),
    ensures
        r.wf(),
        r@ == a@ * pow2(shift as nat),
{
    let x = IBig::from_parts(Sign::from(a.negative), UBig::from_le_bytes(&a.magnitude));
    let (s, m) = (x << shift).into_parts();
    BigInt { negative: bool::from(s), magnitude: m.to_le_bytes().into_vec() }
}

/// `dashu`'s `IBig >> usize`: claimed to be `a / 2^shift` rounded toward
/// negative infinity (an arithmetic shift).
/// Operands reach `dashu` by `UBig::from_le_bytes` and `IBig::from_parts`;
/// the result returns by `IBig::into_parts` and `UBig::to_le_bytes`, which
/// give a positive zero and no high zero byte, so it is claimed canonical.
#[verifier::external_body]
pub(crate) fn int_shr(a: &BigInt, shift: usize) -> (r: BigInt)
    requires
        a.wf(),
    ensures
        r.wf(),
        r@ == a@ / (pow2(shift as nat) as int),
{
    let x = IBig::from_parts(Sign::from(a.negative), UBig::from_le_bytes(&a.magnitude));
    let (s, m) = (x >> shift).into_parts();
    BigInt { negative: bool::from(s), magnitude: m.to_le_bytes().into_vec() }
}

/// `dashu`'s `IBig::from(i64)`: claimed to hold the same value.
/// Operands reach `dashu` by `UBig::from_le_bytes` and `IBig::from_parts`;
/// the result returns by `IBig::into_parts` and `UBig::to_le_bytes`, which
/// give a positive zero and no high zero byte, so it is claimed canonical.
#[verifier::external_body]
pub(crate) fn int_from_i64(n: i64) -> (r: BigInt)
    ensures
        r.wf(),
        r@ == n,
{
    let (s, m) = IBig::from(n).into_parts();
    BigInt { negative: bool::from(s), magnitude: m.to_le_bytes().into_vec() }
}

/// `dashu`'s `IBig::from(u64)`: claimed to hold the same value.
/// Operands reach `dashu` by `UBig::from_le_bytes` and `IBig::from_parts`;
/// the result returns by `IBig::into_parts` and `UBig::to_le_bytes`, which
/// give a positive zero and no high zero byte, so it is claimed canonical.
#[verifier::external_body]
pub(crate) fn int_from_u64(n: u64) -> (r: BigInt)
    ensures
        r.wf(),
        r@ == n,
{
    let (s, m) = IBig::from(n).into_parts();
    BigInt { negative: bool::from(s), magnitude: m.to_le_bytes().into_vec() }
}

/// `dashu`'s `u64::try_from(&IBig)`: claimed to succeed exactly on
/// `0..=u64::MAX`, with the same value.
#[verifier::external_body]
pub(crate) fn int_to_u64(a: &BigInt) -> (r: Option<u64>)
    requires
        a.wf(),
    ensures
        r == (if 0 <= a@ <= u64::MAX { Some(a@ as u64) } else { None::<u64> }),
{
    let x = IBig::from_parts(Sign::from(a.negative), UBig::from_le_bytes(&a.magnitude));
    u64::try_from(&x).ok()
}

/// `dashu`'s `usize::try_from(&IBig)`: claimed to succeed exactly on
/// `0..=usize::MAX`, with the same value.
#[verifier::external_body]
pub(crate) fn int_to_usize(a: &BigInt) -> (r: Option<usize>)
    requires
        a.wf(),
    ensures
        r == (if 0 <= a@ <= usize::MAX { Some(a@ as usize) } else { None::<usize> }),
{
    let x = IBig::from_parts(Sign::from(a.negative), UBig::from_le_bytes(&a.magnitude));
    usize::try_from(&x).ok()
}

/// `dashu`'s `u32::try_from(&IBig)`: claimed to succeed exactly on
/// `0..=u32::MAX`, with the same value.
#[verifier::external_body]
pub(crate) fn int_to_u32(a: &BigInt) -> (r: Option<u32>)
    requires
        a.wf(),
    ensures
        r == (if 0 <= a@ <= u32::MAX { Some(a@ as u32) } else { None::<u32> }),
{
    let x = IBig::from_parts(Sign::from(a.negative), UBig::from_le_bytes(&a.magnitude));
    u32::try_from(&x).ok()
}

/// `dashu`'s `IBig::from_str_radix` on the text of `digits` (made a `String`
/// by std's `String::from_iter`): claimed to succeed exactly on an optional
/// `+` or `-` followed by at least one digit below `radix` (`0-9`, letters of
/// either case), giving their value. `requires` leaves out `_`, which it
/// would skip.
/// Operands reach `dashu` by `UBig::from_le_bytes` and `IBig::from_parts`;
/// the result returns by `IBig::into_parts` and `UBig::to_le_bytes`, which
/// give a positive zero and no high zero byte, so it is claimed canonical.
#[verifier::external_body]
pub(crate) fn int_from_str_radix(digits: &[char], radix: u32) -> (r: Option<BigInt>)
    requires
        radix == 2 || radix == 8 || radix == 10 || radix == 16,
        forall|i: int| 0 <= i < digits@.len() ==> digits@[i] != '_',
    ensures
        match r {
            Some(x) => x.wf() && parse_radix(digits@, radix as int) == Some(x@),
            None => parse_radix(digits@, radix as int) is None,
        },
{
    let text = String::from_iter(digits.iter());
    match IBig::from_str_radix(&text, radix) {
        Ok(x) => {
            let (s, m) = x.into_parts();
            Some(BigInt { negative: bool::from(s), magnitude: m.to_le_bytes().into_vec() })
        },
        Err(_) => None,
    }
}

} // verus!
