//! Arithmetic on binary floats, carried out by `dashu`'s `FBig` with
//! rounding toward zero. What a rounded operation returns is named, not
//! written out; the contracts state the precision of the result, bounds on
//! its size, and when it is zero.
use vstd::prelude::*;
use vstd::arithmetic::power2::{lemma2_to64, lemma_pow2_unfold, pow2};
use dashu::float::round::mode::Zero;
use dashu::float::{Context, FBig, Repr};
use dashu::integer::{IBig, Sign, UBig};
use crate::bigint::{bytes_value, lemma_bytes_value_positive, BigInt};
use crate::value::{BigFloat, Num};

verus! {

/// The number of binary digits of `n` (none for zero).
pub open spec fn bit_len(n: nat) -> nat
    decreases n,
{
    if n == 0 {
        0
    } else {
        1 + bit_len(n / 2)
    }
}

/// The absolute value of an integer.
pub open spec fn magnitude(x: int) -> nat {
    if x < 0 {
        (-x) as nat
    } else {
        x as nat
    }
}

/// How large a float is for `dashu`'s exponent arithmetic: the sizes of
/// its exponent, of its significand in bits, and its precision.
pub open spec fn float_size(f: BigFloat) -> int {
    magnitude(f.exponent as int) + bit_len(magnitude(f.significand@)) + f.precision
}

/// The size of a number as `float_size` counts it (none for an integer).
pub open spec fn num_size(x: Num) -> int {
    match x {
        Num::Float { significand, exponent, precision } => (magnitude(exponent) + bit_len(
            magnitude(significand),
        ) + precision) as int,
        Num::Int(_) => 0,
    }
}

/// The largest combined size of operands this library hands to `dashu`:
/// an eighth of `isize::MAX`, so that the exponent arithmetic of `dashu`'s
/// floats (in `isize`) cannot overflow.
pub open spec fn size_limit() -> int {
    isize::MAX / 8
}

/// A result whose exponent and significand stay within a fixed multiple of
/// the size `k` of its operands.
pub open spec fn bounded_by(r: BigFloat, k: int) -> bool {
    &&& magnitude(r.exponent as int) <= 3 * k + 4
    &&& bit_len(magnitude(r.significand@)) <= 3 * k + 4
}

/// The precision of an operation on two floats: the larger one.
pub open spec fn joint_precision(a: BigFloat, b: BigFloat) -> nat {
    if a.precision >= b.precision {
        a.precision as nat
    } else {
        b.precision as nat
    }
}

/// The significand has no more bits than a limited precision allows.
pub open spec fn fits_precision(f: BigFloat) -> bool {
    f.precision > 0 ==> bit_len(magnitude(f.significand@)) <= f.precision
}

/// What `FBig * FBig` returns.
pub uninterp spec fn float_product(a: Num, b: Num) -> Num;

/// What `FBig / FBig` returns.
pub uninterp spec fn float_quotient(a: Num, b: Num) -> Num;

/// What `FBig + FBig` returns.
pub uninterp spec fn float_sum(a: Num, b: Num) -> Num;

/// What `FBig - FBig` returns.
pub uninterp spec fn float_difference(a: Num, b: Num) -> Num;

/// What `Context::convert_int` returns: an integer rounded to `precision`
/// bits.
pub uninterp spec fn rounded_int(precision: nat, n: int) -> Num;

/// What `Context::div` returns: a quotient rounded to `precision` bits.
pub uninterp spec fn rounded_quotient(precision: nat, a: Num, b: Num) -> Num;

/// `dashu`'s `FBig * FBig` (rounding toward zero). The operands reach
/// `dashu` with their significand, exponent and precision as they are; the
/// result's parts come back. Claimed: the result is `float_product` of the
/// operands, has the larger precision of the two, fits that precision
/// (rounding toward zero never carries into a new bit), stays within the
/// size bound, and has a canonical significand. The product's bits are not
/// stated.
#[verifier::external_body]
pub(crate) fn float_mul(a: &BigFloat, b: &BigFloat) -> (r: BigFloat)
    requires
        a.significand.wf(),
        b.significand.wf(),
        float_size(*a) + float_size(*b) <= size_limit(),
    ensures
        r.significand.wf(),
        r@ == float_product(a@, b@),
        r.precision == joint_precision(*a, *b),
        fits_precision(r),
        bounded_by(r, float_size(*a) + float_size(*b)),
{
    let to = |f: &BigFloat| FBig::<Zero, 2>::from_repr_const(Repr::new(IBig::from_parts(Sign::from(f.significand.negative), UBig::from_le_bytes(&f.significand.magnitude)), f.exponent)).with_precision(f.precision).value();
    let x = to(a) * to(b);
    let precision = x.precision();
    let (s, exponent) = x.into_repr().into_parts();
    let (sign, m) = s.into_parts();
    BigFloat { significand: BigInt { negative: bool::from(sign), magnitude: m.to_le_bytes().into_vec() }, exponent, precision }
}

/// `dashu`'s `FBig / FBig` (rounding toward zero). It panics on a zero
/// divisor and at unlimited precision, and (in debug builds) when the
/// dividend has more bits than the precision: `requires` leaves these out.
/// Claimed: the result is `float_quotient` of the operands, has the larger
/// precision of the two, stays within the size bound, and has a canonical
/// significand.
#[verifier::external_body]
pub(crate) fn float_div(a: &BigFloat, b: &BigFloat) -> (r: BigFloat)
    requires
        a.significand.wf(),
        b.significand.wf(),
        b.significand@ != 0,
        joint_precision(*a, *b) > 0,
        bit_len(magnitude(a.significand@)) <= joint_precision(*a, *b),
        float_size(*a) + float_size(*b) <= size_limit(),
    ensures
        r.significand.wf(),
        r@ == float_quotient(a@, b@),
        r.precision == joint_precision(*a, *b),
        bounded_by(r, float_size(*a) + float_size(*b)),
{
    let to = |f: &BigFloat| FBig::<Zero, 2>::from_repr_const(Repr::new(IBig::from_parts(Sign::from(f.significand.negative), UBig::from_le_bytes(&f.significand.magnitude)), f.exponent)).with_precision(f.precision).value();
    let x = to(a) / to(b);
    let precision = x.precision();
    let (s, exponent) = x.into_repr().into_parts();
    let (sign, m) = s.into_parts();
    BigFloat { significand: BigInt { negative: bool::from(sign), magnitude: m.to_le_bytes().into_vec() }, exponent, precision }
}

/// `dashu`'s `FBig + FBig` (rounding toward zero). Claimed: the result is
/// `float_sum` of the operands, has the larger precision of the two, stays
/// within the size bound, and has a canonical significand. Running out of
/// memory when operands of unlimited precision lie far apart is not
/// modelled.
#[verifier::external_body]
pub(crate) fn float_add(a: &BigFloat, b: &BigFloat) -> (r: BigFloat)
    requires
        a.significand.wf(),
        b.significand.wf(),
        float_size(*a) + float_size(*b) <= size_limit(),
    ensures
        r.significand.wf(),
        r@ == float_sum(a@, b@),
        r.precision == joint_precision(*a, *b),
        bounded_by(r, float_size(*a) + float_size(*b)),
{
    let to = |f: &BigFloat| FBig::<Zero, 2>::from_repr_const(Repr::new(IBig::from_parts(Sign::from(f.significand.negative), UBig::from_le_bytes(&f.significand.magnitude)), f.exponent)).with_precision(f.precision).value();
    let x = to(a) + to(b);
    let precision = x.precision();
    let (s, exponent) = x.into_repr().into_parts();
    let (sign, m) = s.into_parts();
    BigFloat { significand: BigInt { negative: bool::from(sign), magnitude: m.to_le_bytes().into_vec() }, exponent, precision }
}

/// `dashu`'s `FBig - FBig` (rounding toward zero). Claimed: the result is
/// `float_difference` of the operands, has the larger precision of the
/// two, stays within the size bound, and has a canonical significand.
/// Running out of memory when operands of unlimited precision lie far
/// apart is not modelled.
#[verifier::external_body]
pub(crate) fn float_sub(a: &BigFloat, b: &BigFloat) -> (r: BigFloat)
    requires
        a.significand.wf(),
        b.significand.wf(),
        float_size(*a) + float_size(*b) <= size_limit(),
    ensures
        r.significand.wf(),
        r@ == float_difference(a@, b@),
        r.precision == joint_precision(*a, *b),
        bounded_by(r, float_size(*a) + float_size(*b)),
{
    let to = |f: &BigFloat| FBig::<Zero, 2>::from_repr_const(Repr::new(IBig::from_parts(Sign::from(f.significand.negative), UBig::from_le_bytes(&f.significand.magnitude)), f.exponent)).with_precision(f.precision).value();
    let x = to(a) - to(b);
    let precision = x.precision();
    let (s, exponent) = x.into_repr().into_parts();
    let (sign, m) = s.into_parts();
    BigFloat { significand: BigInt { negative: bool::from(sign), magnitude: m.to_le_bytes().into_vec() }, exponent, precision }
}

/// `dashu`'s `Context::<Zero>::new(precision).convert_int::<2>(n)`: an
/// integer rounded toward zero to `precision` bits. Claimed: the result is
/// `rounded_int` of the arguments, has that precision, fits it, stays
/// within the size bound, is zero exactly when `n` is (at a precision of at
/// least 2 bits), and has a canonical significand.
#[verifier::external_body]
pub(crate) fn float_of_int(precision: usize, n: &BigInt) -> (r: BigFloat)
    requires
        n.wf(),
        bit_len(magnitude(n@)) + precision <= size_limit(),
    ensures
        r.significand.wf(),
        r@ == rounded_int(precision as nat, n@),
        r.precision == precision,
        fits_precision(r),
        bounded_by(r, bit_len(magnitude(n@)) + precision),
        precision >= 2 ==> ((r.significand@ == 0) == (n@ == 0)),
{
    let v = IBig::from_parts(Sign::from(n.negative), UBig::from_le_bytes(&n.magnitude));
    let x = Context::<Zero>::new(precision).convert_int::<2>(v).value();
    let (s, exponent) = x.into_repr().into_parts();
    let (sign, m) = s.into_parts();
    BigFloat { significand: BigInt { negative: bool::from(sign), magnitude: m.to_le_bytes().into_vec() }, exponent, precision }
}

/// `dashu`'s `Context::<Zero>::new(precision).div(a, b)` on the
/// representations of two floats: their quotient rounded toward zero to
/// `precision` bits. It panics on a zero divisor and at unlimited
/// precision: `requires` leaves these out. Claimed: the result is
/// `rounded_quotient` of the arguments, has that precision, stays within
/// the size bound, is not zero when neither operand is (at a precision of
/// at least 2 bits), and has a canonical significand.
#[verifier::external_body]
pub(crate) fn rounded_div(precision: usize, a: &BigFloat, b: &BigFloat) -> (r: BigFloat)
    requires
        a.significand.wf(),
        b.significand.wf(),
        b.significand@ != 0,
        precision > 0,
        float_size(*a) + float_size(*b) + precision <= size_limit(),
    ensures
        r.significand.wf(),
        r@ == rounded_quotient(precision as nat, a@, b@),
        r.precision == precision,
        bounded_by(r, float_size(*a) + float_size(*b) + precision),
        precision >= 2 && a.significand@ != 0 ==> r.significand@ != 0,
{
    let to = |f: &BigFloat| Repr::<2>::new(IBig::from_parts(Sign::from(f.significand.negative), UBig::from_le_bytes(&f.significand.magnitude)), f.exponent);
    let x = Context::<Zero>::new(precision).div(&to(a), &to(b)).value();
    let (s, exponent) = x.into_repr().into_parts();
    let (sign, m) = s.into_parts();
    BigFloat { significand: BigInt { negative: bool::from(sign), magnitude: m.to_le_bytes().into_vec() }, exponent, precision }
}

/// More is never written with fewer bits.
pub proof fn lemma_bit_len_monotonic(a: nat, b: nat)
    requires
        a <= b,
    ensures
        bit_len(a) <= bit_len(b),
    decreases b,
{
    if a > 0 {
        lemma_bit_len_monotonic(a / 2, b / 2);
    }
}

/// Ten times a number, plus a digit, takes at most four more bits.
pub proof fn lemma_bit_len_decimal_step(x: nat, d: nat)
    requires
        d < 10,
    ensures
        bit_len(x * 10 + d) <= bit_len(x) + 4,
{
    let y: nat = x * 16 + 15;
    lemma_bit_len_monotonic(x * 10 + d, y);
    assert(y / 2 == x * 8 + 7);
    assert((x * 8 + 7) / 2 == x * 4 + 3);
    assert((x * 4 + 3) / 2 == x * 2 + 1);
    assert((x * 2 + 1) / 2 == x);
    assert(bit_len(x * 2 + 1) == 1 + bit_len(x));
    assert(bit_len(x * 4 + 3) == 1 + bit_len(x * 2 + 1));
    assert(bit_len(x * 8 + 7) == 1 + bit_len(x * 4 + 3));
    assert(bit_len(y) == 1 + bit_len(x * 8 + 7));
}

/// A number below `2^m` has at most `m` bits.
pub proof fn lemma_bit_len_below(n: nat, m: nat)
    requires
        n < pow2(m),
    ensures
        bit_len(n) <= m,
    decreases m,
{
    if n > 0 {
        if m == 0 {
            lemma2_to64();
        } else {
            lemma_pow2_unfold(m);
            lemma_bit_len_below(n / 2, (m - 1) as nat);
        }
    }
}

/// Below `2^k`, a number shifted up by `k` bits (and `v` added there)
/// has `k` bits more than `v`.
proof fn lemma_bit_len_shift(c: nat, v: nat, k: nat)
    requires
        c < pow2(k),
        v > 0,
    ensures
        bit_len(c + pow2(k) * v) == k + bit_len(v),
    decreases k,
{
    if k == 0 {
        lemma2_to64();
        assert(pow2(k) * v == v) by (nonlinear_arith)
            requires
                pow2(k) == 1,
        ;
    } else {
        lemma_pow2_unfold(k);
        let p = pow2((k - 1) as nat);
        let m = p * v;
        assert(pow2(k) * v == 2 * m) by (nonlinear_arith)
            requires
                pow2(k) == 2 * p,
                m == p * v,
        ;
        assert(m > 0) by (nonlinear_arith)
            requires
                m == p * v,
                p > 0,
                v > 0,
        ;
        assert((c + 2 * m) / 2 == c / 2 + m);
        assert(c / 2 < p);
        lemma_bit_len_shift(c / 2, v, (k - 1) as nat);
        let x: nat = c + 2 * m;
        assert(x > 0);
        assert(bit_len(x) == 1 + bit_len(x / 2));
        assert(c + pow2(k) * v == x);
    }
}

/// The bits of a canonical little-endian magnitude: eight per byte below
/// the top one, then those of the top byte.
proof fn lemma_bytes_bit_len(b: Seq<u8>)
    requires
        b.len() > 0,
        b.last() != 0,
    ensures
        bit_len(bytes_value(b)) == 8 * (b.len() - 1) + bit_len(b.last() as nat),
    decreases b.len(),
{
    let rest = b.drop_first();
    if b.len() == 1 {
        assert(bytes_value(rest) == 0);
    } else {
        assert(rest.last() == b.last());
        lemma_bytes_bit_len(rest);
        lemma_bytes_value_positive(rest);
        lemma2_to64();
        lemma_bit_len_shift(b[0] as nat, bytes_value(rest), 8);
    }
}

/// The number of bits of the magnitude of a canonical integer.
pub(crate) fn significand_bits(x: &BigInt) -> (r: usize)
    requires
        x.wf(),
        x.magnitude@.len() <= size_limit() / 8 + 1,
    ensures
        r == bit_len(magnitude(x@)),
{
    let n = x.magnitude.len();
    if n == 0 {
        return 0;
    }
    let last: u8 = x.magnitude[n - 1];
    let mut top: u8 = last;
    let mut count: usize = 0;
    proof {
        lemma2_to64();
        lemma_bit_len_below(last as nat, 8);
    }
    while top > 0
        invariant
            count + bit_len(top as nat) == bit_len(last as nat),
            bit_len(last as nat) <= 8,
        decreases top,
    {
        assert(bit_len(top as nat) == 1 + bit_len((top / 2) as nat));
        top = top / 2;
        count = count + 1;
    }
    proof {
        lemma_bytes_bit_len(x.magnitude@);
        assert(magnitude(x@) == bytes_value(x.magnitude@));
    }
    8 * (n - 1) + count
}

/// Whether two floats, together, stay within the size limit.
pub(crate) fn within_size_limit(a: &BigFloat, b: &BigFloat) -> (r: bool)
    requires
        a.significand.wf(),
        b.significand.wf(),
    ensures
        r == (float_size(*a) + float_size(*b) <= size_limit()),
{
    let limit: usize = (isize::MAX / 8) as usize;
    let elimit: isize = isize::MAX / 8;
    if a.exponent < -elimit || a.exponent > elimit || b.exponent < -elimit || b.exponent > elimit {
        return false;
    }
    if a.precision > limit || b.precision > limit {
        return false;
    }
    let lenlimit: usize = limit / 8 + 1;
    if a.significand.magnitude.len() > lenlimit || b.significand.magnitude.len() > lenlimit {
        proof {
            if a.significand.magnitude@.len() > lenlimit {
                lemma_bytes_bit_len(a.significand.magnitude@);
                assert(magnitude(a.significand@) == bytes_value(a.significand.magnitude@));
            } else {
                lemma_bytes_bit_len(b.significand.magnitude@);
                assert(magnitude(b.significand@) == bytes_value(b.significand.magnitude@));
            }
        }
        return false;
    }
    let ea: usize = if a.exponent < 0 {
        (0 - a.exponent) as usize
    } else {
        a.exponent as usize
    };
    let eb: usize = if b.exponent < 0 {
        (0 - b.exponent) as usize
    } else {
        b.exponent as usize
    };
    let bits_a = significand_bits(&a.significand);
    let bits_b = significand_bits(&b.significand);
    if bits_a > limit || bits_b > limit {
        return false;
    }
    ea + eb + bits_a + bits_b + a.precision + b.precision <= limit
}

} // verus!
