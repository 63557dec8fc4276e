//! Arbitrary-precision integers, provided by the `num-bigint` crate.
//!
//! Every verified function in this crate reasons about a `num_bigint::BigInt`
//! through its mathematical value `int_value`, an abstract view that the
//! trusted wrappers below relate to the operations of the `num-bigint` crate.

use vstd::prelude::*;
use vstd::arithmetic::power2::pow2;
use num_traits::ToPrimitive;
use num_traits::Zero;

verus! {

#[verifier::external_type_specification]
#[verifier::external_body]
pub struct ExBigInt(num_bigint::BigInt);

/// The mathematical value of a `num_bigint::BigInt`.
pub uninterp spec fn int_value(x: num_bigint::BigInt) -> int;

/// Value of a big-endian byte string read as an unsigned integer.
pub open spec fn be_value(s: Seq<u8>) -> int
    decreases s.len(),
{
    if s.len() == 0 {
        0
    } else {
        be_value(s.drop_last()) * 256 + s.last()
    }
}

/// Number of bits needed to represent `n`; zero needs none.
pub open spec fn bitlen(n: nat) -> nat
    decreases n,
{
    if n == 0 {
        0nat
    } else {
        1 + bitlen(n / 2)
    }
}

/// Remainder with the sign of the dividend, as `%` behaves on a positive
/// divisor.
pub open spec fn trunc_rem(a: int, m: int) -> int {
    if a >= 0 {
        a % m
    } else {
        -((-a) % m)
    }
}

/// `s` is the shortest big-endian encoding of the non-negative value `n`.
pub open spec fn is_min_be(s: Seq<u8>, n: int) -> bool {
    &&& be_value(s) == n
    &&& (s.len() == 0 <==> n == 0)
    &&& (s.len() > 0 ==> s[0] != 0)
}

/// A big-endian byte string is never negative.
pub proof fn lemma_be_value_nonneg(s: Seq<u8>)
    ensures
        be_value(s) >= 0,
    decreases s.len(),
{
    if s.len() > 0 {
        lemma_be_value_nonneg(s.drop_last());
    }
}

/// A value determines its shortest big-endian encoding.
pub proof fn lemma_min_be_unique(a: Seq<u8>, b: Seq<u8>, n: int)
    requires
        is_min_be(a, n),
        is_min_be(b, n),
    ensures
        a == b,
    decreases a.len(),
{
    lemma_be_value_bound(a);
    lemma_be_value_bound(b);
    if a.len() == 0 || b.len() == 0 {
        if a.len() != b.len() {
            if a.len() > 0 {
                lemma_be_value_nonzero(a);
            } else if b.len() > 0 {
                lemma_be_value_nonzero(b);
            }
            assert(false);
        }
        assert(a =~= b);
    } else {
        let a1 = a.drop_last();
        let b1 = b.drop_last();
        lemma_be_value_nonneg(a1);
        lemma_be_value_nonneg(b1);
        if a.len() == 1 && b.len() == 1 {
            assert(a =~= b);
        } else {
            assert(be_value(a1) * 256 + a.last() == be_value(b1) * 256 + b.last());
            assert(be_value(a1) == be_value(b1) && a.last() == b.last()) by (nonlinear_arith)
                requires
                    be_value(a1) * 256 + a.last() == be_value(b1) * 256 + b.last(),
                    0 <= a.last() < 256,
                    0 <= b.last() < 256,
                    be_value(a1) >= 0,
                    be_value(b1) >= 0,
            ;
            if a.len() >= 2 && b.len() >= 2 {
                assert(a1[0] == a[0] && b1[0] == b[0]);
                lemma_be_value_nonzero(a1);
                lemma_be_value_nonzero(b1);
                lemma_min_be_unique(a1, b1, be_value(a1));
                assert(a =~= a1.push(a.last()));
                assert(b =~= b1.push(b.last()));
            } else if a.len() == 1 {
                // b has at least 2 bytes with no leading zero, so its value
                // is at least 256, while a's value is below 256.
                lemma_be_value_lower(b);
                assert(false);
            } else {
                lemma_be_value_lower(a);
                assert(false);
            }
        }
    }
}

/// A nonempty encoding with a nonzero leading byte encodes a nonzero value.
proof fn lemma_be_value_nonzero(s: Seq<u8>)
    requires
        s.len() > 0,
        s[0] != 0,
    ensures
        be_value(s) > 0,
    decreases s.len(),
{
    if s.len() == 1 {
        assert(s.drop_last().len() == 0);
        assert(be_value(s.drop_last()) == 0);
        assert(be_value(s) == s.last());
        assert(s.last() == s[0]);
    } else {
        let s1 = s.drop_last();
        assert(s1[0] == s[0]);
        lemma_be_value_nonzero(s1);
        assert(be_value(s1) * 256 >= 256) by (nonlinear_arith)
            requires
                be_value(s1) >= 1,
        ;
    }
}

/// An encoding of `k` bytes with a nonzero leading byte encodes a value of at
/// least `256^(k-1)`.
proof fn lemma_be_value_lower(s: Seq<u8>)
    requires
        s.len() >= 2,
        s[0] != 0,
    ensures
        be_value(s) >= 256,
    decreases s.len(),
{
    let s1 = s.drop_last();
    assert(s1[0] == s[0]);
    if s1.len() == 1 {
        lemma_be_value_nonzero(s1);
    } else {
        lemma_be_value_lower(s1);
    }
    assert(be_value(s1) * 256 >= 256) by (nonlinear_arith)
        requires
            be_value(s1) >= 1,
    ;
}

/// A byte string of `k` bytes encodes a value below `256^k`; stated here only
/// as non-negativity plus the per-byte bound used by the uniqueness proof.
proof fn lemma_be_value_bound(s: Seq<u8>)
    ensures
        be_value(s) >= 0,
        s.len() == 1 ==> be_value(s) < 256,
    decreases s.len(),
{
    lemma_be_value_nonneg(s);
    if s.len() == 1 {
        assert(s.drop_last().len() == 0);
        assert(be_value(s.drop_last()) == 0);
        assert(be_value(s) == be_value(s.drop_last()) * 256 + s.last());
        assert(be_value(s) == s.last());
    }
}

/// Relies on `num_bigint::BigInt::from::<u64>`.
#[verifier::external_body]
pub(crate) fn int_from_u64(v: u64) -> (r: num_bigint::BigInt)
    ensures
        int_value(r) == v as int,
{
    num_bigint::BigInt::from(v)
}

/// Relies on `num_bigint::BigInt::from_bytes_be` with `Sign::Plus`: the slice
/// is read as an unsigned big-endian integer.
#[verifier::external_body]
pub(crate) fn int_from_digits_be(digits: &[u8]) -> (r: num_bigint::BigInt)
    ensures
        int_value(r) == be_value(digits@),
{
    num_bigint::BigInt::from_bytes_be(num_bigint::Sign::Plus, digits)
}

/// Relies on `num_bigint::BigInt::to_bytes_be`: for a positive value, the
/// digits of the magnitude, most significant first, with no leading zero.
#[verifier::external_body]
pub(crate) fn int_to_digits_be_positive(x: &num_bigint::BigInt) -> (r: Vec<u8>)
    requires
        int_value(*x) > 0,
    ensures
        be_value(r@) == int_value(*x),
        r@.len() > 0,
        r@[0] != 0,
{
    x.to_bytes_be().1
}

/// The shortest big-endian encoding of a non-negative value: empty for zero.
pub(crate) fn int_encode_be(x: &num_bigint::BigInt) -> (r: Vec<u8>)
    requires
        int_value(*x) >= 0,
    ensures
        is_min_be(r@, int_value(*x)),
{
    if int_is_zero(x) {
        Vec::new()
    } else {
        int_to_digits_be_positive(x)
    }
}

/// Relies on `<num_bigint::BigInt as Clone>::clone`.
#[verifier::external_body]
pub(crate) fn int_clone(x: &num_bigint::BigInt) -> (r: num_bigint::BigInt)
    ensures
        int_value(r) == int_value(*x),
{
    x.clone()
}

/// Relies on `Rem<&BigInt> for &BigInt`: remainder rounding towards zero, so
/// its sign follows the dividend.
#[verifier::external_body]
pub(crate) fn int_rem(a: &num_bigint::BigInt, m: &num_bigint::BigInt) -> (r: num_bigint::BigInt)
    requires
        int_value(*m) > 0,
    ensures
        int_value(r) == trunc_rem(int_value(*a), int_value(*m)),
{
    a % m
}

/// Relies on `RemAssign<&BigInt> for BigInt`: remainder rounding towards
/// zero.
#[verifier::external_body]
pub(crate) fn int_rem_assign(a: &mut num_bigint::BigInt, m: &num_bigint::BigInt)
    requires
        int_value(*m) > 0,
    ensures
        int_value(*final(a)) == trunc_rem(int_value(*old(a)), int_value(*m)),
{
    *a %= m;
}

/// Relies on `MulAssign<&BigInt> for BigInt`.
#[verifier::external_body]
pub(crate) fn int_mul_assign(a: &mut num_bigint::BigInt, b: &num_bigint::BigInt)
    ensures
        int_value(*final(a)) == int_value(*old(a)) * int_value(*b),
{
    *a *= b;
}

/// Squares a value in place, reducing it by the modulus.
pub(crate) fn int_square_rem(a: &mut num_bigint::BigInt, m: &num_bigint::BigInt)
    requires
        int_value(*old(a)) >= 0,
        int_value(*m) > 0,
    ensures
        int_value(*final(a)) == (int_value(*old(a)) * int_value(*old(a))) % int_value(*m),
{
    let sq = int_clone(a);
    int_mul_assign(a, &sq);
    proof {
        vstd::arithmetic::mul::lemma_mul_nonnegative(int_value(*a), int_value(*a));
    }
    int_rem_assign(a, m);
}

/// Relies on `AddAssign<&BigInt> for BigInt`.
#[verifier::external_body]
pub(crate) fn int_add_assign(a: &mut num_bigint::BigInt, b: &num_bigint::BigInt)
    ensures
        int_value(*final(a)) == int_value(*old(a)) + int_value(*b),
{
    *a += b;
}

/// Relies on `ShlAssign<u64> for BigInt`: multiplication by a power of two.
#[verifier::external_body]
pub(crate) fn int_shl_assign(a: &mut num_bigint::BigInt, s: u64)
    ensures
        int_value(*final(a)) == int_value(*old(a)) * pow2(s as nat),
{
    *a <<= s;
}

/// Relies on `Div<u32> for BigInt`: quotient rounding towards zero.
#[verifier::external_body]
pub(crate) fn int_div_u32(a: num_bigint::BigInt, d: u32) -> (r: num_bigint::BigInt)
    requires
        int_value(a) >= 0,
        d > 0,
    ensures
        int_value(r) == int_value(a) / (d as int),
{
    a / d
}

/// Relies on `PartialOrd for BigInt`.
#[verifier::external_body]
pub(crate) fn int_ge(a: &num_bigint::BigInt, b: &num_bigint::BigInt) -> (r: bool)
    ensures
        r == (int_value(*a) >= int_value(*b)),
{
    a >= b
}

/// Relies on `num_traits::Zero::is_zero` for `BigInt`.
#[verifier::external_body]
pub(crate) fn int_is_zero(a: &num_bigint::BigInt) -> (r: bool)
    ensures
        r == (int_value(*a) == 0),
{
    a.is_zero()
}

/// Relies on `PartialEq for BigInt`.
#[verifier::external_body]
pub(crate) fn int_eq(a: &num_bigint::BigInt, b: &num_bigint::BigInt) -> (r: bool)
    ensures
        r == (int_value(*a) == int_value(*b)),
{
    a == b
}

/// Relies on `num_traits::ToPrimitive::to_u64` for `BigInt`: succeeds exactly
/// on values that fit.
#[verifier::external_body]
pub(crate) fn int_to_u64(x: &num_bigint::BigInt) -> (r: Option<u64>)
    ensures
        match r {
            Some(v) => v as int == int_value(*x),
            None => int_value(*x) < 0 || int_value(*x) > u64::MAX as int,
        },
{
    x.to_u64()
}

/// Relies on `num_bigint::BigInt::bits`: the number of bits of the magnitude,
/// and zero for zero.
#[verifier::external_body]
pub(crate) fn int_bits(x: &num_bigint::BigInt) -> (r: u64)
    requires
        int_value(*x) >= 0,
    ensures
        r as nat == bitlen(int_value(*x) as nat),
{
    x.bits()
}

/// Relies on `num_bigint::BigInt::modpow`: modular exponentiation, with the
/// result in `[0, modulus)` for a positive modulus; it panics only for a
/// negative exponent or a zero modulus.
#[verifier::external_body]
pub(crate) fn int_modpow(
    b: &num_bigint::BigInt,
    e: &num_bigint::BigInt,
    m: &num_bigint::BigInt,
) -> (r: num_bigint::BigInt)
    requires
        int_value(*b) >= 0,
        int_value(*e) >= 0,
        int_value(*m) > 0,
    ensures
        int_value(r) == vstd::arithmetic::power::pow(int_value(*b), int_value(*e) as nat)
            % int_value(*m),
{
    b.modpow(e, m)
}

} // verus!
