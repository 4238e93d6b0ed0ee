//! The boundary to `num_bigint`: the `BigInt` type, the integer that a
//! `BigInt` holds, and one wrapper for each operation that the library calls.
//! Nothing in this file is proved: each contract restates what `num_bigint`
//! documents of the operation that the body calls.

use crate::arith::{bit_xor, floor_mod, in_floor_range, invertible_mod, is_inverse_mod, magnitude, truncated_rem};
use crate::hex::{hex_value, is_hex_text, signed_hex};
use num_bigint::BigInt;
use num_bigint::RandBigInt;
use num_bigint::Sign;
use vstd::arithmetic::power::pow;
use vstd::arithmetic::power2::pow2;
use vstd::prelude::*;

verus! {

#[verifier::external_type_specification]
#[verifier::external_body]
pub struct ExBigInt(num_bigint::BigInt);

/// The mathematical integer that a `BigInt` holds.
pub uninterp spec fn big_int_value(b: BigInt) -> int;

/// The side of zero that an integer lies on, as `num_bigint::Sign` tells it.
#[derive(Debug, Clone, Copy, PartialEq, Eq, Structural)]
pub enum IntegerSign {
    /// Below zero.
    Minus,
    /// Zero.
    NoSign,
    /// Above zero.
    Plus,
}

/// The sign of a mathematical integer.
pub open spec fn sign_of(v: int) -> IntegerSign {
    if v < 0 {
        IntegerSign::Minus
    } else if v == 0 {
        IntegerSign::NoSign
    } else {
        IntegerSign::Plus
    }
}

/// `num_traits::Zero::zero` for `BigInt`: the integer zero.
#[verifier::external_body]
pub(crate) fn big_zero() -> (r: BigInt)
    ensures
        big_int_value(r) == 0,
{
    <BigInt as num_traits::Zero>::zero()
}

/// `BigInt::parse_bytes` with radix 16, on a non-empty text of hexadecimal
/// digits: it succeeds, and the result is the number that the digits denote.
/// Texts with a sign, an underscore or any other character are kept away from
/// it, so nothing is claimed about them.
#[verifier::external_body]
pub(crate) fn big_parse_hex(text: &str) -> (r: Option<BigInt>)
    requires
        text@.len() > 0,
        is_hex_text(text@),
    ensures
        r is Some,
        big_int_value(r.unwrap()) == hex_value(text@),
{
    BigInt::parse_bytes(text.as_bytes(), 16)
}

/// `BigInt::to_str_radix` with radix 16: the lower-case hexadecimal numeral
/// without leading zeros, behind a minus sign when the integer is negative.
#[verifier::external_body]
pub(crate) fn big_to_hex(a: &BigInt) -> (r: String)
    ensures
        r@ == signed_hex(big_int_value(*a)),
{
    a.to_str_radix(16)
}

/// `BigInt::sign`: which side of zero the integer lies on.
#[verifier::external_body]
pub(crate) fn big_sign(a: &BigInt) -> (r: IntegerSign)
    ensures
        r == sign_of(big_int_value(*a)),
{
    match a.sign() {
        Sign::Minus => IntegerSign::Minus,
        Sign::NoSign => IntegerSign::NoSign,
        Sign::Plus => IntegerSign::Plus,
    }
}

/// `==` on `BigInt`: true exactly when both hold the same integer.
#[verifier::external_body]
pub(crate) fn big_eq(a: &BigInt, b: &BigInt) -> (r: bool)
    ensures
        r == (big_int_value(*a) == big_int_value(*b)),
{
    a == b
}

/// `&a + &b` on `BigInt`: the exact sum.
#[verifier::external_body]
pub(crate) fn big_add(a: &BigInt, b: &BigInt) -> (r: BigInt)
    ensures
        big_int_value(r) == big_int_value(*a) + big_int_value(*b),
{
    a + b
}

/// `&a - &b` on `BigInt`: the exact difference.
#[verifier::external_body]
pub(crate) fn big_sub(a: &BigInt, b: &BigInt) -> (r: BigInt)
    ensures
        big_int_value(r) == big_int_value(*a) - big_int_value(*b),
{
    a - b
}

/// `&a * &b` on `BigInt`: the exact product.
#[verifier::external_body]
pub(crate) fn big_mul(a: &BigInt, b: &BigInt) -> (r: BigInt)
    ensures
        big_int_value(r) == big_int_value(*a) * big_int_value(*b),
{
    a * b
}

/// `&a % &m` on `BigInt`: the remainder of the division that rounds toward
/// zero, whose sign follows `a`. It panics on a zero divisor, which
/// `requires` keeps away.
#[verifier::external_body]
pub(crate) fn big_rem(a: &BigInt, m: &BigInt) -> (r: BigInt)
    requires
        big_int_value(*m) != 0,
    ensures
        big_int_value(r) == truncated_rem(big_int_value(*a), big_int_value(*m)),
{
    a % m
}

/// `&a ^ &b` on `BigInt`: exclusive-or of the two's-complement bit strings,
/// a negative operand continuing in ones.
#[verifier::external_body]
pub(crate) fn big_xor(a: &BigInt, b: &BigInt) -> (r: BigInt)
    ensures
        big_int_value(r) == bit_xor(big_int_value(*a), big_int_value(*b)),
{
    a ^ b
}

/// `BigInt::modpow`: the power `base ^ exponent`, reduced by `modulus` as
/// `mod_floor` does, so that the result has the sign of the modulus. It
/// panics on a negative exponent and on a zero modulus, which `requires`
/// keeps away.
#[verifier::external_body]
pub(crate) fn big_modpow(base: &BigInt, exponent: &BigInt, modulus: &BigInt) -> (r: BigInt)
    requires
        big_int_value(*exponent) >= 0,
        big_int_value(*modulus) != 0,
    ensures
        big_int_value(r) == floor_mod(
            pow(big_int_value(*base), big_int_value(*exponent) as nat),
            big_int_value(*modulus),
        ),
{
    base.modpow(exponent, modulus)
}

/// `BigInt::modinv`: a multiplicative inverse of `a` modulo `modulus` where
/// one exists, `None` where none does. For a modulus other than 1 and -1 the
/// inverse lies where a floored remainder lies. It panics on a zero modulus,
/// which `requires` keeps away.
#[verifier::external_body]
pub(crate) fn big_modinv(a: &BigInt, modulus: &BigInt) -> (r: Option<BigInt>)
    requires
        big_int_value(*modulus) != 0,
    ensures
        match r {
            Some(x) => {
                &&& is_inverse_mod(big_int_value(*a), big_int_value(x), big_int_value(*modulus))
                &&& magnitude(big_int_value(*modulus)) > 1 ==> in_floor_range(
                    big_int_value(x),
                    big_int_value(*modulus),
                )
            },
            None => !invertible_mod(big_int_value(*a), big_int_value(*modulus)),
        },
{
    a.modinv(modulus)
}

/// `RandBigInt::gen_biguint` on `rand::thread_rng()`, turned into a `BigInt`:
/// a natural number of at most `bits` bits. Which one is left open: two calls
/// may differ. It panics when the digits for `bits` bits cannot be counted in
/// a `usize`, which `requires` keeps away, and when the operating system
/// gives the generator no seed, which no contract can keep away.
#[verifier::external_body]
pub(crate) fn big_random_bits(bits: u64) -> (r: BigInt)
    requires
        bits / 32 < usize::MAX,
    ensures
        0 <= big_int_value(r) < pow2(bits as nat),
{
    BigInt::from(rand::thread_rng().gen_biguint(bits))
}

} // verus!
