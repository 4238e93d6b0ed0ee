//! Laws that relate the operations to each other, stated over what the
//! integers stand for.

use crate::arith::{
    in_floor_range, invertible_mod, is_inverse_mod, lemma_bit_xor_involution,
    lemma_euclidean_rem, lemma_floor_mod_range, lemma_power_of_inverse_inverts, magnitude,
    mod_inverse,
};
use crate::error::SrpError;
use crate::hex::{is_lower_hex_text, lemma_hex_round_trip};
use crate::model::IntegerWithWidth;
use vstd::arithmetic::power::pow;
use vstd::arithmetic::power2::pow2;
use vstd::prelude::*;

verus! {

/// The product of `count` copies of `base`, built with `multiply` from the
/// integer one.
pub open spec fn repeated_product(base: IntegerWithWidth, count: nat) -> IntegerWithWidth
    decreases count,
{
    if count == 0 {
        IntegerWithWidth { magnitude: 1, display_width: None }
    } else {
        repeated_product(base, (count - 1) as nat).multiply(base)
    }
}

/// Reading a non-empty text of lower-case hexadecimal digits and writing the
/// result gives the text back.
pub proof fn law_hex_round_trip(text: Seq<char>)
    requires
        text.len() > 0,
        is_lower_hex_text(text),
    ensures
        IntegerWithWidth::from_hex(text).to_hex() == Ok::<Seq<char>, SrpError>(text),
{
    lemma_hex_round_trip(text);
}

/// Subtracting what was added gives the first operand back, whatever the
/// widths are.
pub proof fn law_subtract_undoes_add(a: IntegerWithWidth, b: IntegerWithWidth)
    ensures
        a.add(b).subtract(b).equals(a),
{
}

/// The remainder by any modulus but zero is a natural number below the
/// magnitude of the modulus, and differs from the dividend by a multiple of
/// the modulus. The width of the dividend has no part in it.
pub proof fn law_modulo_range(value: IntegerWithWidth, modulus: IntegerWithWidth)
    requires
        modulus.magnitude != 0,
    ensures
        value.modulo(modulus) is Ok,
        0 <= value.modulo(modulus).unwrap().magnitude < magnitude(modulus.magnitude),
        (value.magnitude - value.modulo(modulus).unwrap().magnitude) % magnitude(
            modulus.magnitude,
        ) == 0,
        exists|k: int|
            value.magnitude - value.modulo(modulus).unwrap().magnitude == #[trigger] (k
                * modulus.magnitude),
        value.modulo(modulus).unwrap().display_width == modulus.display_width,
{
    lemma_euclidean_rem(value.magnitude, modulus.magnitude);
    let d = magnitude(modulus.magnitude);
    let k = if modulus.magnitude > 0 {
        value.magnitude / d
    } else {
        -(value.magnitude / d)
    };
    assert(value.magnitude - value.modulo(modulus).unwrap().magnitude == k * modulus.magnitude);
}

/// Only one natural number below the magnitude of the modulus differs from
/// the dividend by a multiple of the modulus: the remainder.
pub proof fn law_modulo_unique(value: IntegerWithWidth, modulus: IntegerWithWidth, r: int, k: int)
    requires
        modulus.magnitude != 0,
        0 <= r < magnitude(modulus.magnitude),
        value.magnitude - r == k * modulus.magnitude,
    ensures
        value.modulo(modulus) is Ok,
        value.modulo(modulus).unwrap().magnitude == r,
{
    let d = magnitude(modulus.magnitude);
    let q = if modulus.magnitude > 0 {
        k
    } else {
        -k
    };
    assert(value.magnitude == d * q + r) by (nonlinear_arith)
        requires
            value.magnitude - r == k * modulus.magnitude,
            d == magnitude(modulus.magnitude),
            q == if modulus.magnitude > 0 {
                k
            } else {
                -k
            },
    ;
    vstd::arithmetic::div_mod::lemma_fundamental_div_mod_converse(value.magnitude, d, q, r);
}

/// A random draw of `bytes` bytes is kept as it is: the result lies where
/// the draw lies, from zero up to 256 to the power of `bytes`, and two
/// different draws give two different integers.
pub proof fn law_random_draw_is_kept(first: int, second: int, bytes: nat)
    requires
        0 <= first < pow2(8 * bytes),
        0 <= second < pow2(8 * bytes),
    ensures
        IntegerWithWidth::from_draw(first, bytes).magnitude == first,
        0 <= IntegerWithWidth::from_draw(first, bytes).magnitude < pow2(8 * bytes),
        IntegerWithWidth::from_draw(first, bytes).display_width == Some(2 * bytes),
        first != second ==> !IntegerWithWidth::from_draw(first, bytes).equals(
            IntegerWithWidth::from_draw(second, bytes),
        ),
{
}

/// For an exponent that is not negative and a modulus above one, the modular
/// power is the remainder of the product of that many copies of the base.
pub proof fn law_mod_pow_is_repeated_multiplication(
    base: IntegerWithWidth,
    exponent: IntegerWithWidth,
    modulus: IntegerWithWidth,
)
    requires
        exponent.magnitude >= 0,
        modulus.magnitude > 1,
    ensures
        base.mod_pow(exponent, modulus) is Ok,
        repeated_product(base, exponent.magnitude as nat).modulo(modulus) is Ok,
        base.mod_pow(exponent, modulus).unwrap().equals(
            repeated_product(base, exponent.magnitude as nat).modulo(modulus).unwrap(),
        ),
{
    let count = exponent.magnitude as nat;
    lemma_repeated_product_is_power(base, count);
    lemma_euclidean_rem(pow(base.magnitude, count), modulus.magnitude);
}

/// The product of `count` copies of `base` is the power of `base` to `count`.
pub proof fn lemma_repeated_product_is_power(base: IntegerWithWidth, count: nat)
    ensures
        repeated_product(base, count).magnitude == pow(base.magnitude, count),
    decreases count,
{
    reveal(pow);
    if count > 0 {
        lemma_repeated_product_is_power(base, (count - 1) as nat);
        let rest = pow(base.magnitude, (count - 1) as nat);
        assert(rest * base.magnitude == base.magnitude * rest) by (nonlinear_arith);
    }
}

/// Exclusive-or with the same operand twice gives the first operand back.
pub proof fn law_xor_involution(a: IntegerWithWidth, b: IntegerWithWidth)
    ensures
        a.xor(b).xor(b).equals(a),
{
    lemma_bit_xor_involution(a.magnitude, b.magnitude);
}

/// Where the base has an inverse for the modulus, a negative power is an
/// inverse of the positive power of the same magnitude: their product and
/// one differ by a multiple of the modulus.
pub proof fn law_negative_power_inverts(
    base: IntegerWithWidth,
    exponent: IntegerWithWidth,
    modulus: IntegerWithWidth,
)
    requires
        exponent.magnitude < 0,
        modulus.magnitude != 0,
        invertible_mod(base.magnitude, modulus.magnitude),
    ensures
        base.mod_pow(exponent, modulus) is Ok,
        is_inverse_mod(
            pow(base.magnitude, (-exponent.magnitude) as nat),
            base.mod_pow(exponent, modulus).unwrap().magnitude,
            modulus.magnitude,
        ),
{
    lemma_power_of_inverse_inverts(
        base.magnitude,
        mod_inverse(base.magnitude, modulus.magnitude),
        (-exponent.magnitude) as nat,
        modulus.magnitude,
    );
}

/// Whenever a modular power exists, it lies on the side of the modulus: from
/// zero up to the modulus for a positive one, from zero down to it for a
/// negative one, the modulus itself left out.
pub proof fn law_mod_pow_range(
    base: IntegerWithWidth,
    exponent: IntegerWithWidth,
    modulus: IntegerWithWidth,
)
    requires
        base.mod_pow(exponent, modulus) is Ok,
    ensures
        in_floor_range(base.mod_pow(exponent, modulus).unwrap().magnitude, modulus.magnitude),
{
    let m = modulus.magnitude;
    if exponent.magnitude >= 0 {
        lemma_floor_mod_range(pow(base.magnitude, exponent.magnitude as nat), m);
    } else {
        lemma_floor_mod_range(
            pow(mod_inverse(base.magnitude, m), (-exponent.magnitude) as nat),
            m,
        );
    }
}

} // verus!
