//! `SRPInteger`: an arbitrary-precision integer beside the number of
//! hexadecimal digits it is written with.

use crate::arith::{lemma_euclidean_rem, lemma_power_of_any_inverse, magnitude};
use crate::bigint::{
    big_add, big_eq, big_int_value, big_modinv, big_modpow, big_mul, big_parse_hex,
    big_random_bits, big_rem, big_sign, big_sub, big_to_hex, big_xor, big_zero, IntegerSign,
};
use crate::error::SrpError;
use crate::hex::{is_hex_string, pad_with_zeros};
use crate::model::{inspect_prefix, width_of, IntegerWithWidth};
use num_bigint::BigInt;
use vstd::arithmetic::power2::pow2;
use vstd::prelude::*;
use vstd::string::*;

verus! {

/// A signed integer of any size, and the number of hexadecimal digits that
/// `to_hex` pads it to. The length is carried along by the operations; it
/// never bounds the integer.
pub struct SRPInteger {
    value: BigInt,
    hex_length: Option<u64>,
}

impl View for SRPInteger {
    type V = IntegerWithWidth;

    closed spec fn view(&self) -> IntegerWithWidth {
        IntegerWithWidth {
            magnitude: big_int_value(self.value),
            display_width: width_of(self.hex_length),
        }
    }
}

/// What an operation that can fail returned, with the integer replaced by
/// what it stands for.
pub open spec fn outcome_view(r: Result<SRPInteger, SrpError>) -> Result<
    IntegerWithWidth,
    SrpError,
> {
    match r {
        Ok(v) => Ok(v@),
        Err(e) => Err(e),
    }
}

/// What `to_hex` returned, with the string replaced by its characters.
pub open spec fn text_view(r: Result<String, SrpError>) -> Result<Seq<char>, SrpError> {
    match r {
        Ok(text) => Ok(text@),
        Err(e) => Err(e),
    }
}

/// The length of a result of two operands: the left one's where it has one,
/// else the right one's.
fn first_length(left: Option<u64>, right: Option<u64>) -> (r: Option<u64>)
    ensures
        r == if left is Some {
            left
        } else {
            right
        },
{
    match left {
        Some(_) => left,
        None => right,
    }
}

impl SRPInteger {
    /// Reads a hexadecimal numeral. The length of the result is the number
    /// of characters of `hex`. A text that holds anything but hexadecimal
    /// digits gives zero, and so does the empty text.
    pub fn new(hex: String) -> (r: Self)
        ensures
            r@ == IntegerWithWidth::from_hex(hex@),
    {
        let text = hex.as_str();
        let hex_length: u64 = text.unicode_len() as u64;
        let parsed = if hex_length > 0 && is_hex_string(text) {
            big_parse_hex(text)
        } else {
            None
        };
        let value = match parsed {
            Some(v) => v,
            None => big_zero(),
        };
        SRPInteger { value, hex_length: Some(hex_length) }
    }

    /// The Euclidean remainder of `self` by `modulus`: the one number from
    /// zero up to, and not including, the magnitude of the modulus that
    /// differs from `self` by a multiple of the modulus. It is never
    /// negative, whatever the signs of the operands. The result has the
    /// length of the modulus. Fails for modulus zero.
    pub fn modulo(&self, modulus: &SRPInteger) -> (r: Result<SRPInteger, SrpError>)
        ensures
            outcome_view(r) == self@.modulo(modulus@),
            modulus@.magnitude != 0 ==> r is Ok && 0 <= r.unwrap()@.magnitude < magnitude(
                modulus@.magnitude,
            ) && (self@.magnitude - r.unwrap()@.magnitude) % magnitude(modulus@.magnitude) == 0,
    {
        let side = big_sign(&modulus.value);
        if side == IntegerSign::NoSign {
            return Err(SrpError::UndefinedModulus);
        }
        let mut result = big_rem(&self.value, &modulus.value);
        if big_sign(&result) == IntegerSign::Minus {
            result = if side == IntegerSign::Plus {
                big_add(&result, &modulus.value)
            } else {
                big_sub(&result, &modulus.value)
            };
        }
        proof {
            lemma_euclidean_rem(self@.magnitude, modulus@.magnitude);
        }
        Ok(SRPInteger { value: result, hex_length: modulus.hex_length })
    }

    /// Writes the integer in lower-case hexadecimal, with zeros in front up
    /// to its length. A numeral that is longer than the length is not
    /// shortened. Fails without a length, and else for a negative integer.
    pub fn to_hex(&self) -> (r: Result<String, SrpError>)
        ensures
            text_view(r) == self@.to_hex(),
    {
        match self.hex_length {
            Some(len) => {
                let numeral = big_to_hex(&self.value);
                if big_sign(&self.value) == IntegerSign::Minus {
                    return Err(SrpError::UnrepresentableNegative);
                }
                Ok(pad_with_zeros(numeral.as_str(), len))
            },
            None => Err(SrpError::MissingWidth),
        }
    }

    /// A short text for diagnostics: the hexadecimal numeral between
    /// `<SRPInteger ` and `>`, cut after 16 characters and followed by
    /// three dots when it has more.
    pub fn inspect(&self) -> (text: String)
        ensures
            text@ == self@.inspect(),
    {
        let numeral = big_to_hex(&self.value);
        let shown = numeral.as_str();
        let mut text = String::from_str("<SRPInteger ");
        proof {
            reveal_strlit("<SRPInteger ");
            reveal_strlit("...");
            reveal_strlit(">");
            assert("<SRPInteger "@ =~= inspect_prefix());
            assert("..."@ =~= seq!['.', '.', '.']);
            assert(">"@ =~= seq!['>']);
        }
        if shown.unicode_len() > 16 {
            text.append(shown.substring_char(0, 16));
            text.append("...");
        } else {
            text.append(shown);
        }
        text.append(">");
        text
    }

    /// Reads a hexadecimal numeral, as `new` does.
    pub fn from_hex(input: String) -> (r: SRPInteger)
        ensures
            r@ == IntegerWithWidth::from_hex(input@),
    {
        SRPInteger::new(input)
    }

    /// Zero, without a length.
    pub fn zero() -> (r: SRPInteger)
        ensures
            r@ == IntegerWithWidth::zero(),
    {
        SRPInteger { value: big_zero(), hex_length: None }
    }

    /// Wraps an integer as it is, beside the given length.
    pub fn from_bigint(value: BigInt, hex_length: Option<u64>) -> (r: SRPInteger)
        ensures
            r@.magnitude == big_int_value(value),
            r@.display_width == width_of(hex_length),
    {
        SRPInteger { value, hex_length }
    }

    /// The integer.
    pub fn as_bigint(&self) -> (r: &BigInt)
        ensures
            big_int_value(*r) == self@.magnitude,
    {
        &self.value
    }

    /// The number of hexadecimal digits that `to_hex` pads to, if there is
    /// one.
    pub fn hex_length(&self) -> (r: Option<u64>)
        ensures
            width_of(r) == self@.display_width,
    {
        self.hex_length
    }

    /// What a random draw of `bytes` bytes becomes: the drawn number as it
    /// is, with two hexadecimal digits of length for each byte.
    pub fn from_draw(draw: BigInt, bytes: u32) -> (r: SRPInteger)
        ensures
            r@ == IntegerWithWidth::from_draw(big_int_value(draw), bytes as nat),
    {
        let digits: u64 = 2 * (bytes as u64);
        SRPInteger { value: draw, hex_length: Some(digits) }
    }

    /// A random natural number of `bytes` bytes, drawn from the thread's
    /// cryptographically secure generator, with two hexadecimal digits of
    /// length for each byte.
    pub fn random_integer(bytes: u32) -> (r: SRPInteger)
        ensures
            0 <= r@.magnitude < pow2(8 * bytes as nat),
            r@ == IntegerWithWidth::from_draw(r@.magnitude, bytes as nat),
    {
        let bits: u64 = 8 * (bytes as u64);
        let draw = big_random_bits(bits);
        SRPInteger::from_draw(draw, bytes)
    }

    /// The exact sum, with the length of `self` where it has one, else that
    /// of `other`.
    pub fn add(&self, other: &SRPInteger) -> (r: SRPInteger)
        ensures
            r@ == self@.add(other@),
    {
        SRPInteger {
            value: big_add(&self.value, &other.value),
            hex_length: first_length(self.hex_length, other.hex_length),
        }
    }

    /// The exact difference, with the length of `self` where it has one,
    /// else that of `other`.
    pub fn subtract(&self, other: &SRPInteger) -> (r: SRPInteger)
        ensures
            r@ == self@.subtract(other@),
    {
        SRPInteger {
            value: big_sub(&self.value, &other.value),
            hex_length: first_length(self.hex_length, other.hex_length),
        }
    }

    /// The exact product, with the length of `self` where it has one, else
    /// that of `other`.
    pub fn multiply(&self, other: &SRPInteger) -> (r: SRPInteger)
        ensures
            r@ == self@.multiply(other@),
    {
        SRPInteger {
            value: big_mul(&self.value, &other.value),
            hex_length: first_length(self.hex_length, other.hex_length),
        }
    }

    /// Bitwise exclusive-or of the two's-complement bit strings, with the
    /// length of `self` where it has one, else that of `other`.
    pub fn xor(&self, other: &SRPInteger) -> (r: SRPInteger)
        ensures
            r@ == self@.xor(other@),
    {
        SRPInteger {
            value: big_xor(&self.value, &other.value),
            hex_length: first_length(self.hex_length, other.hex_length),
        }
    }

    /// Tells whether both hold the same integer. The lengths do not count.
    pub fn equals(&self, other: &SRPInteger) -> (r: bool)
        ensures
            r == self@.equals(other@),
    {
        big_eq(&self.value, &other.value)
    }

    /// The power of `self` to `exponent`, reduced by `modulus`; the result
    /// takes the sign and the length of the modulus. For a negative exponent
    /// an inverse of `self` for the modulus is raised to the exponent's
    /// magnitude. Fails for modulus zero, and for a negative exponent where
    /// `self` has no inverse.
    pub fn mod_pow(&self, exponent: &SRPInteger, modulus: &SRPInteger) -> (r: Result<
        SRPInteger,
        SrpError,
    >)
        ensures
            outcome_view(r) == self@.mod_pow(exponent@, modulus@),
    {
        if big_sign(&modulus.value) == IntegerSign::NoSign {
            return Err(SrpError::UndefinedModulus);
        }
        if big_sign(&exponent.value) != IntegerSign::Minus {
            let power = big_modpow(&self.value, &exponent.value, &modulus.value);
            return Ok(SRPInteger { value: power, hex_length: modulus.hex_length });
        }
        match big_modinv(&self.value, &modulus.value) {
            Some(inverse) => {
                let times = big_sub(&big_zero(), &exponent.value);
                let power = big_modpow(&inverse, &times, &modulus.value);
                proof {
                    lemma_power_of_any_inverse(
                        self@.magnitude,
                        big_int_value(inverse),
                        (-exponent@.magnitude) as nat,
                        modulus@.magnitude,
                    );
                }
                Ok(SRPInteger { value: power, hex_length: modulus.hex_length })
            },
            None => Err(SrpError::NotInvertible),
        }
    }
}

} // verus!
