//! The mathematical model of an `SRPInteger`: an unbounded integer beside an
//! optional number of hexadecimal digits, and what each operation of the
//! library computes on it.

use crate::arith::{bit_xor, euclidean_rem, floor_mod, invertible_mod, mod_inverse};
use crate::error::SrpError;
use crate::hex::{hex_value, is_hex_text, pad_left, signed_hex};
use vstd::arithmetic::power::pow;
use vstd::prelude::*;

verus! {

/// What an `SRPInteger` stands for.
pub struct IntegerWithWidth {
    /// The integer itself, of any sign and size.
    pub magnitude: int,
    /// The number of hexadecimal digits to pad to when written, if known.
    pub display_width: Option<nat>,
}

/// The width that a result of two operands takes: the left one's where it has
/// one, else the right one's.
pub open spec fn width_or(left: Option<nat>, right: Option<nat>) -> Option<nat> {
    if left is Some {
        left
    } else {
        right
    }
}

/// A length in hexadecimal digits as the model holds it.
pub open spec fn width_of(length: Option<u64>) -> Option<nat> {
    match length {
        Some(len) => Some(len as nat),
        None => None,
    }
}

/// The 12 characters that open the diagnostic text.
pub open spec fn inspect_prefix() -> Seq<char> {
    seq!['<', 'S', 'R', 'P', 'I', 'n', 't', 'e', 'g', 'e', 'r', ' ']
}

impl IntegerWithWidth {
    /// Zero, without a width.
    pub open spec fn zero() -> Self {
        IntegerWithWidth { magnitude: 0, display_width: None }
    }

    /// The integer that a text denotes in base 16, or zero when the text holds
    /// anything but hexadecimal digits; the width is the length of the text
    /// either way.
    pub open spec fn from_hex(text: Seq<char>) -> Self {
        IntegerWithWidth {
            magnitude: if is_hex_text(text) {
                hex_value(text)
            } else {
                0
            },
            display_width: Some(text.len()),
        }
    }

    /// What a random draw of `bytes` bytes becomes: the drawn number itself,
    /// with two hexadecimal digits of width for each byte.
    pub open spec fn from_draw(draw: int, bytes: nat) -> Self {
        IntegerWithWidth { magnitude: draw, display_width: Some(2 * bytes) }
    }

    /// The exact sum; the left operand's width comes first.
    pub open spec fn add(self, other: Self) -> Self {
        IntegerWithWidth {
            magnitude: self.magnitude + other.magnitude,
            display_width: width_or(self.display_width, other.display_width),
        }
    }

    /// The exact difference; the left operand's width comes first.
    pub open spec fn subtract(self, other: Self) -> Self {
        IntegerWithWidth {
            magnitude: self.magnitude - other.magnitude,
            display_width: width_or(self.display_width, other.display_width),
        }
    }

    /// The exact product; the left operand's width comes first.
    pub open spec fn multiply(self, other: Self) -> Self {
        IntegerWithWidth {
            magnitude: self.magnitude * other.magnitude,
            display_width: width_or(self.display_width, other.display_width),
        }
    }

    /// Two's-complement exclusive-or; the left operand's width comes first.
    pub open spec fn xor(self, other: Self) -> Self {
        IntegerWithWidth {
            magnitude: bit_xor(self.magnitude, other.magnitude),
            display_width: width_or(self.display_width, other.display_width),
        }
    }

    /// Equality of the integers; the widths do not count.
    pub open spec fn equals(self, other: Self) -> bool {
        self.magnitude == other.magnitude
    }

    /// The Euclidean remainder by `modulus`, which is never negative, with
    /// the width of the modulus; an error for modulus zero.
    pub open spec fn modulo(self, modulus: Self) -> Result<Self, SrpError> {
        if modulus.magnitude == 0 {
            Err(SrpError::UndefinedModulus)
        } else {
            Ok(
                IntegerWithWidth {
                    magnitude: euclidean_rem(self.magnitude, modulus.magnitude),
                    display_width: modulus.display_width,
                },
            )
        }
    }

    /// The power of `self` to `exponent`, reduced by `modulus` with the
    /// remainder taking the sign of the modulus, and with the width of the
    /// modulus. A negative exponent takes the power of an inverse of `self`.
    /// An error for modulus zero, and for a negative exponent where `self`
    /// has no inverse.
    pub open spec fn mod_pow(self, exponent: Self, modulus: Self) -> Result<Self, SrpError> {
        if modulus.magnitude == 0 {
            Err(SrpError::UndefinedModulus)
        } else if exponent.magnitude >= 0 {
            Ok(
                IntegerWithWidth {
                    magnitude: floor_mod(
                        pow(self.magnitude, exponent.magnitude as nat),
                        modulus.magnitude,
                    ),
                    display_width: modulus.display_width,
                },
            )
        } else if invertible_mod(self.magnitude, modulus.magnitude) {
            Ok(
                IntegerWithWidth {
                    magnitude: floor_mod(
                        pow(
                            mod_inverse(self.magnitude, modulus.magnitude),
                            (-exponent.magnitude) as nat,
                        ),
                        modulus.magnitude,
                    ),
                    display_width: modulus.display_width,
                },
            )
        } else {
            Err(SrpError::NotInvertible)
        }
    }

    /// The hexadecimal numeral, padded with zeros to the width and never
    /// shortened; an error without a width, and else for a negative integer.
    pub open spec fn to_hex(self) -> Result<Seq<char>, SrpError> {
        match self.display_width {
            None => Err(SrpError::MissingWidth),
            Some(width) => if self.magnitude < 0 {
                Err(SrpError::UnrepresentableNegative)
            } else {
                Ok(pad_left(signed_hex(self.magnitude), width))
            },
        }
    }

    /// The diagnostic text: the hexadecimal numeral between `<SRPInteger `
    /// and `>`, cut after 16 characters and followed by three dots when it
    /// has more.
    pub open spec fn inspect(self) -> Seq<char> {
        let numeral = signed_hex(self.magnitude);
        let shown = if numeral.len() > 16 {
            numeral.subrange(0, 16) + seq!['.', '.', '.']
        } else {
            numeral
        };
        inspect_prefix() + shown + seq!['>']
    }
}

} // verus!
