//! The ways in which an operation on an `SRPInteger` can fail.

use vstd::prelude::*;
use vstd::string::*;

verus! {

/// Why an operation returned no value.
#[derive(Debug, Clone, Copy, PartialEq, Eq, Structural)]
pub enum SrpError {
    /// A negative integer was to be written in hexadecimal.
    UnrepresentableNegative,
    /// An integer without a length was to be written in hexadecimal.
    MissingWidth,
    /// A remainder or a modular power was asked for with modulus zero.
    UndefinedModulus,
    /// A negative power was asked for of a base that has no inverse for the
    /// modulus.
    NotInvertible,
}

impl SrpError {
    /// The sentence that describes the error.
    pub open spec fn reason_text(self) -> Seq<char> {
        match self {
            SrpError::UnrepresentableNegative => "Negative values cannot be represented in hex"@,
            SrpError::MissingWidth => "This SRPInteger has no specified length"@,
            SrpError::UndefinedModulus => "The modulus must not be zero"@,
            SrpError::NotInvertible => "The base has no inverse for this modulus"@,
        }
    }

    /// Returns the sentence that describes the error.
    pub fn reason(&self) -> (text: String)
        ensures
            text@ == self.reason_text(),
    {
        match self {
            SrpError::UnrepresentableNegative => String::from_str(
                "Negative values cannot be represented in hex",
            ),
            SrpError::MissingWidth => String::from_str("This SRPInteger has no specified length"),
            SrpError::UndefinedModulus => String::from_str("The modulus must not be zero"),
            SrpError::NotInvertible => String::from_str("The base has no inverse for this modulus"),
        }
    }
}

} // verus!
