//! A signed arbitrary-precision integer that carries the number of hexadecimal
//! digits it is serialized with: the arithmetic building block of a Secure
//! Remote Password key exchange.

pub mod arith;
pub mod bigint;
pub mod error;
pub mod hex;
pub mod integer;
pub mod laws;
pub mod model;

pub use error::SrpError;
pub use integer::SRPInteger;
