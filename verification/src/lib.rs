//! Byte-mode QR Code symbol encoder.
//!
//! * [`polynomials`]: sparse polynomials with byte coefficients.
//! * [`galois_field`]: the fields with 2^m elements and Reed-Solomon error
//!   correction in them.
//! * [`standard_qr_code`]: the symbol itself, from the choice of the version
//!   to the masked matrix with its format information.
//! * [`input`]: what is to be encoded, and at which level.
//! * [`error`]: the ways in which the construction can fail.
//!
//! Every function states what it returns as a contract over plain
//! mathematical models, and is verified against it.

pub mod error;
pub mod galois_field;
pub mod input;
pub mod polynomials;
pub mod standard_qr_code;
