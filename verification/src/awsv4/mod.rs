//! The pieces of AWS Signature Version 4: timestamps, the strings that get
//! signed, the signing-key derivation, and a check on raw HTTP requests.

pub mod date;
pub mod signer;
pub mod request;
