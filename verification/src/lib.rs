//! AWS Signature Version 4 signing primitives and the pure parts of a small
//! HTTP/1.1 client, with their behaviour stated and checked by Verus.
//!
//! - [`awsv4`]: timestamps, canonical requests, strings to sign, signatures,
//!   and a check that text holds a complete request head.
//! - [`client`]: where to connect for a URI, and when received bytes hold a
//!   complete response head.
//! - [`head`]: `httparse` calls and the plain values that stand for their
//!   outcomes.
//! - [`crypto`]: SHA-256, HMAC-SHA256 and hex encoding.

pub mod awsv4;
pub mod client;
pub mod crypto;
pub mod head;
