use vstd::prelude::*;

verus! {

/// The error taxonomy of this crate.
///
/// Every fallible operation reports exactly one of these categories:
/// - `ValidationError`: a caller-supplied parameter is outside the range the
///   protocol allows (for example a part number outside 1..=10000).
/// - `EncodingError`: a header or query value cannot be represented on the
///   wire (invalid header name or value syntax).
/// - `ConfigError`: the endpoint does not resolve to a host.
/// - `CryptoError`: the MAC primitive refused its key; never observed with
///   HMAC-SHA256, which accepts keys of any length.
/// - `DecodeError`: a response body is not well-formed XML, has an unexpected
///   event where a value was required, lacks a required field, or holds an
///   unparsable literal.
#[derive(Clone, Copy, Debug, PartialEq, Eq, Structural)]
pub enum S3Error {
    ValidationError,
    EncodingError,
    ConfigError,
    CryptoError,
    DecodeError,
}

} // verus!
