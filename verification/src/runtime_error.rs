//! What can go wrong while a token is generated.

use vstd::prelude::*;

verus! {

/// `hmac::digest::InvalidLength`, carried through as an opaque value.
#[verifier::external_type_specification]
#[verifier::external_body]
pub struct ExInvalidLength(hmac::digest::InvalidLength);

/// `jwt::Error`, carried through as an opaque value.
#[verifier::external_type_specification]
#[verifier::external_body]
pub struct ExJwtError(jwt::Error);

/// Every failure ends the request: none is retried and no partial token is
/// returned. Failures met outside this library arrive as their message.
#[derive(Debug)]
pub enum RuntimeError {
    /// The name of a registry function is missing from the configuration.
    ClientConfigLoadingError(String),
    /// A registry could not be invoked.
    LambdaInvokeError(String),
    /// The inventory record holds no serial number to sign with.
    MissingKey,
    /// The key does not suit the MAC.
    InvalidKey(hmac::digest::InvalidLength),
    /// The claims could not be encoded or signed.
    JwtError(jwt::Error),
    /// A request or a reply could not be encoded or decoded.
    SerializationError(String),
    /// A customer or vessel identifier is malformed.
    UuidError(String),
}

} // verus!
