//! The request and response shapes of the generator and of the two registries.

use crate::runtime_error::RuntimeError;
use vstd::prelude::*;

verus! {

/// A point in time together with the offset from UTC it was written with.
#[derive(Clone, Copy, Debug, PartialEq, Eq, Structural)]
pub struct Timestamp {
    /// Whole seconds since 1970-01-01T00:00:00Z.
    pub seconds: i64,
    /// Nanoseconds past `seconds`.
    pub nanoseconds: u32,
    /// Seconds that local time is ahead of UTC.
    pub offset: i32,
}

/// A request for a token. Identifiers are the 128-bit values of the UUIDs,
/// most significant byte first.
pub struct GeneratorRequest {
    pub customer_id: u128,
    pub vessel_id: u128,
    pub issuer: String,
    pub audience: String,
    /// Names the inventory record that holds the signing secret.
    pub inventory_key: Option<String>,
}

/// The answer to a token request.
pub struct GeneratorResponse {
    pub token: String,
}

impl GeneratorResponse {
    /// The answer that hands out `token`.
    pub fn new(token: String) -> (response: Self)
        ensures
            response.token == token,
    {
        Self { token }
    }
}

/// Asks the inventory registry for one record of the inventory of a vessel.
pub struct InventoryFetchRequest {
    pub customer_id: u128,
    pub vessel_id: u128,
    pub inventory_type: String,
    pub inventory_id: String,
}

/// Asks the inventory registry for one page of the inventory of a vessel:
/// the first page, or the page that `page_token` stands for.
pub struct InventoryListRequest {
    pub customer_id: u128,
    pub vessel_id: u128,
    pub page_token: Option<String>,
}

/// One record of the inventory of a vessel. The serial number is the secret
/// that tokens are signed with.
pub struct InventoryFetchResponse {
    pub inventory_type: String,
    pub inventory_id: String,
    pub serial_number: Option<String>,
    pub aws_instance_id: Option<String>,
    pub created_at: Timestamp,
}

/// One page of the inventory of a vessel. It is the last page where it
/// holds no token.
pub struct InventoryListResponse {
    pub inventory: Vec<InventoryFetchResponse>,
    pub page_token: Option<String>,
}

/// Asks the license registry for one page of the licenses of a vessel: the
/// first page, or the page that `page_token` stands for.
pub struct LicensesListRequest {
    pub customer_id: u128,
    pub vessel_id: u128,
    pub page_token: Option<String>,
}

/// One license of a vessel.
pub struct LicenseFetchResponse {
    pub license_key: String,
    pub count: Option<u8>,
    pub expires_at: Option<Timestamp>,
}

/// One page of the licenses of a vessel. It is the last page where it holds
/// no token.
pub struct LicensesListResponse {
    pub licenses: Vec<LicenseFetchResponse>,
    pub page_token: Option<String>,
}

/// The failure of a request.
#[derive(Debug)]
pub enum ApiError {
    RuntimeError(Box<RuntimeError>),
}

impl From<RuntimeError> for ApiError {
    fn from(error: RuntimeError) -> (api_error: Self) {
        ApiError::RuntimeError(Box::new(error))
    }
}

impl vstd::std_specs::convert::FromSpecImpl<RuntimeError> for ApiError {
    open spec fn obeys_from_spec() -> bool {
        true
    }

    open spec fn from_spec(error: RuntimeError) -> Self {
        ApiError::RuntimeError(Box::new(error))
    }
}

} // verus!
