//! The handling of one request, from the outcome of the two loads to the
//! response.

use crate::api::{ApiError, GeneratorRequest, GeneratorResponse, LicenseFetchResponse};
use crate::generator::{assemble_token, signing_key, Inventory, UnsignedToken};
use crate::model::claims_made;
use crate::runtime_error::RuntimeError;
use crate::signer::signed_token;
use vstd::prelude::*;
use vstd::utf8::encode_utf8;

verus! {

/// One of the two loads of a request.
pub enum Load {
    Inventory,
    Licenses,
}

/// The failure of a request whose loads ended as given, `first` being the
/// load that ended first: that of the load that failed, and of two that
/// failed that of the one that failed first.
pub open spec fn first_failure(
    inventory: Result<Inventory, RuntimeError>,
    licenses: Result<Vec<LicenseFetchResponse>, RuntimeError>,
    first: Load,
) -> Option<RuntimeError> {
    match (inventory, licenses) {
        (Ok(_), Ok(_)) => None,
        (Err(error), Ok(_)) => Some(error),
        (Ok(_), Err(error)) => Some(error),
        (Err(of_inventory), Err(of_licenses)) => match first {
            Load::Inventory => Some(of_inventory),
            Load::Licenses => Some(of_licenses),
        },
    }
}

/// Joins the two loads of a request, which both have come to their end,
/// `first` being the one that ended first. A load that failed fails the
/// request, and of two that failed the one that failed first. Else the
/// token is assembled from the request, the key of the inventory and the
/// licenses.
pub fn generate_license_file(
    request: GeneratorRequest,
    inventory: Result<Inventory, RuntimeError>,
    licenses: Result<Vec<LicenseFetchResponse>, RuntimeError>,
    first: Load,
) -> (token: Result<UnsignedToken, ApiError>)
    ensures
        match first_failure(inventory, licenses, first) {
            Some(error) => token == Err::<UnsignedToken, _>(
                ApiError::RuntimeError(Box::new(error)),
            ),
            None => {
                &&& token matches Ok(unsigned)
                &&& unsigned.key@ == signing_key(inventory->Ok_0)
                &&& claims_made(
                    unsigned.claims@,
                    licenses->Ok_0@,
                    request.customer_id,
                    request.vessel_id,
                    request.issuer@,
                    request.audience@,
                )
            },
        },
{
    match (inventory, licenses) {
        (Ok(Inventory::Key(key)), Ok(licenses)) => Ok(UnsignedToken::new(request, key, licenses)),
        (Ok(Inventory::Listing(inventory)), Ok(licenses)) => Ok(
            assemble_token(request, inventory, licenses),
        ),
        (Err(error), Ok(_)) => Err(ApiError::from(error)),
        (Ok(_), Err(error)) => Err(ApiError::from(error)),
        (Err(of_inventory), Err(of_licenses)) => match first {
            Load::Inventory => Err(ApiError::from(of_inventory)),
            Load::Licenses => Err(ApiError::from(of_licenses)),
        },
    }
}

/// Signs `token`, whose claims `claims` holds as the claims segment, and
/// wraps the signed token as the response. A failure to encode or to sign
/// fails the request.
pub fn complete_license_file(token: &UnsignedToken, claims: Result<String, jwt::Error>) -> (response: Result<GeneratorResponse, ApiError>)
    ensures
        match claims {
            Ok(segment) => response matches Ok(made) && made.token@ == signed_token(
                encode_utf8(token.key@),
                segment@,
            ),
            Err(error) => response == Err::<GeneratorResponse, _>(
                ApiError::RuntimeError(Box::new(RuntimeError::JwtError(error))),
            ),
        },
{
    match token.sign(claims) {
        Ok(signed) => Ok(GeneratorResponse::new(signed)),
        Err(error) => Err(ApiError::from(error)),
    }
}

} // verus!
