//! The decisions of the network service: API-key gating, server-assigned
//! identifiers, and the status and tag that each failure is answered with.
use vstd::prelude::*;

use crate::license::{License, SignedLicense, validation_outcome};
use crate::primitives::new_identifier;
use crate::date::Date;

verus! {

/// Why a request to the service failed.
#[derive(Clone, Copy, Debug, PartialEq, Eq, Structural)]
pub enum ApiFailure {
    NotFound,
    InvalidLicense,
    InvalidGenerateRequest,
    InvalidApiKey,
    BadRequest,
    MissingApiKeyHeader,
    Unhandled,
}

impl ApiFailure {
    /// The HTTP status of the response.
    pub fn status_code(&self) -> (r: u16)
        ensures
            *self == ApiFailure::NotFound ==> r == 404,
            *self == ApiFailure::Unhandled ==> r == 500,
            *self != ApiFailure::NotFound && *self != ApiFailure::Unhandled ==> r == 400,
    {
        match self {
            ApiFailure::NotFound => 404,
            ApiFailure::Unhandled => 500,
            _ => 400,
        }
    }

    /// The tag that the response body carries.
    pub fn message(&self) -> (r: &'static str)
        ensures
            *self == ApiFailure::NotFound ==> r@ == "NOT_FOUND"@,
            *self == ApiFailure::InvalidLicense ==> r@ == "INVALID_LICENSE"@,
            *self == ApiFailure::InvalidGenerateRequest ==> r@ == "INVALID_GENERATE_REQUEST"@,
            *self == ApiFailure::InvalidApiKey ==> r@ == "INVALID_API_KEY"@,
            *self == ApiFailure::BadRequest ==> r@ == "BAD_REQUEST"@,
            *self == ApiFailure::MissingApiKeyHeader ==> r@ == "MISSING_API_KEY_HEADER"@,
            *self == ApiFailure::Unhandled ==> r@ == "UNHANDLED_REJECTION"@,
    {
        match self {
            ApiFailure::NotFound => "NOT_FOUND",
            ApiFailure::InvalidLicense => "INVALID_LICENSE",
            ApiFailure::InvalidGenerateRequest => "INVALID_GENERATE_REQUEST",
            ApiFailure::InvalidApiKey => "INVALID_API_KEY",
            ApiFailure::BadRequest => "BAD_REQUEST",
            ApiFailure::MissingApiKeyHeader => "MISSING_API_KEY_HEADER",
            ApiFailure::Unhandled => "UNHANDLED_REJECTION",
        }
    }
}

/// What checking the supplied API key against the expected one gives.
pub open spec fn authorization(supplied: Option<Seq<char>>, expected: Seq<char>) -> Result<(), ApiFailure> {
    match supplied {
        None => Err(ApiFailure::MissingApiKeyHeader),
        Some(k) => if k == expected { Ok(()) } else { Err(ApiFailure::InvalidApiKey) },
    }
}

/// Checks the API key that a request supplied, if any, against `expected`.
pub fn authorize(supplied: Option<&str>, expected: &str) -> (r: Result<(), ApiFailure>)
    ensures
        r == authorization(
            match supplied { Some(k) => Some(k@), None => None },
            expected@,
        ),
{
    match supplied {
        None => Err(ApiFailure::MissingApiKeyHeader),
        Some(k) => {
            if crate::license::same_text(k, expected) {
                Ok(())
            } else {
                Err(ApiFailure::InvalidApiKey)
            }
        },
    }
}

/// Answers a generate request: the caller's key must match `api_key`; the
/// license gets a fresh identifier in place of any it carried, and its token
/// signed under `secret` is returned.
pub fn handle_generate(
    secret: String,
    api_key: &str,
    supplied: Option<&str>,
    lic: License,
) -> (r: Result<String, ApiFailure>)
    ensures
        authorization(match supplied { Some(k) => Some(k@), None => None }, api_key@) matches Err(
            e,
        ) ==> r == Err::<String, ApiFailure>(e),
        authorization(match supplied { Some(k) => Some(k@), None => None }, api_key@) is Ok ==> (
        r is Ok),
        r matches Ok(t) ==> exists|id: Seq<char>| t@ == lic.spec_token_with_id(id, secret@),
{
    match authorize(supplied, api_key) {
        Err(e) => return Err(e),
        Ok(()) => {},
    }
    let id = new_identifier();
    let ghost id_view = id@;
    let issued = License { id: Some(id), ..lic };
    match issued.hash(secret) {
        Ok(t) => {
            assert(t@ == lic.spec_token_with_id(id_view, secret@));
            Ok(t)
        },
        Err(_) => Err(ApiFailure::InvalidGenerateRequest),
    }
}

/// Answers a validate request for a decoded license on the day `today`.
pub fn handle_validate_at(secret: String, sl: &SignedLicense, today: Date) -> (r: Result<(), ApiFailure>)
    ensures
        r is Ok <==> validation_outcome(*sl, secret@, today.ymd()) is Ok,
        r is Err ==> r == Err::<(), ApiFailure>(ApiFailure::InvalidLicense),
{
    match sl.validate_at(secret, today) {
        Ok(()) => Ok(()),
        Err(_) => Err(ApiFailure::InvalidLicense),
    }
}

/// Answers a validate request for a decoded license on today's date in UTC.
pub fn handle_validate(secret: String, sl: &SignedLicense) -> (r: Result<(), ApiFailure>)
    ensures
        exists|today: Date| today.wf() && (r is Ok <==> validation_outcome(*sl, secret@, today.ymd()) is Ok),
        r is Err ==> r == Err::<(), ApiFailure>(ApiFailure::InvalidLicense),
{
    match sl.validate(secret) {
        Ok(()) => Ok(()),
        Err(_) => Err(ApiFailure::InvalidLicense),
    }
}

} // verus!
