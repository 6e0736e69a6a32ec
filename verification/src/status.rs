//! The status registry: a small closed catalog of status codes with their
//! reason phrases.

use vstd::prelude::*;

verus! {

/// A status code together with its reason phrase.
#[derive(Clone, Copy, Debug, PartialEq, Eq)]
pub struct StatusCode {
    pub code: u16,
    pub status: &'static str,
}

/// Pairs a code with its reason phrase.
pub fn status_code(code: u16, status: &'static str) -> (result: StatusCode)
    ensures
        result == (StatusCode { code, status }),
{
    StatusCode { code, status }
}

/// 200 OK.
#[verifier::allow_in_spec]
pub fn ok() -> StatusCode
    returns
        (StatusCode { code: 200, status: "OK" }),
{
    status_code(200, "OK")
}

/// 201 Created.
#[verifier::allow_in_spec]
pub fn created() -> StatusCode
    returns
        (StatusCode { code: 201, status: "Created" }),
{
    status_code(201, "Created")
}

/// 404 Not Found.
#[verifier::allow_in_spec]
pub fn not_found() -> StatusCode
    returns
        (StatusCode { code: 404, status: "Not Found" }),
{
    status_code(404, "Not Found")
}

/// 500 Internal Server Error.
#[verifier::allow_in_spec]
pub fn internal_server_error() -> StatusCode
    returns
        (StatusCode { code: 500, status: "Internal Server Error" }),
{
    status_code(500, "Internal Server Error")
}

} // verus!
