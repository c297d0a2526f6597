//! The answers sent for requests that the router itself refuses; each is
//! identified by the serial its caller draws.

use vstd::prelude::*;
use crate::error_code::ErrorKind;
use crate::resp::{HttpErrorData, fail, is_error_of};

verus! {

/// The answer to a request that needs authentication (HTTP 401).
pub fn unauthorized(serial: String) -> (e: HttpErrorData)
    ensures
        is_error_of(e, ErrorKind::Unauthorized),
        e.body.data.serial == serial,
{
    fail(ErrorKind::Unauthorized, serial)
}

/// The answer to a forbidden request (HTTP 403).
pub fn forbidden(serial: String) -> (e: HttpErrorData)
    ensures
        is_error_of(e, ErrorKind::Forbidden),
        e.body.data.serial == serial,
{
    fail(ErrorKind::Forbidden, serial)
}

/// The answer to a request for a path that does not exist (HTTP 404).
pub fn notfound(serial: String) -> (e: HttpErrorData)
    ensures
        is_error_of(e, ErrorKind::NotFound),
        e.body.data.serial == serial,
{
    fail(ErrorKind::NotFound, serial)
}

} // verus!
