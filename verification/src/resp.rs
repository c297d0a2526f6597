//! The bodies the server answers with: a success envelope, and an error with the
//! status it is sent with.

use vstd::prelude::*;
use crate::error_code::{ErrorKind, spec_code, spec_status, spec_reason};

verus! {

/// The envelope of every answer: `success` is 1 for a result and 0 for an error.
pub struct Data<T> {
    pub success: u8,
    pub data: T,
}

/// The body of an error answer: its code, a random serial that identifies the
/// occurrence in the logs, and the reason shown to the user.
pub struct HttpError {
    pub code: u16,
    pub serial: String,
    pub tip: Option<&'static str>,
}

/// An error answer together with the HTTP status it is sent with.
pub struct HttpErrorData {
    pub status: u16,
    pub body: Data<HttpError>,
}

/// The result of a request handler: a success envelope or an error answer.
pub type JsonResult<T> = Result<Data<T>, HttpErrorData>;

/// Whether `e` is the error answer for `kind` (its serial aside).
pub open spec fn is_error_of(e: HttpErrorData, kind: ErrorKind) -> bool {
    &&& e.status == spec_status(kind)
    &&& e.body.success == 0
    &&& e.body.data.code == spec_code(kind)
    &&& e.body.data.tip matches Some(t) && t@ == spec_reason(kind)
}

/// Builds the error answer for `kind`, identified by `serial` (a fresh serial that
/// the caller draws, so that the occurrence can be found in the logs).
pub fn fail(kind: ErrorKind, serial: String) -> (e: HttpErrorData)
    ensures
        is_error_of(e, kind),
        e.body.data.serial == serial,
{
    let code = kind.http_code();
    HttpErrorData {
        status: code.status,
        body: Data {
            success: 0,
            data: HttpError { code: code.code, serial, tip: Some(code.reason) },
        },
    }
}

/// Wraps a result in the success envelope.
pub fn success<T>(data: T) -> (d: Data<T>)
    ensures
        d.success == 1,
        d.data == data,
{
    Data { success: 1, data }
}

} // verus!
