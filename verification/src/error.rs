//! The failure taxonomy every component reports through: a service code,
//! a human-readable message and the HTTP status the handler maps it to.

use vstd::prelude::*;

verus! {

/// A structured, client-facing failure.
#[derive(Debug, Clone)]
pub struct Error {
    pub message: String,
    pub code: u32,
    pub status: u16,
}

/// Authentication failures: the one identical value every authentication
/// problem collapses to, so a caller cannot tell a malformed token from a
/// bad signature or an expired one.
pub open spec fn is_auth_failure(e: Error) -> bool {
    &&& e.code == 1001
    &&& e.status == 401
    &&& e.message@ == "Authentication failure"@
}

/// Client input failed a validation rule.
pub open spec fn is_validation_failure(e: Error) -> bool {
    &&& e.code == 1002
    &&& e.status == 422
}

/// A unique-contact conflict, distinguishable from a plain store failure
/// by its status.
pub open spec fn is_duplicate_resource(e: Error) -> bool {
    &&& e.code == 2001
    &&& e.status == 403
}

/// The store rejected or could not find something; surfaced generically.
pub open spec fn is_persistence_failure(e: Error) -> bool {
    &&& e.code == 2001
    &&& e.status == 500
}

pub fn new_error(code: u32, message: &str, status: u16) -> (e: Error)
    ensures
        e.code == code,
        e.message@ == message@,
        e.status == status,
{
    Error { message: message.to_owned(), code, status }
}

/// The one answer every authentication problem collapses to.
pub fn auth_failure() -> (e: Error)
    ensures
        is_auth_failure(e),
{
    new_error(1001, "Authentication failure", 401)
}

} // verus!
