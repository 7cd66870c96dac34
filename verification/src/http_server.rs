//! The rules of the HTTP control surface: which requests carry a
//! configuration, and which status answers a failure.

use crate::registry::RegistryError;
use crate::text::starts_with;
use vstd::prelude::*;

verus! {

/// Why a request carries no configuration.
#[derive(Clone, Copy, Debug, PartialEq, Eq, Structural)]
pub enum JsonError {
    /// The content type is missing or is not JSON.
    WrongContentType,
    /// The body of the request was taken before.
    BodyAlreadyExtracted,
}

/// Whether a request with this content type and with or without a body
/// carries a configuration.
pub open spec fn spec_json_input(content_type: Option<&str>, has_body: bool) -> Result<
    (),
    JsonError,
> {
    match content_type {
        Some(header) if "application/json"@.is_prefix_of(header@) => if has_body {
            Ok(())
        } else {
            Err(JsonError::BodyAlreadyExtracted)
        },
        _ => Err(JsonError::WrongContentType),
    }
}

/// Whether a request carries a configuration: its content type must begin
/// with `application/json`, and its body must still be there.
pub fn json_input(content_type: Option<&str>, has_body: bool) -> (carried: Result<(), JsonError>)
    ensures
        carried == spec_json_input(content_type, has_body),
{
    match content_type {
        Some(header) => {
            if !starts_with(header, "application/json") {
                return Err(JsonError::WrongContentType);
            }
        },
        None => {
            return Err(JsonError::WrongContentType);
        },
    }
    if has_body {
        Ok(())
    } else {
        Err(JsonError::BodyAlreadyExtracted)
    }
}

/// The status that answers a request without a configuration.
pub const BAD_REQUEST: u16 = 400;

/// The status that answers a request for what is not there.
pub const NOT_FOUND: u16 = 404;

/// The status that answers a failed load: not found where the factory is
/// missing, bad request for anything else.
pub open spec fn spec_load_failure_status(error: RegistryError) -> u16 {
    match error {
        RegistryError::FactoryNotFound(_) => NOT_FOUND,
        _ => BAD_REQUEST,
    }
}

/// The status that answers a failed load.
pub fn load_failure_status(error: &RegistryError) -> (status: u16)
    ensures
        status == spec_load_failure_status(*error),
{
    match error {
        RegistryError::FactoryNotFound(_) => NOT_FOUND,
        _ => BAD_REQUEST,
    }
}

/// The status that answers a failed unload or select: not found, whatever
/// failed.
pub fn lookup_failure_status(error: &RegistryError) -> (status: u16)
    ensures
        status == NOT_FOUND,
{
    NOT_FOUND
}

} // verus!
