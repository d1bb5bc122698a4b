//! The endpoints that TRMNL devices call: which device a display request is for, and
//! the ID a setup request carries.
use vstd::prelude::*;
use vstd::string::StringExecFns;

use crate::auth::{get_api_key_from_state, missing_authorization_message, SuppliedApiKey};
use crate::errors::{is_user_error, ServeError, BAD_REQUEST, FORBIDDEN, UNAUTHORIZED};
use crate::repository::{RigResultFormat, RigResultImageFormat, RigResultSpec};

verus! {

/// The header that carries a TRMNL device's ID, usually its MAC address.
pub const ID_HEADER: &'static str = "id";

/// The result shape a TRMNL device gets unless its own settings say otherwise: a URL
/// to a one bit bitmap, not rotated.
pub fn trmnl_default_result_spec() -> (r: RigResultSpec)
    ensures
        r == (RigResultSpec {
            format: RigResultFormat::Url,
            image_format: RigResultImageFormat::Bmp1Bit,
            rotate: 0,
        }),
{
    RigResultSpec { format: RigResultFormat::Url, image_format: RigResultImageFormat::Bmp1Bit, rotate: 0 }
}

/// The ID of a setup request from its `id` header: a missing header is "Missing ID
/// header. This typically contains the device's MAC address." (400), a header that is
/// not text is "Failed to parse ID header as a string: " and the reason (400).
pub fn device_id_from_header(header: Option<Result<String, String>>) -> (r: Result<String, ServeError>)
    ensures
        match header {
            None => r matches Err(e) && is_user_error(
                e,
                BAD_REQUEST,
                "Missing ID header. This typically contains the device's MAC address."@,
            ),
            Some(Err(reason)) => r matches Err(e) && is_user_error(
                e,
                BAD_REQUEST,
                "Failed to parse ID header as a string: "@ + reason@,
            ),
            Some(Ok(id)) => r matches Ok(v) && v@ == id@,
        },
{
    match header {
        None => Err(
            ServeError::UserFacing(
                BAD_REQUEST,
                String::from_str("Missing ID header. This typically contains the device's MAC address."),
            ),
        ),
        Some(Err(reason)) => {
            let mut message = String::from_str("Failed to parse ID header as a string: ");
            message.append(reason.as_str());
            Err(ServeError::UserFacing(BAD_REQUEST, message))
        },
        Some(Ok(id)) => Ok(id),
    }
}

/// The device a display request is for: the device its registered key is bound to.
/// No key is "Missing authorization..." (401), an unregistered key is "The supplied API
/// key was not recognized." (401), a key bound to no device is "The supplied API key was
/// not associated with any device." (403).
pub fn trmnl_display_device(supplied: Option<SuppliedApiKey>) -> (r: Result<String, ServeError>)
    ensures
        match supplied {
            None => r matches Err(e) && is_user_error(e, UNAUTHORIZED, missing_authorization_message()),
            Some(s) => match s.resolved {
                None => r matches Err(e) && is_user_error(
                    e,
                    UNAUTHORIZED,
                    "The supplied API key was not recognized."@,
                ),
                Some(key) => match key.device {
                    None => r matches Err(e) && is_user_error(
                        e,
                        FORBIDDEN,
                        "The supplied API key was not associated with any device."@,
                    ),
                    Some(device) => r matches Ok(name) && name@ == device@,
                },
            },
        },
{
    let supplied_api_key = match get_api_key_from_state(supplied) {
        Ok(s) => s,
        Err(e) => {
            return Err(e);
        },
    };
    let resolved = match supplied_api_key.resolved {
        None => {
            return Err(
                ServeError::UserFacing(
                    UNAUTHORIZED,
                    String::from_str("The supplied API key was not recognized."),
                ),
            );
        },
        Some(resolved) => resolved,
    };
    match resolved.device {
        None => Err(
            ServeError::UserFacing(
                FORBIDDEN,
                String::from_str("The supplied API key was not associated with any device."),
            ),
        ),
        Some(device) => Ok(device),
    }
}

} // verus!
