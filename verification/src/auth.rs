//! API keys and how a request is authenticated: by an API key whose hash is
//! registered, or by a shared access signature.
use vstd::prelude::*;
use vstd::string::StringExecFns;
use vstd::string::StringSliceAdditionalSpecFns;
use vstd::utf8::*;

use crate::errors::{is_user_error, ServeError, BAD_REQUEST, FORBIDDEN, UNAUTHORIZED};
use crate::hex::hex_decoding;
use crate::sas::{sas_check, sas_error_matches, verify_sas_token};
use crate::clock::Instant;
use crate::text::{has_prefix, strip_prefix};

verus! {

/// The environment variable that holds the secret for shared access signatures.
pub const SLIPWAY_SECRET_KEY: &'static str = "SLIPWAY_SECRET";

/// The header that TRMNL devices send their API key in.
pub const ACCESS_TOKEN_HEADER: &'static str = "access-token";

/// The header, or query-string parameter, that carries an API key.
pub const AUTHORIZATION_HEADER: &'static str = "authorization";

/// The prefix that an authorization header may put before the API key.
pub const BEARER_PREFIX: &'static str = "Bearer ";

/// When the server logs the API keys that devices send.
#[derive(Debug, Clone, Copy, PartialEq, Eq, Structural)]
pub enum ShowApiKeys {
    Never,
    /// Only keys that are not registered.
    New,
    Always,
}

impl Default for ShowApiKeys {
    fn default() -> (r: Self)
        ensures
            r == ShowApiKeys::Never,
    {
        ShowApiKeys::Never
    }
}

impl ShowApiKeys {
    /// Whether this is the default setting, `Never`.
    pub fn is_default(&self) -> (b: bool)
        ensures
            b == (*self == ShowApiKeys::Never),
    {
        match self {
            ShowApiKeys::Never => true,
            _ => false,
        }
    }
}

/// Whether a key that a device sent is logged: an unregistered one under `New`, a
/// registered one under `Always`.
pub open spec fn spec_api_key_shown(show: ShowApiKeys, recognized: bool) -> bool {
    (show == ShowApiKeys::New && !recognized) || (show == ShowApiKeys::Always && recognized)
}

/// Whether a key that a device sent is logged.
pub fn api_key_shown(show: ShowApiKeys, recognized: bool) -> (b: bool)
    ensures
        b == spec_api_key_shown(show, recognized),
{
    match show {
        ShowApiKeys::Never => false,
        ShowApiKeys::New => !recognized,
        ShowApiKeys::Always => recognized,
    }
}

/// Whether freshly made credentials are logged unhashed: under `New` and `Always`.
pub fn unhashed_key_shown(show: ShowApiKeys) -> (b: bool)
    ensures
        b == (show != ShowApiKeys::Never),
{
    match show {
        ShowApiKeys::Never => false,
        _ => true,
    }
}

/// An API key that the server accepts, known by its hash.
#[derive(Debug, Clone)]
pub struct RegisteredApiKey {
    pub hashed_key: String,
    /// The only device the key may be used with, if any.
    pub device: Option<String>,
    pub description: Option<String>,
}

fn copy_optional(s: &Option<String>) -> (r: Option<String>)
    ensures
        r == *s,
{
    match s {
        Some(v) => Some(v.clone()),
        None => None,
    }
}

impl RegisteredApiKey {
    /// A copy of this key.
    pub fn duplicate(&self) -> (r: RegisteredApiKey)
        ensures
            r == *self,
    {
        RegisteredApiKey {
            hashed_key: self.hashed_key.clone(),
            device: copy_optional(&self.device),
            description: copy_optional(&self.description),
        }
    }
}

/// The API key that a request carried, and the registered key it matched, if any.
#[derive(Debug, Clone)]
pub struct SuppliedApiKey {
    pub api_key: String,
    pub resolved: Option<RegisteredApiKey>,
}

/// An API key that a request carried and the registered key it matched.
#[derive(Debug, Clone)]
pub struct SuppliedResolvedApiKey {
    pub api_key: String,
    pub resolved: RegisteredApiKey,
}

/// The first six bytes of a hashed key, as text, by which the key is named in messages.
pub open spec fn truncated_key(hashed_key: Seq<char>) -> Seq<char> {
    decode_utf8(encode_utf8(hashed_key).subrange(0, 6))
}

/// A hashed key can be cut after its sixth byte.
pub open spec fn is_truncatable(hashed_key: Seq<char>) -> bool {
    6 <= encode_utf8(hashed_key).len() && is_char_boundary(encode_utf8(hashed_key), 6)
}

/// The first six bytes of a hashed key (`&hashed_api_key[..6]`).
pub fn truncate_hashed_api_key(hashed_api_key: &str) -> (r: &str)
    requires
        is_truncatable(hashed_api_key@),
    ensures
        r.spec_bytes() == hashed_api_key.spec_bytes().subrange(0, 6),
        r@ == truncated_key(hashed_api_key@),
{
    let (head, _) = hashed_api_key.split_at(6);
    proof {
        broadcast use encode_utf8_decode_utf8;

        assert(decode_utf8(encode_utf8(head@)) == head@);
    }
    head
}

/// The API key in an authorization value: what follows `Bearer ` where it starts so,
/// else the whole value.
pub open spec fn spec_api_key_of(raw: Seq<char>) -> Seq<char> {
    if has_prefix(raw, BEARER_PREFIX@) {
        raw.subrange(BEARER_PREFIX@.len() as int, raw.len() as int)
    } else {
        raw
    }
}

/// The API key in an authorization value, without a `Bearer ` prefix.
pub fn api_key_of(raw_api_key: &str) -> (r: String)
    ensures
        r@ == spec_api_key_of(raw_api_key@),
{
    match strip_prefix(raw_api_key, BEARER_PREFIX) {
        Some(rest) => rest,
        None => String::from_str(raw_api_key),
    }
}

/// The API key of a TRMNL request: the `access-token` header, else the
/// `authorization` header, else the `authorization` query parameter.
pub fn select_trmnl_api_key(
    access_token_header: Option<String>,
    authorization_header: Option<String>,
    authorization_query: Option<String>,
) -> (r: Option<String>)
    ensures
        r == match access_token_header {
            Some(v) => Some(v),
            None => match authorization_header {
                Some(v) => Some(v),
                None => authorization_query,
            },
        },
{
    match access_token_header {
        Some(v) => Some(v),
        None => match authorization_header {
            Some(v) => Some(v),
            None => authorization_query,
        },
    }
}

/// The authorization value of a request: the `authorization` header, else the
/// `authorization` query parameter, else empty text.
pub fn full_authorization(authorization_header: Option<String>, authorization_query: Option<String>) -> (r: String)
    ensures
        r@ == match authorization_header {
            Some(v) => v@,
            None => match authorization_query {
                Some(v) => v@,
                None => Seq::<char>::empty(),
            },
        },
{
    match authorization_header {
        Some(v) => v,
        None => match authorization_query {
            Some(v) => v,
            None => String::new(),
        },
    }
}

/// Entry `k` is the first registered key with this hash.
pub open spec fn is_first_with_hash(keys: Seq<RegisteredApiKey>, hashed: Seq<char>, k: int) -> bool {
    &&& 0 <= k < keys.len()
    &&& keys[k].hashed_key@ == hashed
    &&& forall|j: int| 0 <= j < k ==> keys[j].hashed_key@ != hashed
}

/// Some registered key has this hash.
pub open spec fn has_hash(keys: Seq<RegisteredApiKey>, hashed: Seq<char>) -> bool {
    exists|k: int| 0 <= k < keys.len() && keys[k].hashed_key@ == hashed
}

/// The position of the first registered key with this hash, if any.
pub fn find_registered_key(keys: &Vec<RegisteredApiKey>, hashed_api_key: &str) -> (r: Option<usize>)
    ensures
        match r {
            Some(k) => is_first_with_hash(keys@, hashed_api_key@, k as int),
            None => !has_hash(keys@, hashed_api_key@),
        },
{
    let wanted = String::from_str(hashed_api_key);
    let mut k: usize = 0;
    while k < keys.len()
        invariant
            k <= keys@.len(),
            wanted@ == hashed_api_key@,
            forall|j: int| 0 <= j < k ==> keys@[j].hashed_key@ != hashed_api_key@,
        decreases keys@.len() - k,
    {
        if keys[k].hashed_key == wanted {
            return Some(k);
        }
        k = k + 1;
    }
    None
}

/// The supplied key, resolved to the first registered key whose hash is
/// `hashed_api_key` (the hash of `api_key`), if there is one.
pub fn resolve_api_key(api_key: String, hashed_api_key: &str, keys: &Vec<RegisteredApiKey>) -> (r:
    SuppliedApiKey)
    ensures
        r.api_key@ == api_key@,
        match r.resolved {
            Some(key) => exists|k: int|
                is_first_with_hash(keys@, hashed_api_key@, k) && key == keys@[k],
            None => !has_hash(keys@, hashed_api_key@),
        },
{
    match find_registered_key(keys, hashed_api_key) {
        Some(k) => SuppliedApiKey { api_key, resolved: Some(keys[k].duplicate()) },
        None => SuppliedApiKey { api_key, resolved: None },
    }
}

/// An API key request passes only with a registered key; else "Unauthorized" (401).
pub fn require_registered(supplied: SuppliedApiKey) -> (r: Result<SuppliedApiKey, ServeError>)
    ensures
        match r {
            Ok(s) => s == supplied && supplied.resolved is Some,
            Err(e) => supplied.resolved is None && is_user_error(e, UNAUTHORIZED, "Unauthorized"@),
        },
{
    if supplied.resolved.is_none() {
        return Err(ServeError::UserFacing(UNAUTHORIZED, String::from_str("Unauthorized")));
    }
    Ok(supplied)
}

/// The message when a request carries no API key.
pub open spec fn missing_authorization_message() -> Seq<char> {
    "Missing authorization. Please supply an access-token header or an authorization header or query string parameter."@
}

/// The API key that the authentication step recorded, or "Missing authorization..." (401).
pub fn get_api_key_from_state(supplied: Option<SuppliedApiKey>) -> (r: Result<SuppliedApiKey, ServeError>)
    ensures
        match supplied {
            Some(s) => r == Ok::<SuppliedApiKey, ServeError>(s),
            None => r matches Err(e) && is_user_error(e, UNAUTHORIZED, missing_authorization_message()),
        },
{
    match supplied {
        Some(s) => Ok(s),
        None => Err(
            ServeError::UserFacing(
                UNAUTHORIZED,
                String::from_str(
                    "Missing authorization. Please supply an access-token header or an authorization header or query string parameter.",
                ),
            ),
        ),
    }
}

/// The recorded API key and the registered key it matched; "Missing authorization..."
/// (401) without a key, "API key was not recognized." (401) with an unregistered one.
pub fn get_resolved_api_key_from_state(supplied: Option<SuppliedApiKey>) -> (r: Result<
    SuppliedResolvedApiKey,
    ServeError,
>)
    ensures
        match supplied {
            None => r matches Err(e) && is_user_error(e, UNAUTHORIZED, missing_authorization_message()),
            Some(s) => match s.resolved {
                None => r matches Err(e) && is_user_error(e, UNAUTHORIZED, "API key was not recognized."@),
                Some(key) => r matches Ok(v) && v.api_key == s.api_key && v.resolved == key,
            },
        },
{
    let supplied_api_key = get_api_key_from_state(supplied)?;
    match supplied_api_key.resolved {
        None => Err(ServeError::UserFacing(UNAUTHORIZED, String::from_str("API key was not recognized."))),
        Some(resolved) => Ok(SuppliedResolvedApiKey { api_key: supplied_api_key.api_key, resolved }),
    }
}

/// The outcome of authenticating by shared access signature: the signature, the
/// expiry and the server's secret are each required in turn; with all three, the
/// signature is checked under the secret at some valid instant (the current time).
pub open spec fn is_sas_authorization(
    signature: Option<&str>,
    expiry: Option<&str>,
    secret: Option<&str>,
    r: Result<(), ServeError>,
) -> bool {
    match signature {
        None => r matches Err(e) && is_user_error(e, BAD_REQUEST, "Missing signature in SAS token."@),
        Some(sig) => match expiry {
            None => r matches Err(e) && is_user_error(e, BAD_REQUEST, "Missing expiry in SAS token."@),
            Some(exp) => match secret {
                None => r matches Err(e) && is_user_error(
                    e,
                    BAD_REQUEST,
                    "SLIPWAY_SECRET environment variable has not been set."@,
                ),
                Some(key) => exists|now: Instant|
                    now.valid() && match r {
                        Ok(()) => sas_check(key.spec_bytes(), exp@, sig@, now) is Valid,
                        Err(e) => sas_error_matches(sas_check(key.spec_bytes(), exp@, sig@, now), e),
                    },
            },
        },
    }
}

/// Authenticates a request that carries a shared access signature (`sig` and `exp`
/// query parameters) against the server's secret.
pub fn authorize_sas(signature: Option<&str>, expiry: Option<&str>, secret: Option<&str>) -> (r:
    Result<(), ServeError>)
    requires
        signature matches Some(sig) ==> hex_decoding(sig) is Decoded,
    ensures
        is_sas_authorization(signature, expiry, secret, r),
{
    let sig = match signature {
        None => {
            return Err(
                ServeError::UserFacing(BAD_REQUEST, String::from_str("Missing signature in SAS token.")),
            );
        },
        Some(sig) => sig,
    };
    let exp = match expiry {
        None => {
            return Err(
                ServeError::UserFacing(BAD_REQUEST, String::from_str("Missing expiry in SAS token.")),
            );
        },
        Some(exp) => exp,
    };
    let key = match secret {
        None => {
            let mut message = String::from_str(SLIPWAY_SECRET_KEY);
            message.append(" environment variable has not been set.");
            proof {
                reveal_strlit("SLIPWAY_SECRET");
                reveal_strlit(" environment variable has not been set.");
                reveal_strlit("SLIPWAY_SECRET environment variable has not been set.");
                assert(message@ =~= "SLIPWAY_SECRET environment variable has not been set."@);
            }
            return Err(ServeError::UserFacing(BAD_REQUEST, message));
        },
        Some(key) => key,
    };
    verify_sas_token(key, exp, sig)
}

/// The refusal of a key that is bound to the device `associated` but was used with
/// the device `current`, or with no device.
pub open spec fn wrong_device_message(hashed_key: Seq<char>, associated: Seq<char>, current: Option<Seq<char>>) -> Seq<char> {
    match current {
        Some(cur) => "The hashed API key "@ + truncated_key(hashed_key)
            + " can only be used with the device \""@ + associated + "\" but was used with \""@ + cur
            + "\"."@,
        None => "The hashed API key "@ + truncated_key(hashed_key)
            + " can only be used with the device \""@ + associated + "\"."@,
    }
}

/// Whether the key that a request carried may run a rig for the requesting device.
/// Requests without a key (signed ones), with an unregistered key, or with a key bound
/// to no device pass. A key bound to a device passes only for that device.
pub open spec fn key_allows_device(supplied: Option<SuppliedApiKey>, device: Option<Seq<char>>) -> Option<
    Seq<char>,
> {
    match supplied {
        None => None,
        Some(s) => match s.resolved {
            None => None,
            Some(key) => match key.device {
                None => None,
                Some(associated) => if device == Some(associated@) {
                    None
                } else {
                    Some(wrong_device_message(key.hashed_key@, associated@, device))
                },
            },
        },
    }
}

/// A bound key's hash can be cut for the message that refuses it.
pub open spec fn bound_key_truncatable(supplied: Option<SuppliedApiKey>) -> bool {
    supplied matches Some(s) ==> (s.resolved matches Some(key) ==> (key.device is Some
        ==> is_truncatable(key.hashed_key@)))
}

/// Checks that the key a request carried may be used with the requesting device;
/// else 403 with a message that names the key by its truncated hash. The hash is cut
/// only for that message.
pub fn assert_api_key_is_valid_for_rig(device: Option<&str>, supplied: &Option<SuppliedApiKey>) -> (r:
    Result<(), ServeError>)
    requires
        key_allows_device(
            *supplied,
            match device {
                Some(d) => Some(d@),
                None => None,
            },
        ) is Some ==> bound_key_truncatable(*supplied),
    ensures
        match key_allows_device(
            *supplied,
            match device {
                Some(d) => Some(d@),
                None => None,
            },
        ) {
            None => r is Ok,
            Some(message) => r matches Err(e) && is_user_error(e, FORBIDDEN, message),
        },
{
    let s = match supplied {
        None => return Ok(()),
        Some(s) => s,
    };
    let key = match &s.resolved {
        None => return Ok(()),
        Some(key) => key,
    };
    let associated = match &key.device {
        None => return Ok(()),
        Some(associated) => associated,
    };
    match device {
        Some(current) => {
            let current_name = String::from_str(current);
            if *associated == current_name {
                return Ok(());
            }
        },
        None => {},
    }
    let mut message = String::from_str("The hashed API key ");
    message.append(truncate_hashed_api_key(key.hashed_key.as_str()));
    message.append(" can only be used with the device \"");
    message.append(associated.as_str());
    match device {
        Some(current) => {
            message.append("\" but was used with \"");
            message.append(current);
            message.append("\".");
        },
        None => {
            message.append("\".");
        },
    }
    Err(ServeError::UserFacing(FORBIDDEN, message))
}

} // verus!
