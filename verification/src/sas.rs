//! Shared access signatures: an HMAC-SHA256 over the expiry time, in hexadecimal,
//! which lets a URL be fetched without an API key until it expires.
use hmac::Mac;
use vstd::prelude::*;
use vstd::string::{StringExecFns, StringSliceAdditionalSpecFns};
use vstd::utf8::*;

use crate::clock::{
    format_sas_time, parse_sas_time, spec_format_sas_time, spec_parse_sas_time, utc_now, Instant,
    MAX_TIMESTAMP, MIN_TIMESTAMP,
};
use crate::errors::{ServeError, BAD_REQUEST, UNAUTHORIZED};
use crate::hex::{bytes_to_string, lemma_hex_round_trip, hex_decoding, hex_decoding_from, hex_of, string_to_bytes, HexDecoding};
use crate::text::push_char;

verus! {

/// The query-string key of the signature.
pub const SHARED_ACCESS_SIGNATURE_KEY: &'static str = "sig";

/// The query-string key of the expiry time.
pub const EXPIRY_KEY: &'static str = "exp";

/// The 32-byte HMAC-SHA256 tag of `message` under `key`.
pub uninterp spec fn spec_hmac_sha256(key: Seq<u8>, message: Seq<u8>) -> Seq<u8>;

/// Computes HMAC-SHA256 with the hmac crate (`Hmac<Sha256>`: `new_from_slice`, which
/// accepts keys of any length, `update`, `finalize`). The tag is named, not described;
/// its length, the SHA-256 output size, is stated.
#[verifier::external_body]
fn hmac_sha256(key: &[u8], message: &[u8]) -> (tag: Vec<u8>)
    ensures
        tag@ == spec_hmac_sha256(key@, message@),
        tag@.len() == 32,
{
    let mut mac = hmac::Hmac::<sha2::Sha256>::new_from_slice(key).expect(
        "HMAC can take key of any size",
    );
    mac.update(message);
    mac.finalize().into_bytes().to_vec()
}

/// Checks a tag with the hmac crate's `verify_slice`, which accepts exactly the tag
/// that `finalize` would give (same length, same bytes).
#[verifier::external_body]
fn hmac_sha256_verify(key: &[u8], message: &[u8], tag: &[u8]) -> (ok: bool)
    ensures
        ok == (tag@ == spec_hmac_sha256(key@, message@)),
{
    let mut mac = hmac::Hmac::<sha2::Sha256>::new_from_slice(key).expect(
        "HMAC can take key of any size",
    );
    mac.update(message);
    mac.verify_slice(tag).is_ok()
}

/// The signed text for an expiry time: `exp=<expiry>`.
pub open spec fn sas_input(expiry: Seq<char>) -> Seq<char> {
    seq!['e', 'x', 'p', '='] + expiry
}

/// The signature text for an expiry time: the hexadecimal HMAC of the signed text.
pub open spec fn sas_signature(key: Seq<u8>, expiry: Seq<char>) -> Seq<char> {
    hex_of(spec_hmac_sha256(key, encode_utf8(sas_input(expiry))))
}

/// Builds the signed text `exp=<expiry>`.
pub fn create_sas_input(expiry: &str) -> (input: String)
    ensures
        input@ == sas_input(expiry@),
{
    let mut input = String::new();
    push_char(&mut input, 'e');
    push_char(&mut input, 'x');
    push_char(&mut input, 'p');
    push_char(&mut input, '=');
    input.append(expiry);
    input
}

/// The hexadecimal HMAC-SHA256 of `input` under `key`.
pub fn create_hmac_string(key: &str, input: &str) -> (s: String)
    ensures
        s@ == hex_of(spec_hmac_sha256(key.spec_bytes(), input.spec_bytes())),
{
    let tag = hmac_sha256(key.as_bytes(), input.as_bytes());
    bytes_to_string(tag.as_slice())
}

/// The signature for an expiry time under `key`.
pub fn create_signature(key: &str, expiry: &str) -> (s: String)
    ensures
        s@ == sas_signature(key.spec_bytes(), expiry@),
{
    let input = create_sas_input(expiry);
    create_hmac_string(key, input.as_str())
}

/// Checks that `expected_signature` is the hexadecimal HMAC of `input` under `key`.
/// The signature must be hexadecimal text: its decoding is taken unchecked.
pub fn verify_hmac_string(key: &str, input: &str, expected_signature: &str) -> (r: Result<
    (),
    ServeError,
>)
    requires
        hex_decoding(expected_signature) is Decoded,
    ensures
        r is Ok <==> hex_decoding(expected_signature) == HexDecoding::Decoded(
            spec_hmac_sha256(key.spec_bytes(), input.spec_bytes()),
        ),
        r matches Err(e) ==> e.spec_status_code() == UNAUTHORIZED && e.spec_message()
            == "Invalid signature"@,
{
    let expected_bytes = match string_to_bytes(expected_signature) {
        Ok(b) => b,
        Err(_) => {
            return Err(ServeError::UserFacing(UNAUTHORIZED, String::from_str("Invalid signature")));
        },
    };
    if hmac_sha256_verify(key.as_bytes(), input.as_bytes(), expected_bytes.as_slice()) {
        Ok(())
    } else {
        proof {
            reveal_strlit("Invalid signature");
        }
        Err(ServeError::UserFacing(UNAUTHORIZED, String::from_str("Invalid signature")))
    }
}

/// How a shared access signature fares.
pub enum SasCheck {
    /// The signature is not the HMAC of the expiry.
    InvalidSignature,
    /// The signature is right but the expiry does not parse.
    InvalidExpiry,
    /// The signature is right and the expiry is earlier than the time of the check.
    Expired,
    /// The signature is right and has not expired.
    Valid,
}

/// Whether instant `a` is later than the parsed time `(secs, nanos)`.
pub open spec fn is_later_than(a: Instant, secs: int, nanos: int) -> bool {
    a.secs > secs || (a.secs == secs && a.nanos > nanos)
}

/// How a signature (hexadecimal text) for an expiry fares under `key` at time `now`:
/// the signature is checked first, then the expiry is parsed, then compared with `now`.
pub open spec fn sas_check(key: Seq<u8>, expiry: Seq<char>, signature: Seq<char>, now: Instant) -> SasCheck {
    if hex_decoding_from(encode_utf8(signature), 0) != HexDecoding::Decoded(
        spec_hmac_sha256(key, encode_utf8(sas_input(expiry))),
    ) {
        SasCheck::InvalidSignature
    } else {
        match spec_parse_sas_time(expiry) {
            None => SasCheck::InvalidExpiry,
            Some((secs, nanos)) => if is_later_than(now, secs, nanos) {
                SasCheck::Expired
            } else {
                SasCheck::Valid
            },
        }
    }
}

/// The error that reports each failed check.
pub open spec fn sas_error_matches(check: SasCheck, e: ServeError) -> bool {
    match check {
        SasCheck::InvalidSignature => e.spec_status_code() == UNAUTHORIZED && e.spec_message()
            == "Invalid signature"@,
        SasCheck::InvalidExpiry => e.spec_status_code() == BAD_REQUEST && e.spec_message().len()
            >= 23 && e.spec_message().subrange(0, 23) == "Invalid expiry format: "@,
        SasCheck::Expired => e.spec_status_code() == UNAUTHORIZED && e.spec_message()
            == "SAS token has expired"@,
        SasCheck::Valid => false,
    }
}

/// Checks a shared access signature at time `now`: the signature must be the HMAC of
/// `exp=<expiry>`, the expiry must parse, and `now` must not be later than it.
pub fn verify_sas_token_at(key: &str, expiry: &str, expected_signature: &str, now: Instant) -> (r:
    Result<(), ServeError>)
    requires
        hex_decoding(expected_signature) is Decoded,
    ensures
        match r {
            Ok(()) => sas_check(key.spec_bytes(), expiry@, expected_signature@, now) is Valid,
            Err(e) => sas_error_matches(
                sas_check(key.spec_bytes(), expiry@, expected_signature@, now),
                e,
            ),
        },
{
    let input = create_sas_input(expiry);
    let checked = verify_hmac_string(key, input.as_str(), expected_signature);
    if checked.is_err() {
        proof {
            reveal_strlit("Invalid signature");
        }
        return Err(ServeError::UserFacing(UNAUTHORIZED, String::from_str("Invalid signature")));
    }
    match parse_sas_time(expiry) {
        Err(reason) => {
            let mut message = String::from_str("Invalid expiry format: ");
            proof {
                reveal_strlit("Invalid expiry format: ");
            }
            let ghost prefix = message@;
            message.append(reason.as_str());
            assert(message@.subrange(0, 23) =~= prefix);
            Err(ServeError::UserFacing(BAD_REQUEST, message))
        },
        Ok((secs, nanos)) => {
            if now.secs > secs || (now.secs == secs && now.nanos > nanos) {
                proof {
                    reveal_strlit("SAS token has expired");
                }
                Err(ServeError::UserFacing(UNAUTHORIZED, String::from_str("SAS token has expired")))
            } else {
                Ok(())
            }
        },
    }
}

/// Checks a shared access signature against the current time. Whatever the clock
/// says, a wrong signature or an expiry that does not parse is refused as
/// `verify_sas_token_at` refuses it, and an accepted token has a right signature and
/// an expiry that parses.
pub fn verify_sas_token(key: &str, expiry: &str, expected_signature: &str) -> (r: Result<
    (),
    ServeError,
>)
    requires
        hex_decoding(expected_signature) is Decoded,
    ensures
        exists|now: Instant|
            now.valid() && match r {
                Ok(()) => sas_check(key.spec_bytes(), expiry@, expected_signature@, now) is Valid,
                Err(e) => sas_error_matches(
                    sas_check(key.spec_bytes(), expiry@, expected_signature@, now),
                    e,
                ),
            },
{
    let now = utc_now();
    verify_sas_token_at(key, expiry, expected_signature, now)
}

/// A signature for an expiry is accepted at every instant up to the expiry second,
/// and refused as expired at every later one.
pub open spec fn accepted_until(key: Seq<u8>, expiry: Seq<char>, signature: Seq<char>, expiry_secs: int) -> bool {
    forall|t: Instant| #[trigger]
        sas_check(key, expiry, signature, t) == if is_later_than(t, expiry_secs, 0) {
            SasCheck::Expired
        } else {
            SasCheck::Valid
        }
}

/// What `compute_signature_parts_at` gives: nothing when the expiry, `duration` seconds
/// after `now`, falls outside the instants chrono represents; otherwise `("sig",
/// signature)` then `("exp", expiry)`, the signature accepted up to the expiry second.
pub open spec fn is_signature_parts_at(key: Seq<u8>, now: Instant, duration: int, r: Option<Vec<(String, String)>>) -> bool {
    match r {
        None => !(MIN_TIMESTAMP <= now.secs + duration <= MAX_TIMESTAMP),
        Some(parts) => {
            &&& MIN_TIMESTAMP <= now.secs + duration <= MAX_TIMESTAMP
            &&& parts@.len() == 2
            &&& parts@[0].0@ == "sig"@
            &&& parts@[0].1@ == sas_signature(key, spec_format_sas_time(now.secs + duration))
            &&& parts@[1].0@ == "exp"@
            &&& parts@[1].1@ == spec_format_sas_time(now.secs + duration)
            &&& accepted_until(key, parts@[1].1@, parts@[0].1@, now.secs + duration)
        },
    }
}

/// The query-string parts of a signature that expires `duration_secs` seconds after
/// `now`: `("sig", signature)` then `("exp", expiry)`. Nothing when the expiry falls
/// outside the instants chrono can represent.
pub fn compute_signature_parts_at(key: &str, now: Instant, duration_secs: i64) -> (r: Option<
    Vec<(String, String)>,
>)
    requires
        now.valid(),
    ensures
        is_signature_parts_at(key.spec_bytes(), now, duration_secs as int, r),
{
    let expiry_secs = match now.secs.checked_add(duration_secs) {
        Some(e) => e,
        None => {
            return None;
        },
    };
    if expiry_secs < MIN_TIMESTAMP || expiry_secs > MAX_TIMESTAMP {
        return None;
    }
    let expiry = format_sas_time(expiry_secs);
    let signature = create_signature(key, expiry.as_str());
    proof {
        assert forall|t: Instant| #[trigger]
            sas_check(key.spec_bytes(), expiry@, signature@, t) == if is_later_than(
                t,
                expiry_secs as int,
                0,
            ) {
                SasCheck::Expired
            } else {
                SasCheck::Valid
            } by {
            lemma_created_signature_is_accepted(key.spec_bytes(), expiry@, t);
        }
    }
    proof {
        reveal_strlit("sig");
        reveal_strlit("exp");
    }
    let mut parts: Vec<(String, String)> = Vec::new();
    parts.push((String::from_str(SHARED_ACCESS_SIGNATURE_KEY), signature));
    parts.push((String::from_str(EXPIRY_KEY), expiry));
    Some(parts)
}

/// The query-string parts of a signature that expires `duration_secs` seconds from
/// now: what `compute_signature_parts_at` gives at the current time, which the clock
/// decides. Whatever it says, the parts are a signature of the expiry they carry, and
/// a signature that expires at once is always made.
pub fn compute_signature_parts(key: &str, duration_secs: i64) -> (r: Option<
    Vec<(String, String)>,
>)
    ensures
        exists|now: Instant|
            now.valid() && #[trigger] is_signature_parts_at(
                key.spec_bytes(),
                now,
                duration_secs as int,
                r,
            ),
        duration_secs == 0 ==> r is Some,
        r matches Some(parts) ==> {
            &&& parts@.len() == 2
            &&& parts@[0].0@ == "sig"@
            &&& parts@[1].0@ == "exp"@
            &&& parts@[0].1@ == sas_signature(key.spec_bytes(), parts@[1].1@)
            &&& exists|secs: int|
                MIN_TIMESTAMP <= secs <= MAX_TIMESTAMP && parts@[1].1@ == spec_format_sas_time(
                    secs,
                ) && accepted_until(key.spec_bytes(), parts@[1].1@, parts@[0].1@, secs)
        },
{
    let now = utc_now();
    compute_signature_parts_at(key, now, duration_secs)
}

/// A signature made by `create_signature` passes the signature check of
/// `verify_sas_token_at` for its own expiry: the token is then refused only if the
/// expiry does not parse or has passed.
pub proof fn lemma_created_signature_is_accepted(key: Seq<u8>, expiry: Seq<char>, now: Instant)
    ensures
        sas_check(key, expiry, sas_signature(key, expiry), now) == match spec_parse_sas_time(
            expiry,
        ) {
            None => SasCheck::InvalidExpiry,
            Some((secs, nanos)) => if is_later_than(now, secs, nanos) {
                SasCheck::Expired
            } else {
                SasCheck::Valid
            },
        },
{
    lemma_hex_round_trip(spec_hmac_sha256(key, encode_utf8(sas_input(expiry))));
}

} // verus!
