use slipway::auth::authorize_sas;
use slipway::clock::Instant;
use slipway::errors::{BAD_REQUEST, UNAUTHORIZED};
use slipway::hex::{bytes_to_string, string_to_bytes};
use slipway::sas::{
    compute_signature_parts, compute_signature_parts_at, create_hmac_string, create_sas_input,
    create_signature, verify_hmac_string, verify_sas_token, verify_sas_token_at,
};

const EXPIRY_KEY: &str = "exp";
const SHARED_ACCESS_SIGNATURE_KEY: &str = "sig";

#[test]
fn it_should_be_able_to_convert_bytes_to_string_and_back() {
    let input = vec![0x01, 0x02, 0x03, 0x04, 0x05, 0x15, 0x25];
    let hex_string = bytes_to_string(&input);
    let output = string_to_bytes(&hex_string).unwrap();
    assert_eq!(input.to_vec(), output);
}

#[test]
fn it_should_allow_valid_signatures() {
    let key = "test_key";
    let expiry = "2023-10-01T01-02-03";

    let signature = create_signature(key, expiry);
    let input = create_sas_input(expiry);

    assert!(verify_hmac_string(key, &input, &signature).is_ok());
}

#[test]
fn it_should_fail_modified_expiry() {
    let key = "test_key";
    let expiry = "2023-10-01T01-02-03";
    let modified_expiry = "2023-10-02T01-02-03";

    let signature = create_signature(key, expiry);
    let input = create_sas_input(modified_expiry);

    assert!(verify_hmac_string(key, &input, &signature).is_err());
}

#[test]
fn it_should_fail_modified_signature() {
    let key = "test_key";
    let expiry = "2023-10-01T01-02-03";

    let mut signature = create_signature(key, expiry);
    signature.push_str("88");

    let input = create_sas_input(expiry);

    let result = verify_hmac_string(key, &input, &signature);

    match result {
        Ok(_) => panic!("Expected error, but got Ok"),
        Err(e) => {
            assert!(e.message().contains("Invalid signature"));
        }
    }
}

#[test]
fn it_should_return_signature_parts_and_verify() {
    let key = "test_key";
    let duration = 3600;

    let signature_parts = compute_signature_parts(key, duration).unwrap();

    assert_eq!(signature_parts.len(), 2);

    let expiry = &signature_parts
        .iter()
        .find(|v| v.0 == EXPIRY_KEY)
        .unwrap()
        .1;
    let signature = &signature_parts
        .iter()
        .find(|v| v.0 == SHARED_ACCESS_SIGNATURE_KEY)
        .unwrap()
        .1;

    println!("Signature: {}", signature);
    println!("Expiry: {}", expiry);

    let result = verify_sas_token(key, expiry, signature);

    match result {
        Ok(_) => {}
        Err(e) => panic!("Expected Ok, but got error: {}", e.message()),
    }
}

#[test]
fn it_should_fail_to_verify_expired_signature() {
    let key = "test_key";
    let duration = -1;

    let signature_parts = compute_signature_parts(key, duration).unwrap();

    let expiry = &signature_parts
        .iter()
        .find(|v| v.0 == EXPIRY_KEY)
        .unwrap()
        .1;
    let signature = &signature_parts
        .iter()
        .find(|v| v.0 == SHARED_ACCESS_SIGNATURE_KEY)
        .unwrap()
        .1;

    let result = verify_sas_token(key, expiry, signature);

    match result {
        Ok(_) => panic!("Expected error, but got Ok"),
        Err(e) => {
            assert!(e.message().contains("SAS token has expired"));
        }
    }
}

#[test]
fn hex_encoding_is_lowercase_two_digits_per_byte() {
    assert_eq!(bytes_to_string(&[0x00, 0x0f, 0xab, 0xff]), "000fabff");
    assert_eq!(bytes_to_string(&[]), "");
}

#[test]
fn hex_decoding_accepts_uppercase_and_refuses_non_hex() {
    assert_eq!(string_to_bytes("ABcd").unwrap(), vec![0xab, 0xcd]);
    assert!(string_to_bytes("zz").is_err());
}

#[test]
fn hmac_string_matches_the_known_hmac_sha256() {
    // RFC 4231 test case 2.
    let mac = create_hmac_string("Jefe", "what do ya want for nothing?");
    assert_eq!(
        mac,
        "5bdcc146bf60754e6a042426089575c75a003f089d2739839dec58b964ec3843"
    );
}

#[test]
fn sas_input_prefixes_the_expiry() {
    assert_eq!(create_sas_input("2023-10-01T01-02-03"), "exp=2023-10-01T01-02-03");
}

#[test]
fn signature_parts_at_a_given_instant() {
    // 2023-10-01T01:02:03Z.
    let now = Instant { secs: 1_696_122_123, nanos: 0 };
    let parts = compute_signature_parts_at("test_key", now, 60).unwrap();
    assert_eq!(parts[0].0, "sig");
    assert_eq!(parts[1].0, "exp");
    assert_eq!(parts[1].1, "2023-10-01T01-03-03");
    assert_eq!(parts[0].1, create_signature("test_key", "2023-10-01T01-03-03"));
}

#[test]
fn signature_parts_out_of_range_give_nothing() {
    let now = Instant { secs: 8_210_266_876_799, nanos: 0 };
    assert!(compute_signature_parts_at("test_key", now, 1).is_none());
}

#[test]
fn verify_at_reports_each_failure() {
    let key = "test_key";
    let expiry = "2023-10-01T01-02-03";
    let signature = create_signature(key, expiry);
    let before = Instant { secs: 1_696_122_000, nanos: 0 };
    let after = Instant { secs: 1_696_122_124, nanos: 0 };
    assert!(verify_sas_token_at(key, expiry, &signature, before).is_ok());

    let expired = verify_sas_token_at(key, expiry, &signature, after).unwrap_err();
    assert_eq!(expired.status_code(), UNAUTHORIZED);
    assert_eq!(expired.message(), "SAS token has expired");

    let bad_expiry = "not a time";
    let bad_signature = create_signature(key, bad_expiry);
    let invalid = verify_sas_token_at(key, bad_expiry, &bad_signature, before).unwrap_err();
    assert_eq!(invalid.status_code(), BAD_REQUEST);
    assert!(invalid.message().starts_with("Invalid expiry format: "));

    let wrong = verify_sas_token_at("other_key", expiry, &signature, before).unwrap_err();
    assert_eq!(wrong.status_code(), UNAUTHORIZED);
    assert_eq!(wrong.message(), "Invalid signature");
}

#[test]
fn signed_request_needs_signature_expiry_and_secret() {
    let missing_signature = authorize_sas(None, Some("x"), Some("secret")).unwrap_err();
    assert_eq!(missing_signature.status_code(), BAD_REQUEST);
    assert_eq!(missing_signature.message(), "Missing signature in SAS token.");

    let missing_expiry = authorize_sas(Some("ab"), None, Some("secret")).unwrap_err();
    assert_eq!(missing_expiry.status_code(), BAD_REQUEST);
    assert_eq!(missing_expiry.message(), "Missing expiry in SAS token.");

    let missing_secret = authorize_sas(Some("ab"), Some("x"), None).unwrap_err();
    assert_eq!(missing_secret.status_code(), BAD_REQUEST);
    assert_eq!(
        missing_secret.message(),
        "SLIPWAY_SECRET environment variable has not been set."
    );

    let parts = compute_signature_parts("secret", 3600).unwrap();
    assert!(authorize_sas(Some(&parts[0].1), Some(&parts[1].1), Some("secret")).is_ok());
}

#[test]
fn a_signature_is_accepted_until_its_expiry_second() {
    let now = Instant { secs: 1_696_122_123, nanos: 500 };
    let parts = compute_signature_parts_at("k", now, 60).unwrap();
    let expiry_secs = 1_696_122_183;
    let at_expiry = Instant { secs: expiry_secs, nanos: 0 };
    let just_after = Instant { secs: expiry_secs, nanos: 1 };
    assert!(verify_sas_token_at("k", &parts[1].1, &parts[0].1, now).is_ok());
    assert!(verify_sas_token_at("k", &parts[1].1, &parts[0].1, at_expiry).is_ok());
    let expired = verify_sas_token_at("k", &parts[1].1, &parts[0].1, just_after).unwrap_err();
    assert_eq!(expired.message(), "SAS token has expired");
}

#[test]
fn signatures_round_trip_outside_four_digit_years() {
    let now = Instant { secs: 1_696_122_123, nanos: 0 };
    // An expiry in the year 12023 is written with a sign and read back.
    let far = 10_000 * 31_556_952;
    let parts = compute_signature_parts_at("k", now, far).unwrap();
    assert!(parts[1].1.starts_with('+'));
    let expiry = Instant { secs: 1_696_122_123 + far, nanos: 0 };
    let later = Instant { secs: 1_696_122_124 + far, nanos: 0 };
    assert!(verify_sas_token_at("k", &parts[1].1, &parts[0].1, now).is_ok());
    assert!(verify_sas_token_at("k", &parts[1].1, &parts[0].1, expiry).is_ok());
    let expired = verify_sas_token_at("k", &parts[1].1, &parts[0].1, later).unwrap_err();
    assert_eq!(expired.message(), "SAS token has expired");

    // The year 0 is written as four digits, and a year before it with a minus sign.
    let year_zero = Instant { secs: -62_135_596_800 - 86_400, nanos: 0 };
    let parts = compute_signature_parts_at("k", year_zero, 0).unwrap();
    assert_eq!(parts[1].1, "0000-12-31T00-00-00");
    assert!(verify_sas_token_at("k", &parts[1].1, &parts[0].1, year_zero).is_ok());
    let early = Instant { secs: -62_135_596_800 - 400 * 86_400, nanos: 0 };
    let parts = compute_signature_parts_at("k", early, 0).unwrap();
    assert!(parts[1].1.starts_with("-0001-"));
    assert!(verify_sas_token_at("k", &parts[1].1, &parts[0].1, early).is_ok());
    let after = Instant { secs: early.secs + 1, nanos: 0 };
    assert!(verify_sas_token_at("k", &parts[1].1, &parts[0].1, after).is_err());

    // The last second chrono represents.
    let last = Instant { secs: 8_210_266_876_799, nanos: 0 };
    let parts = compute_signature_parts_at("k", last, 0).unwrap();
    assert!(verify_sas_token_at("k", &parts[1].1, &parts[0].1, last).is_ok());
}
