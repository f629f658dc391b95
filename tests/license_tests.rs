use license_server::date::Date;
use license_server::hexfmt::to_hex;
use license_server::issue::{parse_key_val, window};
use license_server::license::{decode_token, same_text, License, LicenseError, SignedLicense};
use license_server::meta::Metadata;
use license_server::service::{authorize, handle_generate, handle_validate_at, ApiFailure};

const SECRET: &str = "SECRET";
const KEY: &str = "KEY";
const TEST_TOKEN: &str = "eyJsaWNlbnNlIjp7ImlkIjoidGVzdCIsIm1ldGEiOnt9LCJ2YWxpZF9mcm9tIjoiMjAwMC0xLTEiLCJ2YWxpZF91bnRpbCI6IjMwMDAtMS0xIn0sInNpZ25hdHVyZSI6ImVhYzJkMjI2ZjA0NTFjMmQ5NTM2NzkxZDg2NDEyMjRhZWFmMjkwY2NmZjEzYWQxZDE0YmYxY2U2OGMyYzJmMmQifQ==";
const TEST_SIGNATURE: &str = "eac2d226f0451c2d9536791d8641224aeaf290ccff13ad1d14bf1ce68c2c2f2d";

fn test_license() -> License {
    License {
        id: Some("test".to_string()),
        meta: Metadata::new(),
        valid_from: "2000-1-1".to_string(),
        valid_until: "3000-1-1".to_string(),
    }
}

fn day(year: i32, month: u32, day: u32) -> Date {
    Date { year, month, day }
}

fn license_between(from: &str, until: &str) -> License {
    License {
        id: Some("abc".to_string()),
        meta: Metadata::new(),
        valid_from: from.to_string(),
        valid_until: until.to_string(),
    }
}

fn signed(license: License, secret: &str) -> SignedLicense {
    let signature = license.sign(secret.to_string()).unwrap();
    SignedLicense { license, signature }
}

// Reads the JSON text of a token into a signed license.
fn parse_signed(text: &str) -> Option<SignedLicense> {
    let v: serde_json::Value = serde_json::from_str(text).ok()?;
    let lic = v.get("license")?;
    let mut meta = Metadata::new();
    for (k, val) in lic.get("meta")?.as_object()? {
        meta.insert(k.clone(), val.as_str()?.to_string());
    }
    let id = match lic.get("id") {
        Some(serde_json::Value::String(s)) => Some(s.clone()),
        _ => None,
    };
    Some(SignedLicense {
        license: License {
            id,
            meta,
            valid_from: lic.get("valid_from")?.as_str()?.to_string(),
            valid_until: lic.get("valid_until")?.as_str()?.to_string(),
        },
        signature: v.get("signature")?.as_str()?.to_string(),
    })
}

fn decode(token: &str) -> SignedLicense {
    parse_signed(&decode_token(token).unwrap()).unwrap()
}

#[test]
fn model_test_validate() {
    let token = test_license().hash(SECRET.to_string()).unwrap();
    assert_eq!(decode(&token).validate(SECRET.to_string()), Ok(()));
}

#[test]
fn serve_test_validate() {
    let sl = decode(TEST_TOKEN);
    assert_eq!(sl.validate(SECRET.to_string()), Ok(()));
}

#[test]
fn serve_test_generate() {
    let missing = handle_generate(SECRET.to_string(), KEY, None, license_between("2000-1-1", "3000-1-1"));
    assert_eq!(missing.unwrap_err().status_code(), 400);
    let bad_key = KEY.to_owned() + "_bad";
    let wrong = handle_generate(
        SECRET.to_string(),
        KEY,
        Some(bad_key.as_str()),
        license_between("2000-1-1", "3000-1-1"),
    );
    assert_eq!(wrong.unwrap_err().status_code(), 400);
    let ok = handle_generate(SECRET.to_string(), KEY, Some(KEY), license_between("2000-1-1", "3000-1-1"));
    assert!(ok.is_ok());
}

#[test]
fn generate_assigns_fresh_id() {
    let token = handle_generate(SECRET.to_string(), KEY, Some(KEY), license_between("2000-1-1", "3000-1-1")).unwrap();
    let sl = decode(&token);
    let id = sl.license.id.clone().unwrap();
    assert_ne!(id, "abc");
    assert_eq!(id.len(), 36);
    assert_eq!(sl.validate(SECRET.to_string()), Ok(()));
}

#[test]
fn api_key_gating_errors() {
    assert_eq!(authorize(None, KEY), Err(ApiFailure::MissingApiKeyHeader));
    assert_eq!(authorize(Some("KEY_bad"), KEY), Err(ApiFailure::InvalidApiKey));
    assert_eq!(authorize(Some(KEY), KEY), Ok(()));
    assert_eq!(ApiFailure::MissingApiKeyHeader.message(), "MISSING_API_KEY_HEADER");
    assert_eq!(ApiFailure::InvalidApiKey.message(), "INVALID_API_KEY");
}

#[test]
fn failure_status_codes() {
    assert_eq!(ApiFailure::NotFound.status_code(), 404);
    assert_eq!(ApiFailure::Unhandled.status_code(), 500);
    assert_eq!(ApiFailure::InvalidLicense.status_code(), 400);
    assert_eq!(ApiFailure::BadRequest.status_code(), 400);
    assert_eq!(ApiFailure::InvalidGenerateRequest.message(), "INVALID_GENERATE_REQUEST");
    assert_eq!(ApiFailure::Unhandled.message(), "UNHANDLED_REJECTION");
}

#[test]
fn signature_of_fixed_license() {
    assert_eq!(test_license().sign(SECRET.to_string()).unwrap(), TEST_SIGNATURE);
}

#[test]
fn signing_text_joins_fields() {
    let mut l = test_license();
    l.meta.insert("b".to_string(), "2".to_string());
    l.meta.insert("a".to_string(), "1".to_string());
    assert_eq!(l.signing_text(), "2000-1-1\n3000-1-1\ntest\n1\n2");
}

#[test]
fn hash_of_fixed_license_is_stable() {
    assert_eq!(test_license().hash(SECRET.to_string()).unwrap(), TEST_TOKEN);
}

#[test]
fn token_carries_metadata_json() {
    let mut l = test_license();
    l.meta.insert("x\"y".to_string(), "v".to_string());
    l.meta.insert("a".to_string(), "1".to_string());
    let sig = l.sign(SECRET.to_string()).unwrap();
    let text = l.signed_json_text(&sig);
    let expected = format!(
        "{{\"license\":{{\"id\":\"test\",\"meta\":{{\"a\":\"1\",\"x\\\"y\":\"v\"}},\"valid_from\":\"2000-1-1\",\"valid_until\":\"3000-1-1\"}},\"signature\":\"{}\"}}",
        sig
    );
    assert_eq!(text, expected);
    let sl = decode(&l.hash(SECRET.to_string()).unwrap());
    assert_eq!(sl.validate(SECRET.to_string()), Ok(()));
}

#[test]
fn metadata_order_of_insertion_irrelevant() {
    let mut a = test_license();
    a.meta.insert("k1".to_string(), "v1".to_string());
    a.meta.insert("k2".to_string(), "v2".to_string());
    let mut b = test_license();
    b.meta.insert("k2".to_string(), "v2".to_string());
    b.meta.insert("k1".to_string(), "v1".to_string());
    assert_eq!(a.hash(SECRET.to_string()).unwrap(), b.hash(SECRET.to_string()).unwrap());
}

#[test]
fn metadata_insert_replaces_value() {
    let pairs = vec![
        ("k".to_string(), "old".to_string()),
        ("j".to_string(), "x".to_string()),
        ("k".to_string(), "new".to_string()),
    ];
    let m = Metadata::from_pairs(&pairs);
    assert_eq!(m.len(), 2);
    let (k0, v0) = m.entry(0);
    let (k1, v1) = m.entry(1);
    assert_eq!((k0.as_str(), v0.as_str()), ("j", "x"));
    assert_eq!((k1.as_str(), v1.as_str()), ("k", "new"));
}

#[test]
fn mutated_id_fails_signature() {
    let mut sl = signed(test_license(), SECRET);
    sl.license.id = Some("other".to_string());
    assert_eq!(sl.validate(SECRET.to_string()), Err(LicenseError::InvalidSignature));
}

#[test]
fn mutated_meta_fails_signature() {
    let mut l = test_license();
    l.meta.insert("plan".to_string(), "basic".to_string());
    let mut sl = signed(l, SECRET);
    sl.license.meta.insert("plan".to_string(), "pro".to_string());
    assert_eq!(sl.validate(SECRET.to_string()), Err(LicenseError::InvalidSignature));
}

#[test]
fn mutated_dates_fail_signature() {
    let mut sl = signed(test_license(), SECRET);
    sl.license.valid_until = "3000-1-2".to_string();
    assert_eq!(sl.validate(SECRET.to_string()), Err(LicenseError::InvalidSignature));
    let mut sl = signed(test_license(), SECRET);
    sl.license.valid_from = "2000-1-2".to_string();
    assert_eq!(sl.validate(SECRET.to_string()), Err(LicenseError::InvalidSignature));
}

#[test]
fn other_secret_fails_signature() {
    let token = test_license().hash("secretA".to_string()).unwrap();
    assert_eq!(decode(&token).validate("secretB".to_string()), Err(LicenseError::InvalidSignature));
}

#[test]
fn expiry_boundaries() {
    let today = day(2024, 3, 15);
    let same_day = signed(license_between("2024-03-15", "2024-03-15"), SECRET);
    assert_eq!(same_day.validate_at(SECRET.to_string(), today), Ok(()));
    let tomorrow = signed(license_between("2024-03-16", "2024-04-01"), SECRET);
    assert_eq!(tomorrow.validate_at(SECRET.to_string(), today), Err(LicenseError::Expired));
    let yesterday = signed(license_between("2024-03-01", "2024-03-14"), SECRET);
    assert_eq!(yesterday.validate_at(SECRET.to_string(), today), Err(LicenseError::Expired));
}

#[test]
fn expired_today_by_clock() {
    let sl = signed(license_between("2000-01-01", "2000-01-02"), SECRET);
    assert_eq!(sl.validate(SECRET.to_string()), Err(LicenseError::Expired));
}

#[test]
fn invalid_date_format() {
    let sl = signed(license_between("1-2-3", "2024-13-01"), SECRET);
    assert_eq!(sl.validate_at(SECRET.to_string(), day(2024, 1, 1)), Err(LicenseError::InvalidDateFormat));
    let sl = signed(license_between("2024-01-01", "soon"), SECRET);
    assert_eq!(sl.validate_at(SECRET.to_string(), day(2024, 1, 1)), Err(LicenseError::InvalidDateFormat));
}

#[test]
fn missing_id_is_rejected() {
    let mut sl = signed(test_license(), SECRET);
    sl.license.id = None;
    assert_eq!(sl.validate(SECRET.to_string()), Err(LicenseError::InvalidEncoding));
}

#[test]
fn decode_rejects_non_base64() {
    assert_eq!(decode_token("not base64!!"), Err(LicenseError::InvalidEncoding));
}

#[test]
fn decode_rejects_non_utf8() {
    assert_eq!(decode_token("/w=="), Err(LicenseError::InvalidEncoding));
}

#[test]
fn decode_gives_text_of_other_shapes() {
    let text = decode_token("eyJhIjoxfQ==").unwrap();
    assert_eq!(text, "{\"a\":1}");
    assert!(parse_signed(&text).is_none());
}

#[test]
fn validate_twice_same_result() {
    let sl = decode(TEST_TOKEN);
    let first = sl.validate_at(SECRET.to_string(), day(2024, 5, 5));
    let second = sl.validate_at(SECRET.to_string(), day(2024, 5, 5));
    assert_eq!(first, second);
    let other = sl.validate_at("nope".to_string(), day(2024, 5, 5));
    assert_eq!(other, sl.validate_at("nope".to_string(), day(2024, 5, 5)));
}

#[test]
fn handle_validate_maps_failures() {
    let sl = decode(TEST_TOKEN);
    assert_eq!(handle_validate_at(SECRET.to_string(), &sl, day(2024, 5, 5)), Ok(()));
    assert_eq!(handle_validate_at("x".to_string(), &sl, day(2024, 5, 5)), Err(ApiFailure::InvalidLicense));
}

#[test]
fn default_window_is_thirty_days() {
    let today = day(2024, 1, 31);
    assert_eq!(window(None, None, today), Some((today, day(2024, 3, 1))));
    let from = day(2023, 12, 10);
    assert_eq!(window(Some(from), None, today), Some((from, day(2024, 1, 9))));
    let until = day(2025, 1, 1);
    assert_eq!(window(None, Some(until), today), Some((today, until)));
}

#[test]
fn issue_writes_dates() {
    let meta = vec![("a".to_string(), "1".to_string())];
    let l = License::issue("id1".to_string(), day(2024, 3, 1), day(2024, 3, 31), &meta).unwrap();
    assert_eq!(l.valid_from, "2024-03-01");
    assert_eq!(l.valid_until, "2024-03-31");
    assert_eq!(l.id, Some("id1".to_string()));
    assert_eq!(l.signing_text(), "2024-03-01\n2024-03-31\nid1\n1");
}

#[test]
fn generate_round_trip() {
    let meta = vec![("user".to_string(), "bob".to_string())];
    let token = license_server::issue::generate(SECRET.to_string(), None, None, &meta).unwrap();
    let sl = decode(&token);
    assert_eq!(sl.validate(SECRET.to_string()), Ok(()));
    assert_eq!(sl.license.meta.len(), 1);
}

#[test]
fn parse_key_val_splits_first_equals() {
    assert_eq!(parse_key_val("a=b=c"), Ok(("a".to_string(), "b=c".to_string())));
    assert_eq!(parse_key_val("=v"), Ok(("".to_string(), "v".to_string())));
    assert_eq!(
        parse_key_val("novalue"),
        Err("invalid KEY=value: no `=` found in `novalue`".to_string())
    );
}

#[test]
fn hex_of_bytes() {
    assert_eq!(to_hex(&[0x00, 0x0f, 0xa5, 0xff]), "000fa5ff");
    assert_eq!(to_hex(&[]), "");
}

#[test]
fn text_comparison() {
    assert!(same_text("abc", "abc"));
    assert!(!same_text("abc", "abd"));
    assert!(!same_text("abc", "ab"));
}

#[test]
fn error_messages() {
    assert_eq!(LicenseError::Expired.message(), "License expired or not yet active");
    assert_eq!(LicenseError::InvalidSignature.message(), "Invalid signature!");
}

#[test]
fn signature_is_64_lowercase_hex() {
    let sig = test_license().sign("another secret".to_string()).unwrap();
    assert_eq!(sig.len(), 64);
    assert!(sig.chars().all(|c| ('0' <= c && c <= '9') || ('a' <= c && c <= 'f')));
}

#[test]
fn generate_with_both_dates_succeeds() {
    let meta = vec![];
    let token = license_server::issue::generate(
        SECRET.to_string(),
        Some(day(2000, 1, 1)),
        Some(day(2999, 12, 31)),
        &meta,
    )
    .unwrap();
    let sl = decode(&token);
    assert_eq!(sl.license.valid_from, "2000-01-01");
    assert_eq!(sl.license.valid_until, "2999-12-31");
    assert_eq!(sl.validate(SECRET.to_string()), Ok(()));
}

#[test]
fn issue_fails_beyond_calendar_range() {
    let meta = vec![];
    let r = License::issue("x".to_string(), day(300000, 1, 1), day(2024, 1, 1), &meta);
    assert_eq!(r.unwrap_err(), LicenseError::InvalidDateFormat);
}

#[test]
fn every_failure_tag() {
    assert_eq!(ApiFailure::NotFound.message(), "NOT_FOUND");
    assert_eq!(ApiFailure::InvalidLicense.message(), "INVALID_LICENSE");
    assert_eq!(ApiFailure::BadRequest.message(), "BAD_REQUEST");
    assert_eq!(LicenseError::InvalidEncoding.message(), "invalid license encoding");
    assert_eq!(LicenseError::InvalidDateFormat.message(), "invalid date format");
    assert_eq!(LicenseError::KeyMaterialError.message(), "invalid signing secret");
}
