use hmac::{Hmac, Mac};
use jwt::{Error, SignWithKey, ToBase64, VerifyWithKey};
use license_generator::runtime_error::RuntimeError;
use license_generator::signer::{frame_token, sign_token};
use serde_json::Value;
use sha2::Sha512;

const HEADER: &str = "eyJhbGciOiJIUzUxMiJ9";

fn sample_claims() -> Value {
    let mut claims = serde_json::Map::new();
    claims.insert("iss".to_string(), Value::from("unit-test"));
    claims.insert("sub".to_string(), Value::from("someone"));
    claims.insert("exp".to_string(), Value::from(1_762_208_000i64));
    Value::Object(claims)
}

fn segment_of(claims: &Value) -> Result<String, Error> {
    claims.to_base64().map(|segment| segment.into_owned())
}

fn key_of(secret: &str) -> Hmac<Sha512> {
    Hmac::new_from_slice(secret.as_bytes()).unwrap()
}

#[test]
fn token_has_three_segments() {
    let claims = segment_of(&sample_claims()).unwrap();

    let token = sign_token("SN-123", Ok(claims.clone())).unwrap();

    let segments: Vec<&str> = token.split('.').collect();
    assert_eq!(3, segments.len());
    assert_eq!(HEADER, segments[0]);
    assert_eq!(claims, segments[1]);
    assert_eq!(86, segments[2].len());
}

#[test]
fn token_is_the_one_the_signing_key_makes_of_the_claims() {
    let claims = sample_claims();

    let token = sign_token("SN-123", segment_of(&claims)).unwrap();

    assert_eq!(claims.sign_with_key(&key_of("SN-123")).unwrap(), token);
}

#[test]
fn token_of_known_claims() {
    let mut claims = serde_json::Map::new();
    claims.insert("name".to_string(), Value::from("Jane Doe"));
    let claims = Value::Object(claims);
    assert_eq!("eyJuYW1lIjoiSmFuZSBEb2UifQ", segment_of(&claims).unwrap());

    let token = sign_token("second", segment_of(&claims)).unwrap();

    assert!(token.starts_with("eyJhbGciOiJIUzUxMiJ9.eyJuYW1lIjoiSmFuZSBEb2UifQ."));
    let verified: Value = token.as_str().verify_with_key(&key_of("second")).unwrap();
    assert_eq!(claims, verified);
}

#[test]
fn token_is_verified_with_its_key() {
    let claims = sample_claims();

    let token = sign_token("SN-123", segment_of(&claims)).unwrap();

    let verified: Value = token.as_str().verify_with_key(&key_of("SN-123")).unwrap();
    assert_eq!(claims, verified);
}

#[test]
fn token_is_not_verified_with_another_key() {
    let claims = sample_claims();

    let token = sign_token("SN-123", segment_of(&claims)).unwrap();

    let other: Result<Value, Error> = token.as_str().verify_with_key(&key_of("SN-124"));
    assert!(other.is_err());
    let empty: Result<Value, Error> = token.as_str().verify_with_key(&key_of(""));
    assert!(empty.is_err());
}

#[test]
fn token_of_an_empty_key() {
    let claims = sample_claims();

    let token = sign_token("", segment_of(&claims)).unwrap();

    let verified: Value = token.as_str().verify_with_key(&key_of("")).unwrap();
    assert_eq!(claims, verified);
    let other: Result<Value, Error> = token.as_str().verify_with_key(&key_of("SN-123"));
    assert!(other.is_err());
}

#[test]
fn token_of_a_key_longer_than_a_block() {
    let secret = "0123456789abcdef".repeat(20);
    let claims = sample_claims();

    let token = sign_token(&secret, segment_of(&claims)).unwrap();

    assert_eq!(claims.clone().sign_with_key(&key_of(&secret)).unwrap(), token);
    let verified: Value = token.as_str().verify_with_key(&key_of(&secret)).unwrap();
    assert_eq!(claims, verified);
}

#[test]
fn token_of_a_key_beyond_ascii() {
    let secret = "cl\u{e9}-\u{1f511}";
    let claims = sample_claims();

    let token = sign_token(secret, segment_of(&claims)).unwrap();

    assert_eq!(claims.sign_with_key(&key_of(secret)).unwrap(), token);
}

#[test]
fn tokens_of_different_keys_differ_in_the_signature_only() {
    let claims = segment_of(&sample_claims()).unwrap();

    let first = sign_token("SN-123", Ok(claims.clone())).unwrap();
    let second = sign_token("SN-124", Ok(claims.clone())).unwrap();
    let again = sign_token("SN-123", Ok(claims)).unwrap();

    assert_eq!(first, again);
    let first: Vec<&str> = first.split('.').collect();
    let second: Vec<&str> = second.split('.').collect();
    assert_eq!(first[0], second[0]);
    assert_eq!(first[1], second[1]);
    assert_ne!(first[2], second[2]);
}

#[test]
fn signature_covers_header_and_claims() {
    let claims = "eyJuYW1lIjoiSmFuZSBEb2UifQ".to_string();

    let usual = frame_token("SN-123", Ok(HEADER.to_string()), Ok(claims.clone())).unwrap();
    let other = frame_token("SN-123", Ok("eyJhbGciOiJIUzM4NCJ9".to_string()), Ok(claims.clone()))
        .unwrap();

    assert_eq!(sign_token("SN-123", Ok(claims)).unwrap(), usual);
    assert!(other.starts_with("eyJhbGciOiJIUzM4NCJ9.eyJuYW1lIjoiSmFuZSBEb2UifQ."));
    assert_ne!(usual.split('.').nth(2), other.split('.').nth(2));
}

#[test]
fn claims_that_were_not_encoded_fail_the_signing() {
    match sign_token("SN-123", Err(Error::Format)) {
        Err(RuntimeError::JwtError(Error::Format)) => {}
        other => panic!("Invalid outcome: {other:?}"),
    }
}

#[test]
fn header_that_was_not_encoded_fails_the_signing_first() {
    match frame_token("SN-123", Err(Error::NoKeyId), Err(Error::Format)) {
        Err(RuntimeError::JwtError(Error::NoKeyId)) => {}
        other => panic!("Invalid outcome: {other:?}"),
    }
    match frame_token("SN-123", Err(Error::NoKeyId), Ok(String::new())) {
        Err(RuntimeError::JwtError(Error::NoKeyId)) => {}
        other => panic!("Invalid outcome: {other:?}"),
    }
    match frame_token("SN-123", Ok(HEADER.to_string()), Err(Error::Format)) {
        Err(RuntimeError::JwtError(Error::Format)) => {}
        other => panic!("Invalid outcome: {other:?}"),
    }
}
