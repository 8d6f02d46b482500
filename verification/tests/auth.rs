//! Proofs of authority.

use base64::Engine;
use hmac::Mac;
use runnel::auth;
use runnel::failure::Failure;
use runnel::proxy::auth as proxy_auth;

#[test]
fn auth_proof_round_trip_and_replay_protection() {
    let mut validator = auth::ReplayProtector::new(120);
    let proof = auth::AuthProof::sign("secret", "POST", "/connect", "example.com:443").unwrap();

    validator.validate("secret", "POST", "/connect", "example.com:443", &proof).unwrap();

    let err =
        validator.validate("secret", "POST", "/connect", "example.com:443", &proof).unwrap_err();
    assert!(err.to_text().contains("nonce already used"));
}

#[test]
fn proof_round_trip_and_replay_protection() {
    let mut validator = proxy_auth::ReplayProtector::new(120);
    let proof =
        proxy_auth::AuthProof::sign("secret", "POST", "/connect", "example.com:443").unwrap();

    validator.validate("secret", "POST", "/connect", "example.com:443", &proof).unwrap();

    let err =
        validator.validate("secret", "POST", "/connect", "example.com:443", &proof).unwrap_err();
    assert!(err.to_text().contains("nonce already used"));
}

#[test]
fn proofs_hold_for_what_was_signed_only() {
    let proof = proxy_auth::AuthProof::sign_at("secret", "POST", "/c", "a:1", 1000, "n".to_owned());
    let check = |now: i64, password: &str, method: &str, path: &str, target: &str| {
        proxy_auth::ReplayProtector::new(120).validate_at(now, password, method, path, target, &proof)
    };
    assert!(check(1000, "secret", "POST", "/c", "a:1").is_ok());
    assert!(check(1120, "secret", "POST", "/c", "a:1").is_ok());
    let told = |r: Result<(), Failure>| r.unwrap_err().full_text();
    let outside = "timestamp outside allowed window";
    assert_eq!(told(check(1121, "secret", "POST", "/c", "a:1")), outside);
    assert_eq!(told(check(879, "secret", "POST", "/c", "a:1")), outside);
    assert_eq!(told(check(1000, "other", "POST", "/c", "a:1")), "signature mismatch");
    assert_eq!(told(check(1000, "secret", "GET", "/c", "a:1")), "signature mismatch");
    assert_eq!(told(check(1000, "secret", "POST", "/d", "a:1")), "signature mismatch");
    assert_eq!(told(check(1000, "secret", "POST", "/c", "a:2")), "signature mismatch");
    let cause = base64::engine::general_purpose::URL_SAFE_NO_PAD.decode("%%").unwrap_err();
    let expected = format!("invalid signature encoding: {cause}");
    let mut broken = proxy_auth::AuthProof::sign_at("s", "P", "/", "a", 1000, "n".to_owned());
    broken.signature = "%%".to_owned();
    let mut protector = proxy_auth::ReplayProtector::new(120);
    assert_eq!(told(protector.validate_at(1000, "s", "P", "/", "a", &broken)), expected);
    let mut broken = auth::AuthProof::sign_at("s", "P", "/", "a", 1000, "n".to_owned());
    broken.signature = "%%".to_owned();
    let mut protector = auth::ReplayProtector::new(120);
    assert_eq!(told(protector.validate_at(1000, "s", "P", "/", "a", &broken)), expected);
}

#[test]
fn signatures_are_those_of_the_hash() {
    // The signature of the text under the key, in the alphabet for addresses.
    let expected = |password: &str, text: &str| {
        let mut mac = hmac::Hmac::<sha2::Sha256>::new_from_slice(password.as_bytes()).unwrap();
        mac.update(text.as_bytes());
        mac.finalize().into_bytes().to_vec()
    };
    let text = auth::signature_input("POST", "/c", "a:1", 5, "n");
    let bytes = expected("secret", &text);
    assert_eq!(
        auth::sign("secret", "POST", "/c", "a:1", 5, "n"),
        base64::engine::general_purpose::URL_SAFE_NO_PAD.encode(bytes)
    );
    assert_eq!(
        proxy_auth::sign("secret", "POST", "/c", "a:1", 5, "n"),
        base64::engine::general_purpose::URL_SAFE_NO_PAD
            .encode(proxy_auth::sign_bytes("secret", "POST", "/c", "a:1", 5, "n"))
    );
}

#[test]
fn nonces_are_new_each_time() {
    let a = auth::AuthProof::sign("s", "P", "/", "a").unwrap();
    let b = auth::AuthProof::sign("s", "P", "/", "a").unwrap();
    assert_ne!(a.nonce, b.nonce);
    assert!(a.timestamp > 1_600_000_000);
    let c = proxy_auth::AuthProof::sign("s", "P", "/", "a").unwrap();
    let d = proxy_auth::AuthProof::sign("s", "P", "/", "a").unwrap();
    assert_ne!(c.nonce, d.nonce);
}

#[test]
fn old_nonces_are_forgotten() {
    let mut validator = auth::ReplayProtector::new(10);
    let proof = |at: i64| auth::AuthProof::sign_at("s", "P", "/", "a", at, "n".to_owned());
    assert!(validator.validate_at(100, "s", "P", "/", "a", &proof(100)).is_ok());
    assert!(validator.validate_at(105, "s", "P", "/", "a", &proof(105)).is_err());
    assert!(validator.validate_at(200, "s", "P", "/", "a", &proof(200)).is_ok());
}

#[test]
fn proofs_need_a_clock_and_random_bytes() {
    let bytes = || Ok(vec![0_u8; 16]);
    let none = || Err("none left".to_owned());
    let early = || Err("too early".to_owned());
    let signed = auth::AuthProof::sign_with("s", "P", "/", "a", Ok(7), bytes()).unwrap();
    assert_eq!((signed.timestamp, signed.nonce.as_str()), (7, "AAAAAAAAAAAAAAAAAAAAAA"));
    let at = auth::AuthProof::sign_at("s", "P", "/", "a", 7, signed.nonce.clone());
    assert_eq!(signed.signature, at.signature);
    let late = auth::AuthProof::sign_with("s", "P", "/", "a", early(), bytes()).unwrap_err();
    assert_eq!(late.full_text(), "system clock before unix epoch: too early");
    let bare = auth::AuthProof::sign_with("s", "P", "/", "a", Ok(7), none()).unwrap_err();
    assert_eq!(bare.full_text(), "failed to generate auth nonce: none left");
    let other = proxy_auth::AuthProof::sign_with("s", "P", "/", "a", Ok(7), bytes());
    assert_eq!(other.unwrap().signature, at.signature);
    let late = proxy_auth::AuthProof::sign_with("s", "P", "/", "a", early(), none()).unwrap_err();
    assert_eq!(late.full_text(), "system clock before unix epoch: too early");
    let bare = proxy_auth::AuthProof::sign_with("s", "P", "/", "a", Ok(7), none()).unwrap_err();
    assert_eq!(bare.full_text(), "failed to generate auth nonce: none left");
}
