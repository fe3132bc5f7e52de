use github_deploy_helper::webhook::signature::verify;
use hmac::{Hmac, KeyInit, Mac};
use sha2::Sha256;

type HmacSha256 = Hmac<Sha256>;

#[test]
fn valid_signature() {
    let secret = "mysecret";
    let body = b"hello world";
    let mut mac = HmacSha256::new_from_slice(secret.as_bytes()).unwrap();
    mac.update(body);
    let result = mac.finalize().into_bytes();
    let header = format!("sha256={}", hex::encode(result));
    assert!(verify(secret, body, &header));
}

#[test]
fn invalid_signature() {
    assert!(!verify("secret", b"body", "sha256=deadbeef"));
}

#[test]
fn missing_prefix() {
    assert!(!verify("secret", b"body", "deadbeef"));
}

#[test]
fn signature_from_another_secret_is_refused() {
    let mut mac = HmacSha256::new_from_slice(b"other").unwrap();
    mac.update(b"payload");
    let header = format!("sha256={}", hex::encode(mac.finalize().into_bytes()));
    assert!(!verify("secret", b"payload", &header));
}

#[test]
fn upper_case_hex_is_accepted() {
    let mut mac = HmacSha256::new_from_slice(b"k").unwrap();
    mac.update(b"p");
    let header = format!("sha256={}", hex::encode_upper(mac.finalize().into_bytes()));
    assert!(verify("k", b"p", &header));
}

#[test]
fn non_hex_tag_is_refused() {
    assert!(!verify("k", b"p", "sha256=zz"));
    assert!(!verify("k", b"p", "sha256="));
}
