use xiranet::identity::mfa::{base32_decode, base32_encode, generate_totp_code, MfaEngine, TOTP_PERIOD};

#[test]
fn base32_roundtrip() {
    let data = b"hello world!";
    let encoded = base32_encode(data);
    let decoded = base32_decode(&encoded).unwrap();
    assert_eq!(&decoded[..data.len()], data);
}

#[test]
fn rfc6238_test_vector() {
    let key = b"12345678901234567890";
    let code = generate_totp_code(key, 59 / TOTP_PERIOD);
    assert_eq!(code, "287082");
}

#[test]
fn invalid_secret_rejects() {
    assert!(!MfaEngine::verify_totp("not-base32!@#", "123456"));
}
