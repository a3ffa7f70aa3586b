use xiranet::identity::authenticator::{AuthOutcome, Authenticator};
use xiranet::identity::secret_box::{SecretBox, SecretBoxError};
use xiranet::identity::sessions::SessionManager;
use xiranet::identity::users::{UserManager, UserRole};

fn manager() -> UserManager {
    let mut m = UserManager::new();
    let r = m.register("a@x.io".to_string(), "alice".to_string(), "correct horse battery", UserRole::Admin);
    assert!(r.is_ok());
    m
}

#[test]
fn login_opens_a_session() {
    let mut a = Authenticator::new(manager(), SessionManager::new(5));
    match a.login_at("a@x.io", "correct horse battery", "10.0.0.1", "curl/8", 1000, "1234-5678") {
        AuthOutcome::Success { email, session, .. } => {
            assert_eq!(email, "a@x.io");
            assert_eq!(session.token, "xira_tok_12345678");
            assert_eq!(session.expires_at, 1000 + 86_400);
            assert!(session.active);
        }
        _ => panic!("expected success"),
    }
}

#[test]
fn login_wrong_password_is_invalid() {
    let mut a = Authenticator::new(manager(), SessionManager::new(5)).with_session_ttl(10);
    assert!(matches!(
        a.login_at("a@x.io", "nope", "ip", "ua", 1000, "u"),
        AuthOutcome::InvalidCredentials
    ));
    assert!(matches!(a.login_at("b@x.io", "nope", "ip", "ua", 1000, "u"), AuthOutcome::InvalidCredentials));
}

#[test]
fn short_session_ttl_is_raised_to_a_minute() {
    let mut a = Authenticator::new(manager(), SessionManager::new(5)).with_session_ttl(10);
    match a.login_at("a@x.io", "correct horse battery", "ip", "ua", 50, "abc") {
        AuthOutcome::Success { session, .. } => assert_eq!(session.expires_at, 110),
        _ => panic!("expected success"),
    }
}

#[test]
fn roundtrip() {
    let pass = "0123456789abcdef0123456789abcdef".to_string();
    let sb = SecretBox::from_passphrase(&pass).unwrap();
    let plaintext = b"super-secret-mfa-seed-XYZ";
    let sealed = sb.seal(plaintext).unwrap();
    let opened = sb.open(&sealed).unwrap();
    assert_eq!(opened, plaintext);
}

#[test]
fn weak_key_rejected() {
    assert!(SecretBox::from_passphrase("short").is_err());
}

#[test]
fn tampered_ciphertext_fails() {
    let pass = "0123456789abcdef0123456789abcdef".to_string();
    let sb = SecretBox::from_passphrase(&pass).unwrap();
    let sealed = sb.seal(b"x").unwrap();
    let mut bytes = sealed.into_bytes();
    let mid = bytes.len() / 2;
    bytes[mid] = if bytes[mid] == b'A' { b'B' } else { b'A' };
    let tampered = String::from_utf8(bytes).unwrap();
    assert!(sb.open(&tampered).is_err());
}

#[test]
fn secret_box_raw_hex_key_and_errors() {
    let hex = "00112233445566778899aabbccddeeff00112233445566778899AABBCCDDEEFF";
    let sb = SecretBox::from_passphrase(hex).unwrap();
    let sealed = sb.seal_with_nonce(b"hi", &[7u8; 12]).unwrap();
    assert_eq!(sb.open(&sealed).unwrap(), b"hi".to_vec());
    match SecretBox::from_passphrase("short") {
        Err(SecretBoxError::WeakKey(n)) => assert_eq!(n, 5),
        _ => panic!("expected a weak key"),
    }
    match SecretBox::from_passphrase_salted("a passphrase that is long enough!!", Some("short")) {
        Err(SecretBoxError::WeakKey(n)) => assert_eq!(n, 5),
        _ => panic!("expected a weak salt"),
    }
    assert!(matches!(sb.open("!!!not base64"), Err(SecretBoxError::InvalidCiphertext(_))));
    assert!(matches!(sb.open("AAAA"), Err(SecretBoxError::InvalidCiphertext(_))));
    let other = SecretBox::from_passphrase("ffffffffffffffffffffffffffffffffffffffffffffffffffffffffffffffff").unwrap();
    assert!(matches!(other.open(&sealed), Err(SecretBoxError::DecryptionFailed(_))));
    assert_eq!(SecretBoxError::WeakKey(3).message(), "XIRA_SECRETS_KEY too short (3 bytes); need at least 32");
    assert_eq!(SecretBoxError::MissingKey.message(), "XIRA_SECRETS_KEY environment variable is not set");
}

#[test]
fn hashed_password_verifies() {
    let h = xiranet::identity::users::hash_password("pw-123").unwrap();
    assert!(h.starts_with("$argon2id$"));
    assert!(xiranet::identity::users::verify_password("pw-123", &h));
    assert!(!xiranet::identity::users::verify_password("pw-124", &h));
}

#[test]
fn role_change_and_disable_end_sessions() {
    let mut users = UserManager::new();
    let id = users.register("b@x.io".to_string(), "bob".to_string(), "pw-pw-pw-pw", UserRole::Viewer).unwrap();
    let mut a = Authenticator::new(users, SessionManager::new(5));
    assert!(matches!(a.login_at("b@x.io", "pw-pw-pw-pw", "ip", "ua", 100, "u-1"), AuthOutcome::Success { .. }));
    assert!(matches!(a.login_at("b@x.io", "pw-pw-pw-pw", "ip", "ua", 101, "u-2"), AuthOutcome::Success { .. }));
    assert_eq!(a.change_role(&id, UserRole::Admin), Some(2));
    assert_eq!(a.change_role(&id, UserRole::Admin), Some(0));
    assert_eq!(a.change_role("nobody", UserRole::Admin), None);
    assert!(matches!(a.login_at("b@x.io", "pw-pw-pw-pw", "ip", "ua", 102, "u-3"), AuthOutcome::Success { .. }));
    assert_eq!(a.logout_everywhere(&id), 1);
    assert!(matches!(a.login_at("b@x.io", "pw-pw-pw-pw", "ip", "ua", 103, "u-4"), AuthOutcome::Success { .. }));
    assert_eq!(a.disable_account(&id), Some(1));
    assert!(matches!(a.login_at("b@x.io", "pw-pw-pw-pw", "ip", "ua", 104, "u-5"), AuthOutcome::AccountDisabled));
    assert_eq!(a.disable_account("nobody"), None);
}
