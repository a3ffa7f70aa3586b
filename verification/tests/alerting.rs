use xiranet::alerting::channels::redact_telegram_url;
use xiranet::alerting::url_guard::{is_ip_allowed, is_safe_ip, GuardLevel, IpAddr};

#[test]
fn redacts_telegram_token() {
    let url = "https://api.telegram.org/bot1234567:ABC-TOKEN/sendMessage";
    let red = redact_telegram_url(url);
    assert!(!red.contains("ABC-TOKEN"));
    assert!(red.contains("<REDACTED>"));
    assert!(red.contains("/sendMessage"));
}

#[test]
fn blocks_loopback() {
    assert!(!is_safe_ip(&IpAddr::V4([127, 0, 0, 1])));
    assert!(!is_safe_ip(&IpAddr::V6([0, 0, 0, 0, 0, 0, 0, 1])));
}

#[test]
fn blocks_imds() {
    assert!(!is_safe_ip(&IpAddr::V4([169, 254, 169, 254])));
}

#[test]
fn blocks_rfc1918() {
    assert!(!is_safe_ip(&IpAddr::V4([10, 0, 0, 1])));
    assert!(!is_safe_ip(&IpAddr::V4([172, 16, 0, 1])));
    assert!(!is_safe_ip(&IpAddr::V4([192, 168, 1, 1])));
}

#[test]
fn allows_public() {
    assert!(is_safe_ip(&IpAddr::V4([8, 8, 8, 8])));
    assert!(is_safe_ip(&IpAddr::V4([1, 1, 1, 1])));
}

#[test]
fn blocks_unique_local_v6() {
    assert!(!is_safe_ip(&IpAddr::V6([0xfc00, 0, 0, 0, 0, 0, 0, 1])));
    assert!(!is_safe_ip(&IpAddr::V6([0xfe80, 0, 0, 0, 0, 0, 0, 1])));
}

#[test]
fn upstream_mode_allows_loopback_blocks_metadata() {
    let imds = IpAddr::V4([169, 254, 169, 254]);
    let lo = IpAddr::V4([127, 0, 0, 1]);
    let priv_ip = IpAddr::V4([10, 0, 0, 5]);
    let pub_ip = IpAddr::V4([8, 8, 8, 8]);
    assert!(!is_ip_allowed(&imds, GuardLevel::UpstreamOnly));
    assert!(is_ip_allowed(&lo, GuardLevel::UpstreamOnly));
    assert!(is_ip_allowed(&priv_ip, GuardLevel::UpstreamOnly));
    assert!(is_ip_allowed(&pub_ip, GuardLevel::UpstreamOnly));

    assert!(!is_ip_allowed(&imds, GuardLevel::Strict));
    assert!(!is_ip_allowed(&lo, GuardLevel::Strict));
    assert!(!is_ip_allowed(&priv_ip, GuardLevel::Strict));
    assert!(is_ip_allowed(&pub_ip, GuardLevel::Strict));
}
