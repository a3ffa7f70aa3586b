use xiranet::cli::token_store::{parse_quoted, parse_session, session_content};

#[test]
fn parse_quoted_basic() {
    assert_eq!(parse_quoted(r#" = "abc""#), Some("abc".to_string()));
    assert_eq!(parse_quoted("invalid"), None);
}

#[test]
fn save_and_load_roundtrip() {
    let content = session_content("xira_tok_abcd", "http://localhost:9000");
    let (t, g) = parse_session(&content).expect("load");
    assert_eq!(t, "xira_tok_abcd");
    assert_eq!(g, "http://localhost:9000");
    assert!(parse_session("").is_none());
}

#[test]
fn session_text_reads_back_for_plain_values() {
    for (t, g) in [("", ""), ("tok with spaces", "https://gw.example:8443/x"), ("şifre", "ğ")] {
        let content = session_content(t, g);
        assert_eq!(parse_session(&content), Some((t.to_string(), g.to_string())));
    }
}
