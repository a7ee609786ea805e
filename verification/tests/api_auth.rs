use cluster_runtime::api::auth::{generate_token, token_matches};

#[test]
fn accepts_matching_bearer_token() {
    assert!(token_matches(Some("Bearer secret"), "secret"));
    assert!(token_matches(Some("Bearer  secret "), "secret"));
}

#[test]
fn rejects_missing_or_wrong_token() {
    assert!(!token_matches(None, "secret"));
    assert!(!token_matches(Some("secret"), "secret"));
    assert!(!token_matches(Some("Bearer other"), "secret"));
    assert!(!token_matches(Some("Basic secret"), "secret"));
}

#[test]
fn token_is_64_hex_chars() {
    let token = generate_token();
    assert_eq!(token.len(), 64);
    assert!(token.chars().all(|c| c.is_ascii_hexdigit()));
    assert_ne!(generate_token(), generate_token());
}

#[test]
fn bearer_round_trip_accepts_any_plain_token() {
    for t in ["a", "abc123", "token-with-dashes"] {
        let header = format!("Bearer {}", t);
        assert!(token_matches(Some(header.as_str()), t));
    }
    assert!(!token_matches(None, "abc"));
}

#[test]
fn bearer_prefix_is_case_sensitive() {
    assert!(!token_matches(Some("bearer secret"), "secret"));
    assert!(!token_matches(Some("Bearer"), ""));
    assert!(token_matches(Some("Bearer "), ""));
}

#[test]
fn token_is_lowercase_hex() {
    let token = generate_token();
    assert!(token.chars().all(|c| c.is_ascii_digit() || ('a'..='f').contains(&c)));
}
