use tempo_budget::identity::{bearer_token, AuthUser};
use tempo_budget::token::{
    check_claims, create_token, expiry_after, issue_token_at, verify_token, verify_token_at,
    TokenConfig, TokenError, TOKEN_LIFETIME_SECS,
};
use tempo_budget::ApiError;

fn config(secret: &str) -> TokenConfig {
    TokenConfig::from_setting(Some(secret.to_string()))
}

fn now() -> i64 {
    chrono::Utc::now().timestamp()
}

#[test]
fn issued_token_verifies_to_its_subject() {
    let cfg = config("s3cret");
    let token = create_token(&cfg, "user-42").unwrap();
    assert_ne!(token, "user-42");
    let claims = verify_token(&cfg, &token).unwrap();
    assert_eq!(claims.sub, "user-42");
    let t = now();
    assert!(claims.exp as i64 >= t + TOKEN_LIFETIME_SECS - 60);
    assert!(claims.exp as i64 <= t + TOKEN_LIFETIME_SECS + 60);
}

#[test]
fn token_expires_exactly_a_day_after_issue() {
    let cfg = config("s3cret");
    let issued_at = now();
    let token = issue_token_at(&cfg, "user-1", issued_at).unwrap();
    let claims = verify_token_at(&cfg, &token, issued_at).unwrap();
    assert_eq!(claims.exp, (issued_at + 86400) as u64);
    assert!(verify_token_at(&cfg, &token, issued_at + 86400).is_ok());
    assert_eq!(
        verify_token_at(&cfg, &token, issued_at + 86401).err(),
        Some(TokenError::Expired)
    );
}

#[test]
fn token_signed_with_another_secret_is_invalid() {
    let token = create_token(&config("other-secret"), "user-1").unwrap();
    assert_eq!(
        verify_token(&config("s3cret"), &token).err(),
        Some(TokenError::InvalidToken)
    );
}

#[test]
fn token_with_past_expiry_is_expired() {
    let cfg = config("s3cret");
    let token = issue_token_at(&cfg, "user-1", now() - 2 * 86400).unwrap();
    assert_eq!(verify_token(&cfg, &token).err(), Some(TokenError::Expired));
}

#[test]
fn unparseable_token_is_malformed() {
    let cfg = config("s3cret");
    assert_eq!(
        verify_token(&cfg, "not-a-token").err(),
        Some(TokenError::Malformed)
    );
    assert_eq!(verify_token(&cfg, "").err(), Some(TokenError::Malformed));
}

#[test]
fn missing_secret_falls_back_to_placeholder() {
    assert_eq!(TokenConfig::from_setting(None).secret, "secret");
    assert_eq!(config("abc").secret, "abc");
}

#[test]
fn expiry_is_a_day_later_when_representable() {
    assert_eq!(expiry_after(0), Some(86400));
    assert_eq!(expiry_after(1_700_000_000), Some(1_700_086_400));
    assert_eq!(expiry_after(-86400), Some(0));
    assert_eq!(expiry_after(-86401), None);
    assert_eq!(expiry_after(i64::MAX), None);
}

#[test]
fn claims_are_judged_by_presence_and_expiry() {
    let ok = check_claims(Ok((Some("u".to_string()), Some(100))), 100).unwrap();
    assert_eq!(ok.sub, "u");
    assert_eq!(ok.exp, 100);
    assert_eq!(
        check_claims(Ok((Some("u".to_string()), Some(100))), 101).err(),
        Some(TokenError::Expired)
    );
    assert_eq!(
        check_claims(Ok((None, Some(100))), 0).err(),
        Some(TokenError::Malformed)
    );
    assert_eq!(
        check_claims(Ok((Some("u".to_string()), None)), 0).err(),
        Some(TokenError::Malformed)
    );
    assert_eq!(
        check_claims(Err(TokenError::InvalidToken), 0).err(),
        Some(TokenError::InvalidToken)
    );
}

#[test]
fn bearer_prefix_is_stripped() {
    assert_eq!(bearer_token("Bearer abc.def"), Some("abc.def"));
    assert_eq!(bearer_token("Bearer "), Some(""));
    assert_eq!(bearer_token("bearer abc"), None);
    assert_eq!(bearer_token("Basic abc"), None);
    assert_eq!(bearer_token("Bearer"), None);
    assert_eq!(bearer_token(""), None);
    assert_eq!(bearer_token("Bearer é.ü"), Some("é.ü"));
}

#[test]
fn valid_bearer_credential_yields_identity() {
    let cfg = config("s3cret");
    let token = create_token(&cfg, "user-7").unwrap();
    let header = format!("Bearer {}", token);
    let user = AuthUser::from_header(&cfg, Some(&header)).unwrap();
    assert_eq!(user.user_id, "user-7");
}

#[test]
fn every_credential_failure_is_unauthenticated() {
    let cfg = config("s3cret");
    let token = create_token(&cfg, "user-7").unwrap();
    let wrong_scheme = format!("Token {}", token);
    let foreign = format!("Bearer {}", create_token(&config("x"), "user-7").unwrap());
    let expired = format!(
        "Bearer {}",
        issue_token_at(&cfg, "user-7", now() - 3 * 86400).unwrap()
    );
    for header in [None, Some(wrong_scheme.as_str()), Some(foreign.as_str()), Some(expired.as_str()), Some("Bearer junk")] {
        assert_eq!(
            AuthUser::from_header(&cfg, header).err(),
            Some(ApiError::Unauthenticated)
        );
    }
}
