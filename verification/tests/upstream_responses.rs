use delivr::error::Error;
use delivr::secret::SecretString;
use delivr::token::Token;
use delivr::upstream::{handle_refresh_response, handle_token_response, AuthClient};

fn stored_token(refresh: Option<&str>) -> Token {
    Token {
        scope: "S".to_string(),
        access_token: SecretString::new("old".to_string()),
        refresh_token: refresh.map(|r| SecretString::new(r.to_string())),
        api_domain: "d".to_string(),
        token_type: "Bearer".to_string(),
        expires_in: 3_600,
        time_stamp: 0,
    }
}

#[test]
fn issuance_reads_every_field() {
    let body = r#"{"access_token":"A","expires_in":3600,"api_domain":"d","token_type":"Bearer","scope":"S","refresh_token":"R"}"#;
    let t = handle_token_response(body, 42).unwrap();
    assert_eq!(t.scope, "S");
    assert_eq!(t.access_token.expose_secret(), "A");
    assert_eq!(t.refresh_token.as_ref().unwrap().expose_secret(), "R");
    assert_eq!(t.api_domain, "d");
    assert_eq!(t.token_type, "Bearer");
    assert_eq!(t.expires_in, 3_600);
    assert_eq!(t.time_stamp, 42);
}

#[test]
fn issuance_without_refresh_token_keeps_none() {
    let body = r#"{"access_token":"A","expires_in":3600,"api_domain":"d","token_type":"Bearer","scope":"S"}"#;
    let t = handle_token_response(body, 1).unwrap();
    assert!(t.refresh_token.is_none());
}

#[test]
fn issuance_missing_required_field_is_malformed() {
    let body = r#"{"expires_in":3600,"api_domain":"d","token_type":"Bearer","scope":"S"}"#;
    assert!(matches!(
        handle_token_response(body, 1),
        Err(Error::MalformedUpstreamResponse)
    ));
}

#[test]
fn issuance_wrong_field_type_is_malformed() {
    let body = r#"{"access_token":"A","expires_in":"soon","api_domain":"d","token_type":"Bearer","scope":"S"}"#;
    assert!(matches!(
        handle_token_response(body, 1),
        Err(Error::MalformedUpstreamResponse)
    ));
}

#[test]
fn issuance_on_non_json_text_is_malformed() {
    assert!(matches!(
        handle_token_response("not json at all", 1),
        Err(Error::MalformedUpstreamResponse)
    ));
}

#[test]
fn issuance_error_field_is_a_rejection() {
    let body = r#"{"error":"invalid_code"}"#;
    match handle_token_response(body, 1) {
        Err(Error::UpstreamRejected(m)) => assert_eq!(m, "\"invalid_code\""),
        other => panic!("expected a rejection, got {:?}", other.is_ok()),
    }
}

#[test]
fn refresh_carries_prior_refresh_token_forward() {
    let prev = stored_token(Some("R0"));
    let body = r#"{"access_token":"A2","expires_in":3600,"api_domain":"d","token_type":"Bearer","scope":"S"}"#;
    let t = handle_refresh_response(&prev, body, 9).unwrap();
    assert_eq!(t.access_token.expose_secret(), "A2");
    assert_eq!(t.refresh_token.as_ref().unwrap().expose_secret(), "R0");
    assert_eq!(t.time_stamp, 9);
}

#[test]
fn refresh_takes_a_rotated_refresh_token() {
    let prev = stored_token(Some("R0"));
    let body = r#"{"access_token":"A2","expires_in":3600,"api_domain":"d","token_type":"Bearer","scope":"S","refresh_token":"R1"}"#;
    let t = handle_refresh_response(&prev, body, 9).unwrap();
    assert_eq!(t.refresh_token.as_ref().unwrap().expose_secret(), "R1");
}

#[test]
fn refresh_rejection_surfaces_the_error_text() {
    let prev = stored_token(Some("R0"));
    let body = r#"{"error":"invalid_grant"}"#;
    match handle_refresh_response(&prev, body, 9) {
        Err(Error::UpstreamRejected(m)) => assert_eq!(m, "\"invalid_grant\""),
        other => panic!("expected a rejection, got {:?}", other.is_ok()),
    }
}

#[test]
fn code_exchange_params_carry_the_grant() {
    let client = AuthClient::new(
        "id".to_string(),
        SecretString::new("SECRET-REDACTED".to_string()),
    );
    let ps = client.code_exchange_params("auth-code-123");
    assert_eq!(ps.len(), 4);
    assert_eq!(ps[0], ("grant_type".to_string(), "authorization_code".to_string()));
    assert_eq!(ps[1], ("code".to_string(), "auth-code-123".to_string()));
    assert_eq!(ps[2], ("client_id".to_string(), "id".to_string()));
    assert_eq!(ps[3], ("client_secret".to_string(), "SECRET-REDACTED".to_string()));
}

#[test]
fn refresh_exchange_params_need_a_refresh_token() {
    let client = AuthClient::new(
        "id".to_string(),
        SecretString::new("SECRET-REDACTED".to_string()),
    );
    let with = stored_token(Some("R0"));
    let ps = client.refresh_exchange_params(&with).unwrap();
    assert_eq!(ps[0], ("grant_type".to_string(), "refresh_token".to_string()));
    assert_eq!(ps[1], ("refresh_token".to_string(), "R0".to_string()));
    let without = stored_token(None);
    assert!(matches!(
        client.refresh_exchange_params(&without),
        Err(Error::MissingRefreshToken)
    ));
}
