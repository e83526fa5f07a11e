use xtalk::server::auth::{AuthError, AuthMode, WsAuthQuery};

#[test]
fn disabled_allows_without_token() {
    let mode = AuthMode::Disabled;
    assert!(mode.authorize_ws(None).unwrap().is_none());
}

#[test]
fn extracts_query_token_hook() {
    let mode = AuthMode::Disabled;
    let query = WsAuthQuery {
        access_token: Some("abc".into()),
    };
    assert_eq!(mode.extract_access_token(&query, None), Some("abc"));
}

#[test]
fn query_token_wins_over_header() {
    let mode = AuthMode::default();
    let query = WsAuthQuery {
        access_token: Some("q".into()),
    };
    assert_eq!(mode.extract_access_token(&query, Some("Bearer h")), Some("q"));
}

#[test]
fn bearer_header_token_is_trimmed() {
    let mode = AuthMode::Disabled;
    let query = WsAuthQuery::default();
    assert_eq!(mode.extract_access_token(&query, Some("Bearer  tok \t")), Some("tok"));
}

#[test]
fn blank_or_foreign_header_gives_no_token() {
    let mode = AuthMode::Disabled;
    let query = WsAuthQuery::default();
    assert_eq!(mode.extract_access_token(&query, Some("Bearer    ")), None);
    assert_eq!(mode.extract_access_token(&query, Some("Basic abc")), None);
    assert_eq!(mode.extract_access_token(&query, Some("bearer abc")), None);
    assert_eq!(mode.extract_access_token(&query, None), None);
}

#[test]
fn disabled_allows_with_any_token() {
    assert!(AuthMode::Disabled.authorize_ws(Some("whatever")).unwrap().is_none());
}

#[test]
fn auth_error_texts() {
    assert_eq!(AuthError::MissingToken.to_text(), "missing access token");
    assert_eq!(AuthError::InvalidToken.to_text(), "invalid access token");
}
