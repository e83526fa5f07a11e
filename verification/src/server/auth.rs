//! Authorization hooks for the WebSocket entry point (allow-all for now; the
//! token is already extracted for later modes).
use vstd::prelude::*;
use crate::text::{strip_prefix, trim, string_of, has_prefix, trimmed};

verus! {

/// Authentication mode for HTTP/WS entry points.
#[derive(Debug, Clone, Copy, PartialEq, Eq)]
pub enum AuthMode {
    /// Accept all connections; do not require credentials.
    Disabled,
}

impl Default for AuthMode {
    fn default() -> (r: AuthMode)
        ensures
            r == AuthMode::Disabled,
    {
        AuthMode::Disabled
    }
}

/// Query parameters of a `/ws` request.
#[derive(Debug, Clone)]
pub struct WsAuthQuery {
    /// Bearer-style access token (not enforced while auth is disabled).
    pub access_token: Option<String>,
}

impl Default for WsAuthQuery {
    fn default() -> (r: WsAuthQuery)
        ensures
            r.access_token is None,
    {
        WsAuthQuery { access_token: None }
    }
}

/// Auth failures (unused while `Disabled` is the only mode).
#[derive(Debug)]
pub enum AuthError {
    MissingToken,
    InvalidToken,
}

impl AuthError {
    /// The text this error displays as.
    pub fn to_text(&self) -> (r: String)
        ensures
            *self is MissingToken ==> r@ == "missing access token"@,
            *self is InvalidToken ==> r@ == "invalid access token"@,
    {
        match self {
            AuthError::MissingToken => string_of("missing access token"),
            AuthError::InvalidToken => string_of("invalid access token"),
        }
    }
}

/// The token of an `Authorization: Bearer <token>` header value, trimmed, if
/// it is not empty.
pub open spec fn bearer_token(header: Seq<char>) -> Option<Seq<char>> {
    if has_prefix(header, "Bearer "@) && trimmed(header.skip(7)).len() > 0 {
        Some(trimmed(header.skip(7)))
    } else {
        None
    }
}

impl AuthMode {
    /// The access token of a WS request: the query parameter if present,
    /// otherwise the bearer token of the `Authorization` header.
    pub fn extract_access_token<'a>(&self, query: &'a WsAuthQuery, authorization_header: Option<&'a str>) -> (r: Option<&'a str>)
        ensures
            query.access_token matches Some(t) ==> (r matches Some(x) && x@ == t@),
            query.access_token is None ==> match authorization_header {
                Some(h) => match bearer_token(h@) {
                    Some(t) => r matches Some(x) && x@ == t,
                    None => r is None,
                },
                None => r is None,
            },
    {
        match &query.access_token {
            Some(token) => return Some(token.as_str()),
            None => {},
        }
        match authorization_header {
            None => None,
            Some(value) => match strip_prefix(value, "Bearer ") {
                None => None,
                Some(rest) => {
                    proof {
                        reveal_strlit("Bearer ");
                    }
                    let t = trim(rest);
                    if t.unicode_len() == 0 {
                        None
                    } else {
                        Some(t)
                    }
                },
            },
        }
    }

    /// Authorize a WebSocket upgrade; returns the user id once auth is
    /// enforced. `Disabled` always allows, with no user id.
    pub fn authorize_ws(&self, token: Option<&str>) -> (r: Result<Option<String>, AuthError>)
        ensures
            *self == AuthMode::Disabled ==> r matches Ok(None),
    {
        match self {
            AuthMode::Disabled => Ok(None),
        }
    }
}

} // verus!
