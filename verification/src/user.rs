//! A small user service on top of the router: its messages, its context
//! values and its two endpoints.

use crate::error::Error;
use crate::error::ErrorView;
use crate::response::BAD_REQUEST;
use crate::response::UNAUTHORIZED;
use vstd::prelude::*;
use vstd::string::StringExecFns;

verus! {

/// The one token the service hands out and accepts.
pub open spec fn service_token() -> Seq<char> {
    "12345"@
}

/// The error for missing or wrong credentials: status 401, `Unauthorized`.
pub open spec fn unauthorized() -> ErrorView {
    ErrorView { code: UNAUTHORIZED, msg: "Unauthorized"@ }
}

/// The error for a request without an `authorization` header: status 400.
pub open spec fn authorization_required() -> ErrorView {
    ErrorView { code: BAD_REQUEST, msg: "authorization required"@ }
}

/// Body of a token request.
#[derive(Debug, PartialEq, Eq)]
pub struct TokenRequest {
    pub username: String,
    pub password: String,
}

/// Answer to a token request.
#[derive(Debug, PartialEq, Eq)]
pub struct TokenResponse {
    pub user_token: String,
}

/// Body of a logout request: nothing.
#[derive(Clone, Copy, Debug, Default, PartialEq, Eq)]
pub struct LogoutRequest;

/// Answer to a logout request: nothing.
#[derive(Clone, Copy, Debug, Default, PartialEq, Eq)]
pub struct LogoutResponse;

/// Body of a request for a user by id.
#[derive(Debug, PartialEq, Eq)]
pub struct UserByIdReq {
    pub id: u64,
}

/// A user record.
#[derive(Debug, PartialEq, Eq)]
pub struct User {
    pub user_id: u64,
    pub first_name: String,
    pub last_name: String,
}

/// Answer to a request for a user by id.
#[derive(Debug, PartialEq, Eq)]
pub struct UserByIdRes {
    pub user: User,
}

/// The client of the user service.
#[derive(Clone, Copy, Debug, Default, PartialEq, Eq)]
pub struct UserClient;

/// The clients a service talks through.
#[derive(Clone, Copy, Debug, Default, PartialEq, Eq)]
pub struct Clients {
    pub user: UserClient,
}

/// Context of the token endpoint: nothing is needed.
#[derive(Clone, Copy, Debug, Default, PartialEq, Eq)]
pub struct TokenContext;

/// Context of the logout endpoint: the caller's token.
#[derive(Debug, PartialEq, Eq)]
pub struct AuthContext {
    pub user_token: String,
}

/// The caller's credentials as taken from the `authorization` header.
#[derive(Debug, PartialEq, Eq)]
pub struct Auth {
    pub user_id: u64,
    pub token: String,
}

impl Default for TokenRequest {
    fn default() -> (request: TokenRequest)
        ensures
            request.username@ == Seq::<char>::empty(),
            request.password@ == Seq::<char>::empty(),
    {
        TokenRequest { username: String::new(), password: String::new() }
    }
}

impl UserClient {
    /// The URL of the user-by-id endpoint of the service at `base`.
    pub fn user_by_id_url(base: &str) -> (url: String)
        ensures
            url@ == base@ + "/v1/user/id"@,
    {
        String::from_str(base).concat("/v1/user/id")
    }
}

impl TokenContext {
    /// Extraction never fails: the token endpoint is open to everyone.
    pub fn from_parts() -> (out: Result<TokenContext, Error>)
        ensures
            out is Ok,
    {
        Ok(TokenContext)
    }
}

impl AuthContext {
    /// Extract the context from the value of the `authorization` header:
    /// the header's value is the caller's token; without the header the
    /// request is unauthorized.
    pub fn from_parts(authorization: Option<&str>) -> (out: Result<AuthContext, Error>)
        ensures
            match authorization {
                Some(value) => (out matches Ok(context) && context.user_token@ == value@),
                None => (out matches Err(error) && error@ == unauthorized()),
            },
    {
        match authorization {
            Some(value) => Ok(AuthContext { user_token: value.to_owned() }),
            None => Err(Error { code: UNAUTHORIZED, msg: "Unauthorized".to_owned() }),
        }
    }
}

impl Auth {
    /// Extract the credentials from the value of the `authorization`
    /// header; a request without the header is a bad request.
    pub fn call(authorization: Option<&str>) -> (out: Result<Auth, Error>)
        ensures
            match authorization {
                Some(value) => (out matches Ok(auth) && auth.user_id == 1 && auth.token@
                    == value@),
                None => (out matches Err(error) && error@ == authorization_required()),
            },
    {
        match authorization {
            Some(value) => Ok(Auth { user_id: 1, token: value.to_owned() }),
            None => Err(Error { code: BAD_REQUEST, msg: "authorization required".to_owned() }),
        }
    }
}

/// The token endpoint: hands out the service token.
pub fn token(request: &TokenRequest) -> (response: TokenResponse)
    ensures
        response.user_token@ == service_token(),
{
    TokenResponse { user_token: "12345".to_owned() }
}

/// The logout endpoint: succeeds for a caller holding the service token and
/// is unauthorized for everyone else.
pub fn logout(context: &AuthContext, request: &LogoutRequest) -> (out: Result<LogoutResponse, Error>)
    ensures
        context.user_token@ == service_token() ==> out is Ok,
        context.user_token@ != service_token() ==> (out matches Err(error) && error@
            == unauthorized()),
{
    let valid = "12345".to_owned();
    if context.user_token == valid {
        Ok(LogoutResponse)
    } else {
        Err(Error { code: UNAUTHORIZED, msg: "Unauthorized".to_owned() })
    }
}

} // verus!
