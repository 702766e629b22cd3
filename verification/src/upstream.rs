use vstd::prelude::*;

use crate::error::Error;
use crate::secret::{clone_opt_secret, opt_secret_view, SecretString};
use crate::strings::opt_str_view;
use crate::token::Token;

verus! {

/// The fields of one upstream token response, after JSON decoding: each is
/// present or absent, and a present `error` field marks a rejection.
pub struct TokenResponse {
    pub access_token: Option<String>,
    pub refresh_token: Option<String>,
    pub api_domain: Option<String>,
    pub token_type: Option<String>,
    pub expires_in: Option<u64>,
    pub scope: Option<String>,
    pub error: Option<String>,
}

/// The view of a token response: every field by value.
pub ghost struct TokenFields {
    pub access_token: Option<Seq<char>>,
    pub refresh_token: Option<Seq<char>>,
    pub api_domain: Option<Seq<char>>,
    pub token_type: Option<Seq<char>>,
    pub expires_in: Option<u64>,
    pub scope: Option<Seq<char>>,
    pub error: Option<Seq<char>>,
}

impl View for TokenResponse {
    type V = TokenFields;

    open spec fn view(&self) -> TokenFields {
        TokenFields {
            access_token: opt_str_view(self.access_token),
            refresh_token: opt_str_view(self.refresh_token),
            api_domain: opt_str_view(self.api_domain),
            token_type: opt_str_view(self.token_type),
            expires_in: self.expires_in,
            scope: opt_str_view(self.scope),
            error: opt_str_view(self.error),
        }
    }
}

/// What one body of upstream response text decodes to.
pub uninterp spec fn token_fields_of(body: Seq<char>) -> TokenFields;

/// Relies on serde_json: `from_str` parses the body into a JSON value, and
/// `Value::get`, `as_str`, `as_u64` and `to_string` read the named fields
/// out of it. The outcome is a function of the body text alone. Text that
/// is not a JSON object yields no fields at all.
#[verifier::external_body]
fn parse_token_fields(body: &str) -> (r: TokenResponse)
    ensures
        r@ == token_fields_of(body@),
{
    let v = serde_json::from_str::<serde_json::Value>(body).unwrap_or(serde_json::Value::Null);
    let text = |k: &str| v.get(k).and_then(|f| f.as_str()).map(|s| s.to_owned());
    TokenResponse {
        access_token: text("access_token"),
        refresh_token: text("refresh_token"),
        api_domain: text("api_domain"),
        token_type: text("token_type"),
        expires_in: v.get("expires_in").and_then(|f| f.as_u64()),
        scope: text("scope"),
        error: v.get("error").map(|f| f.to_string()),
    }
}

/// A response that carries an error field is a rejection, whatever else
/// it holds.
pub open spec fn spec_is_rejection(f: TokenFields) -> bool {
    f.error is Some
}

/// Every field a token needs is present. The refresh token is not among
/// them: grants may never issue one.
pub open spec fn spec_is_complete(f: TokenFields) -> bool {
    f.access_token is Some && f.api_domain is Some && f.expires_in is Some && f.scope is Some
        && f.token_type is Some
}

/// The token `t` is exactly what the response fields `f` declare, stamped
/// at `now`; all but the refresh token, which issuance and refresh fill
/// differently.
pub open spec fn token_matches_fields(t: Token, f: TokenFields, now: u64) -> bool {
    f.scope == Some(t.scope@) && f.access_token == Some(t.access_token.spec_expose())
        && f.api_domain == Some(t.api_domain@) && f.token_type == Some(t.token_type@)
        && f.expires_in == Some(t.expires_in) && t.time_stamp == now
}

/// What construction from an upstream response must return: a rejection
/// surfaces the error text, a response missing a required field is
/// malformed, and a complete one yields exactly the declared token.
pub open spec fn spec_issued_token(f: TokenFields, now: u64, r: Result<Token, Error>) -> bool {
    match r {
        Ok(t) => !spec_is_rejection(f) && spec_is_complete(f) && token_matches_fields(t, f, now)
            && opt_secret_view(t.refresh_token) == f.refresh_token,
        Err(Error::UpstreamRejected(m)) => spec_is_rejection(f) && f.error == Some(m@),
        Err(Error::MalformedUpstreamResponse) => !spec_is_rejection(f) && !spec_is_complete(f),
        Err(_) => false,
    }
}

/// The refresh token a refreshed credential keeps: the response's if it
/// rotated one, else the prior token's, carried forward.
pub open spec fn spec_carry_forward(
    prev_rt: Option<Seq<char>>,
    resp_rt: Option<Seq<char>>,
) -> Option<Seq<char>> {
    if resp_rt is Some {
        resp_rt
    } else {
        prev_rt
    }
}

/// What a refresh exchange must return, given the prior token: as for
/// issuance, except that the refresh token is carried forward when the
/// response omits one.
pub open spec fn spec_refreshed_token(
    prev: Token,
    f: TokenFields,
    now: u64,
    r: Result<Token, Error>,
) -> bool {
    match r {
        Ok(t) => !spec_is_rejection(f) && spec_is_complete(f) && token_matches_fields(t, f, now)
            && opt_secret_view(t.refresh_token) == spec_carry_forward(
            opt_secret_view(prev.refresh_token),
            f.refresh_token,
        ),
        Err(Error::UpstreamRejected(m)) => spec_is_rejection(f) && f.error == Some(m@),
        Err(Error::MalformedUpstreamResponse) => !spec_is_rejection(f) && !spec_is_complete(f),
        Err(_) => false,
    }
}

/// Builds a token from decoded response fields, stamped at `now`.
pub fn token_from_response(resp: &TokenResponse, now: u64) -> (r: Result<Token, Error>)
    ensures
        spec_issued_token(resp@, now, r),
{
    if let Some(e) = &resp.error {
        return Err(Error::UpstreamRejected(e.clone()));
    }
    match (&resp.access_token, &resp.api_domain, &resp.expires_in, &resp.scope, &resp.token_type) {
        (Some(at), Some(ad), Some(ei), Some(sc), Some(tt)) => Ok(
            Token {
                scope: sc.clone(),
                access_token: SecretString::new(at.clone()),
                refresh_token: (match &resp.refresh_token {
                    Some(rt) => Some(SecretString::new(rt.clone())),
                    None => None,
                }),
                api_domain: ad.clone(),
                token_type: tt.clone(),
                expires_in: *ei,
                time_stamp: now,
            },
        ),
        _ => Err(Error::MalformedUpstreamResponse),
    }
}

/// Builds the refreshed token for `prev` from decoded response fields,
/// carrying the prior refresh token forward when the response omits one.
pub fn refreshed_token(prev: &Token, resp: &TokenResponse, now: u64) -> (r: Result<Token, Error>)
    ensures
        spec_refreshed_token(*prev, resp@, now, r),
{
    if let Some(e) = &resp.error {
        return Err(Error::UpstreamRejected(e.clone()));
    }
    match (&resp.access_token, &resp.api_domain, &resp.expires_in, &resp.scope, &resp.token_type) {
        (Some(at), Some(ad), Some(ei), Some(sc), Some(tt)) => Ok(
            Token {
                scope: sc.clone(),
                access_token: SecretString::new(at.clone()),
                refresh_token: (match &resp.refresh_token {
                    Some(rt) => Some(SecretString::new(rt.clone())),
                    None => clone_opt_secret(&prev.refresh_token),
                }),
                api_domain: ad.clone(),
                token_type: tt.clone(),
                expires_in: *ei,
                time_stamp: now,
            },
        ),
        _ => Err(Error::MalformedUpstreamResponse),
    }
}

/// Handles the body of an authorization-code exchange: decodes it and
/// builds the issued token, stamped at `now`.
pub fn handle_token_response(body: &str, now: u64) -> (r: Result<Token, Error>)
    ensures
        spec_issued_token(token_fields_of(body@), now, r),
{
    let resp = parse_token_fields(body);
    token_from_response(&resp, now)
}

/// Handles the body of a refresh exchange for the stored token `prev`:
/// decodes it and builds the refreshed token, stamped at `now`.
pub fn handle_refresh_response(prev: &Token, body: &str, now: u64) -> (r: Result<Token, Error>)
    ensures
        spec_refreshed_token(*prev, token_fields_of(body@), now, r),
{
    let resp = parse_token_fields(body);
    refreshed_token(prev, &resp, now)
}

/// Law: a refresh response that omits the refresh token leaves the prior
/// one in place.
pub proof fn lemma_refresh_carry_forward(prior: Seq<char>)
    ensures
        spec_carry_forward(Some(prior), None) == Some(prior),
{
}

/// Law: once a scope holds a refresh token, no refresh exchange makes it
/// absent, whether or not the response rotates it.
pub proof fn lemma_refresh_token_retained(prev_rt: Option<Seq<char>>, resp_rt: Option<Seq<char>>)
    requires
        prev_rt is Some,
    ensures
        spec_carry_forward(prev_rt, resp_rt) is Some,
{
}

/// The identity and secret with which this deployment authenticates to the
/// authorization server: a plain value holder handed in once at startup.
pub struct AuthClient {
    pub client_id: String,
    pub client_secret: SecretString,
}

impl Clone for AuthClient {
    /// A clone holds the same identity and secret.
    fn clone(&self) -> (r: Self)
        ensures
            r == *self,
    {
        AuthClient {
            client_id: self.client_id.clone(),
            client_secret: self.client_secret.clone(),
        }
    }
}

impl AuthClient {
    pub fn new(client_id: String, client_secret: SecretString) -> (r: AuthClient)
        ensures
            r.client_id == client_id,
            r.client_secret == client_secret,
    {
        AuthClient { client_id, client_secret }
    }

    /// The form fields of the authorization-code exchange, in order.
    pub fn code_exchange_params(&self, code: &str) -> (r: Vec<(String, String)>)
        ensures
            r@.len() == 4,
            r@[0].0@ == "grant_type"@ && r@[0].1@ == "authorization_code"@,
            r@[1].0@ == "code"@ && r@[1].1@ == code@,
            r@[2].0@ == "client_id"@ && r@[2].1@ == self.client_id@,
            r@[3].0@ == "client_secret"@ && r@[3].1@ == self.client_secret.spec_expose(),
    {
        let mut out: Vec<(String, String)> = Vec::new();
        out.push(("grant_type".to_owned(), "authorization_code".to_owned()));
        out.push(("code".to_owned(), code.to_owned()));
        out.push(("client_id".to_owned(), self.client_id.clone()));
        out.push(("client_secret".to_owned(), self.client_secret.expose_secret().to_owned()));
        out
    }

    /// The form fields of the refresh exchange, in order; a stored token
    /// with no refresh token is an unrecoverable configuration error for
    /// its scope.
    pub fn refresh_exchange_params(&self, prev: &Token) -> (r: Result<
        Vec<(String, String)>,
        Error,
    >)
        ensures
            (match r {
                Ok(ps) => {
                    &&& opt_secret_view(prev.refresh_token) is Some
                    &&& ps@.len() == 4
                    &&& ps@[0].0@ == "grant_type"@ && ps@[0].1@ == "refresh_token"@
                    &&& ps@[1].0@ == "refresh_token"@ && Some(ps@[1].1@) == opt_secret_view(
                        prev.refresh_token,
                    )
                    &&& ps@[2].0@ == "client_id"@ && ps@[2].1@ == self.client_id@
                    &&& ps@[3].0@ == "client_secret"@ && ps@[3].1@
                        == self.client_secret.spec_expose()
                },
                Err(Error::MissingRefreshToken) => opt_secret_view(prev.refresh_token) is None,
                Err(_) => false,
            }),
    {
        match &prev.refresh_token {
            Some(rt) => {
                let mut out: Vec<(String, String)> = Vec::new();
                out.push(("grant_type".to_owned(), "refresh_token".to_owned()));
                out.push(("refresh_token".to_owned(), rt.expose_secret().to_owned()));
                out.push(("client_id".to_owned(), self.client_id.clone()));
                out.push(
                    ("client_secret".to_owned(), self.client_secret.expose_secret().to_owned()),
                );
                Ok(out)
            },
            None => Err(Error::MissingRefreshToken),
        }
    }
}

} // verus!
