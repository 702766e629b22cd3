use vstd::prelude::*;

use crate::secret::SecretString;

verus! {

/// One scoped credential: the bearer token for a permission grant, the
/// optional refresh token that renews it, and the expiry arithmetic.
pub struct Token {
    /// The permission grant this credential belongs to; the unique key
    /// under which it is stored.
    pub scope: String,
    /// The bearer credential.
    pub access_token: SecretString,
    /// Renews the access token without repeating user consent. Absent only
    /// for grants that never issue one; once held for a scope it must
    /// survive every refresh, whether or not the upstream rotates it.
    pub refresh_token: Option<SecretString>,
    /// Base host to call for this grant, as the upstream returned it.
    pub api_domain: String,
    /// The token scheme name the upstream declared.
    pub token_type: String,
    /// Upstream-declared lifetime in seconds, relative to `time_stamp`.
    pub expires_in: u64,
    /// Unix seconds (UTC) at which the token, or its latest refresh,
    /// was obtained.
    pub time_stamp: u64,
}

impl Token {
    /// The instant from which the token counts as expired.
    pub open spec fn expires_at(&self) -> int {
        self.time_stamp + self.expires_in
    }

    /// A token is expired exactly when `now` has reached the end of its
    /// declared lifetime; the boundary instant itself counts as expired.
    /// No clock-skew safety margin is applied before the boundary.
    pub open spec fn spec_is_expired(&self, now: int) -> bool {
        now >= self.expires_at()
    }

    /// Whether a call made at `now` can no longer use this token.
    pub fn is_expired(&self, now: u64) -> (r: bool)
        ensures
            r == self.spec_is_expired(now as int),
    {
        (now as u128) >= (self.time_stamp as u128) + (self.expires_in as u128)
    }
}

/// Law: expiry is boundary-inclusive. One second before the end of the
/// declared lifetime the token is still fresh; at the boundary instant it
/// is expired.
pub proof fn lemma_expiry_boundary(t: &Token)
    ensures
        !t.spec_is_expired(t.expires_at() - 1),
        t.spec_is_expired(t.expires_at()),
{
}

impl Clone for Token {
    /// A clone is the same credential, field for field.
    fn clone(&self) -> (r: Self)
        ensures
            r == *self,
    {
        Token {
            scope: self.scope.clone(),
            access_token: self.access_token.clone(),
            refresh_token: crate::secret::clone_opt_secret(&self.refresh_token),
            api_domain: self.api_domain.clone(),
            token_type: self.token_type.clone(),
            expires_in: self.expires_in,
            time_stamp: self.time_stamp,
        }
    }
}

impl PartialEq for Token {
    /// Tokens compare by exposed value, secret fields included.
    fn eq(&self, other: &Self) -> (r: bool) {
        self.scope == other.scope && self.access_token == other.access_token && (match (
            &self.refresh_token,
            &other.refresh_token,
        ) {
            (Some(a), Some(b)) => a == b,
            (None, None) => true,
            _ => false,
        }) && self.api_domain == other.api_domain && self.token_type == other.token_type
            && self.expires_in == other.expires_in && self.time_stamp == other.time_stamp
    }
}

impl vstd::std_specs::cmp::PartialEqSpecImpl for Token {
    open spec fn obeys_eq_spec() -> bool {
        true
    }

    open spec fn eq_spec(&self, other: &Token) -> bool {
        self.scope@ == other.scope@ && self.access_token.spec_expose()
            == other.access_token.spec_expose() && crate::secret::opt_secret_view(
            self.refresh_token,
        ) == crate::secret::opt_secret_view(other.refresh_token) && self.api_domain@
            == other.api_domain@ && self.token_type@ == other.token_type@ && self.expires_in
            == other.expires_in && self.time_stamp == other.time_stamp
    }
}

} // verus!
