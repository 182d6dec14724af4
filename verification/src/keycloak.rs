//! The Keycloak identity provider: its configuration, the endpoints of a
//! realm, and what a token introspection answer means.

use vstd::prelude::*;
use crate::text;
use crate::config::opt_view;
use crate::auth::AccessToken;
use crate::text::views;

verus! {

/// Where the Keycloak realm is and how the server is registered in it.
#[derive(Debug, Clone)]
pub struct KeycloakConfig {
    pub server_url: String,
    pub realm: String,
    pub client_id: String,
    pub client_secret: Option<String>,
    pub redirect_uri: String,
    pub scopes: Vec<String>,
}

impl Default for KeycloakConfig {
    /// A local Keycloak at port 8080, realm `master`.
    fn default() -> (r: Self)
        ensures
            r.server_url@ == "http://localhost:8080"@,
            r.realm@ == "master"@,
            r.client_id@ == "webdriver-mcp"@,
            opt_view(r.client_secret) == Some("your-client-secret"@),
            r.redirect_uri@ == "http://localhost:3000/oauth/callback"@,
            views(r.scopes@) == seq!["openid"@, "profile"@, "email"@],
    {
        let mut scopes: Vec<String> = Vec::new();
        scopes.push(text::owned("openid"));
        scopes.push(text::owned("profile"));
        scopes.push(text::owned("email"));
        assert(views(scopes@) =~= seq!["openid"@, "profile"@, "email"@]);
        KeycloakConfig {
            server_url: text::owned("http://localhost:8080"),
            realm: text::owned("master"),
            client_id: text::owned("webdriver-mcp"),
            client_secret: Some(text::owned("your-client-secret")),
            redirect_uri: text::owned("http://localhost:3000/oauth/callback"),
            scopes,
        }
    }
}

/// The issuer of a realm: `<server>/realms/<realm>`.
pub open spec fn issuer_of(c: KeycloakConfig) -> Seq<char> {
    c.server_url@ + "/realms/"@ + c.realm@
}

impl KeycloakConfig {
    /// The realm's issuer URL.
    pub fn issuer_url(&self) -> (r: String)
        ensures
            r@ == issuer_of(*self),
    {
        text::concat3(self.server_url.as_str(), "/realms/", self.realm.as_str())
    }

    /// The realm's authorization endpoint.
    pub fn auth_url(&self) -> (r: String)
        ensures
            r@ == issuer_of(*self) + "/protocol/openid-connect/auth"@,
    {
        let i = self.issuer_url();
        text::concat2(i.as_str(), "/protocol/openid-connect/auth")
    }

    /// The realm's token endpoint.
    pub fn token_url(&self) -> (r: String)
        ensures
            r@ == issuer_of(*self) + "/protocol/openid-connect/token"@,
    {
        let i = self.issuer_url();
        text::concat2(i.as_str(), "/protocol/openid-connect/token")
    }

    /// The realm's user information endpoint.
    pub fn userinfo_url(&self) -> (r: String)
        ensures
            r@ == issuer_of(*self) + "/protocol/openid-connect/userinfo"@,
    {
        let i = self.issuer_url();
        text::concat2(i.as_str(), "/protocol/openid-connect/userinfo")
    }

    /// The realm's token introspection endpoint.
    pub fn introspect_url(&self) -> (r: String)
        ensures
            r@ == issuer_of(*self) + "/protocol/openid-connect/token/introspect"@,
    {
        let i = self.issuer_url();
        text::concat2(i.as_str(), "/protocol/openid-connect/token/introspect")
    }

    /// The form sent to introspect a token: the token, and the client's
    /// credentials where the client has a secret.
    pub fn introspect_params(&self, token: &str) -> (r: Vec<(String, String)>)
        ensures
            r@.len() == (if self.client_secret is Some { 3nat } else { 1nat }),
            r@[0].0@ == "token"@ && r@[0].1@ == token@,
            self.client_secret matches Some(s) ==> (r@[1].0@ == "client_id"@ && r@[1].1@ == self.client_id@
                && r@[2].0@ == "client_secret"@ && r@[2].1@ == s@),
    {
        let mut r: Vec<(String, String)> = Vec::new();
        r.push((text::owned("token"), text::owned(token)));
        match &self.client_secret {
            Some(s) => {
                r.push((text::owned("client_id"), self.client_id.clone()));
                r.push((text::owned("client_secret"), s.clone()));
            },
            None => {},
        }
        r
    }
}

/// What the identity provider says of a token.
#[derive(Debug, Clone)]
pub struct TokenIntrospectionResponse {
    pub active: bool,
    pub scope: Option<String>,
    pub client_id: Option<String>,
    pub username: Option<String>,
    pub exp: Option<u64>,
    pub iat: Option<u64>,
    pub sub: Option<String>,
    pub aud: Option<serde_json::Value>,
    pub iss: Option<String>,
    pub token_type: Option<String>,
}

/// Reads the clock: `chrono::Utc::now().timestamp()`, the seconds since the
/// Unix epoch.  Nothing is promised of the value.
#[verifier::external_body]
fn now_timestamp() -> i64 {
    chrono::Utc::now().timestamp()
}

/// Whether a token that expires at `exp` has expired at `now`, both in
/// seconds since the epoch; a token without expiry never does.
pub open spec fn expired_at(exp: Option<u64>, now: u64) -> bool {
    match exp {
        Some(e) => e < now,
        None => false,
    }
}

impl TokenIntrospectionResponse {
    /// Whether the provider holds the token active.
    pub fn is_active(&self) -> (r: bool)
        ensures
            r == self.active,
    {
        self.active
    }

    /// Whether the token had expired at a given time.
    pub fn is_expired_at(&self, now: u64) -> (r: bool)
        ensures
            r == expired_at(self.exp, now),
    {
        match self.exp {
            Some(e) => e < now,
            None => false,
        }
    }

    /// Whether the token has expired now: the clock's seconds, taken as
    /// unsigned, are past its expiry.
    pub fn is_expired(&self) -> (r: bool)
        ensures
            self.exp is None ==> !r,
    {
        let now = now_timestamp();
        self.is_expired_at(now as u64)
    }
}

/// The token a positive introspection stands for: active and not expired
/// at `now`, it is a bearer token of the introspected subject (`unknown`
/// where none is named), with the introspected expiry and scope.
pub fn token_from_introspection(token: &str, resp: &TokenIntrospectionResponse, now: u64) -> (r: Option<AccessToken>)
    ensures
        (resp.active && !expired_at(resp.exp, now)) ==> (r matches Some(t)
            && t.token@ == token@
            && t.token_type@ == "Bearer"@
            && t.expires_in == resp.exp
            && t.refresh_token is None
            && opt_view(t.scope) == opt_view(resp.scope)
            && t.user_id@ == match resp.sub {
                Some(s) => s@,
                None => "unknown"@,
            }),
        !(resp.active && !expired_at(resp.exp, now)) ==> r is None,
{
    if resp.is_active() && !resp.is_expired_at(now) {
        let scope = match &resp.scope {
            Some(s) => Some(s.clone()),
            None => None,
        };
        let user_id = match &resp.sub {
            Some(s) => s.clone(),
            None => text::owned("unknown"),
        };
        Some(AccessToken {
            token: text::owned(token),
            token_type: text::owned("Bearer"),
            expires_in: resp.exp,
            refresh_token: None,
            scope,
            user_id,
        })
    } else {
        None
    }
}

/// The subject a user information answer names, else `unknown`.
pub fn user_id_or_unknown(sub: Option<String>) -> (r: String)
    ensures
        r@ == match opt_view(sub) {
            Some(s) => s,
            None => "unknown"@,
        },
{
    match sub {
        Some(s) => s,
        None => text::owned("unknown"),
    }
}

} // verus!
