//! OAuth protection of the HTTP server: where a request's token comes
//! from, how the authorization callbacks answer, the discovery metadata,
//! and the stores of pending authorizations and issued tokens.
//!
//! The HTTP plumbing stays with the caller; the decisions are made here
//! and answered as a status code and a body.

use vstd::prelude::*;
use crate::text::views;
use crate::text;
use crate::config::opt_view;

verus! {

/// An access token and what is known of it.
#[derive(Debug, Clone)]
pub struct AccessToken {
    pub token: String,
    pub token_type: String,
    pub expires_in: Option<u64>,
    pub refresh_token: Option<String>,
    pub scope: Option<String>,
    pub user_id: String,
}

/// An answer that ends a request: its status code and its body.
#[derive(Debug, Clone)]
pub struct HttpReply {
    pub status: u16,
    pub body: String,
}

/// Whether a reply has the given status and body.
pub open spec fn reply_is(r: HttpReply, status: u16, body: Seq<char>) -> bool {
    r.status == status && r.body@ == body
}

/// Builds a reply.
fn reply(status: u16, body: &str) -> (r: HttpReply)
    ensures
        reply_is(r, status, body@),
{
    HttpReply { status, body: text::owned(body) }
}

/// The token of an `Authorization` header that holds `Bearer <token>`.
pub open spec fn bearer_token(h: Seq<char>) -> Option<Seq<char>> {
    if "Bearer "@.is_prefix_of(h) {
        Some(h.subrange(7, h.len() as int))
    } else {
        None
    }
}

/// The value of the first `auth_token=<value>` among cookie pieces, each
/// taken without surrounding white space.
pub open spec fn cookie_token(parts: Seq<Seq<char>>) -> Option<Seq<char>>
    decreases parts.len(),
{
    if parts.len() == 0 {
        None
    } else {
        let c = text::trimmed(parts[0]);
        if "auth_token="@.is_prefix_of(c) {
            Some(c.subrange(11, c.len() as int))
        } else {
            cookie_token(parts.drop_first())
        }
    }
}

/// The token a request carries: from a `Bearer` authorization header,
/// else from the `auth_token` cookie.
pub open spec fn request_token(authorization: Option<Seq<char>>, cookie: Option<Seq<char>>) -> Option<Seq<char>> {
    let from_header = match authorization {
        Some(h) => bearer_token(h),
        None => None,
    };
    match from_header {
        Some(t) => Some(t),
        None => match cookie {
            Some(c) => cookie_token(text::split_on(c, ';')),
            None => None,
        },
    }
}


/// Finds the token a request carries, given its `Authorization` and
/// `Cookie` headers.
#[verifier::loop_isolation(false)]
pub fn extract_token(authorization: &Option<String>, cookie: &Option<String>) -> (r: Option<String>)
    ensures
        opt_view(r) == request_token(opt_view(*authorization), opt_view(*cookie)),
{
    match authorization {
        Some(h) => {
            if text::starts_with(h.as_str(), "Bearer ") {
                proof { reveal_strlit("Bearer "); }
                return Some(text::drop_first_chars(h.as_str(), 7));
            }
        },
        None => {},
    }
    match cookie {
        Some(c) => {
            let pieces = text::split_char(c.as_str(), ';');
            let ghost ps = views(pieces@);
            proof { assert(ps.subrange(0, ps.len() as int) == ps); }
            let mut i: usize = 0;
            while i < pieces.len()
                invariant
                    i <= pieces@.len(),
                    ps == views(pieces@),
                    ps == text::split_on(c@, ';'),
                    cookie_token(ps) == cookie_token(ps.subrange(i as int, ps.len() as int)),
                decreases pieces@.len() - i,
            {
                let piece = text::trim(pieces[i].as_str());
                let ghost rest = ps.subrange(i as int, ps.len() as int);
                assert(rest[0] == pieces@[i as int]@);
                assert(rest.len() > 0);
                assert(text::trimmed(rest[0]) == piece@);
                if text::starts_with(piece.as_str(), "auth_token=") {
                    proof { reveal_strlit("auth_token="); }
                    assert(cookie_token(rest) == Some(piece@.subrange(11, piece@.len() as int)));
                    return Some(text::drop_first_chars(piece.as_str(), 11));
                }
                assert(rest.drop_first() == ps.subrange(i + 1, ps.len() as int));
                i = i + 1;
            }
            None
        },
        None => None,
    }
}

/// Finds the token of a request, or answers 401 when it carries none.
pub fn require_token(authorization: &Option<String>, cookie: &Option<String>) -> (r: Result<String, HttpReply>)
    ensures
        match request_token(opt_view(*authorization), opt_view(*cookie)) {
            Some(t) => r matches Ok(x) && x@ == t,
            None => r matches Err(e) && reply_is(e, 401, "Missing authentication token"@),
        },
{
    match extract_token(authorization, cookie) {
        Some(t) => Ok(t),
        None => Err(reply(401, "Missing authentication token")),
    }
}

/// Takes the outcome of validating a token: a token that does not
/// validate is answered 401.
pub fn require_valid(info: Option<AccessToken>) -> (r: Result<AccessToken, HttpReply>)
    ensures
        match info {
            Some(t) => r == Ok::<AccessToken, HttpReply>(t),
            None => r matches Err(e) && reply_is(e, 401, "Invalid token"@),
        },
{
    match info {
        Some(t) => Ok(t),
        None => Err(reply(401, "Invalid token")),
    }
}

/// What to do about the MCP session of an authenticated user.
#[derive(Debug)]
pub enum SessionPlan {
    /// Keep using this session.
    Reuse(String),
    /// Create a session, first forgetting the user's dead one if
    /// `forget_existing`.
    Create { forget_existing: bool },
}

/// Decides about a user's MCP session: the one recorded for the user is
/// kept while it is alive; otherwise a new one is created.
pub fn plan_user_session(existing: Option<String>, alive: bool) -> (r: SessionPlan)
    ensures
        match existing {
            Some(s) => if alive {
                r matches SessionPlan::Reuse(x) && x@ == s@
            } else {
                r matches SessionPlan::Create { forget_existing } && forget_existing
            },
            None => r matches SessionPlan::Create { forget_existing } && !forget_existing,
        },
{
    match existing {
        Some(s) => if alive { SessionPlan::Reuse(s) } else { SessionPlan::Create { forget_existing: true } },
        None => SessionPlan::Create { forget_existing: false },
    }
}

/// The answer when no session can be created.
pub fn session_creation_failed() -> (r: HttpReply)
    ensures
        reply_is(r, 500, "Failed to create session"@),
{
    reply(500, "Failed to create session")
}

/// The session id given to requests of a user that carry none.
pub fn user_session_id(user_id: &str) -> (r: String)
    ensures
        r@ == "oauth-session-"@ + user_id@,
{
    text::concat2("oauth-session-", user_id)
}

/// The query of an authorization callback.
#[derive(Debug, Clone)]
pub struct CallbackQuery {
    pub code: Option<String>,
    pub state: Option<String>,
    pub error: Option<String>,
    pub error_description: Option<String>,
}

/// The form of the consent page's answer.
#[derive(Debug, Clone)]
pub struct CallbackForm {
    pub state: String,
    pub action: String,
}

/// Checks an authorization callback: an error reported by the provider,
/// a missing code and a missing state are each answered 400; otherwise
/// the code and the state.
pub fn check_callback(q: &CallbackQuery) -> (r: Result<(String, String), HttpReply>)
    ensures
        match (q.error, q.code, q.state) {
            (Some(_), _, _) => r matches Err(e) && e.status == 400 && e.body@ == "OAuth error: "@ + match q.error_description {
                Some(d) => d@,
                None => "Unknown error"@,
            },
            (None, None, _) => r matches Err(e) && reply_is(e, 400, "Missing authorization code"@),
            (None, Some(_), None) => r matches Err(e) && reply_is(e, 400, "Missing state parameter"@),
            (None, Some(c), Some(s)) => r matches Ok(p) && p.0@ == c@ && p.1@ == s@,
        },
{
    if q.error.is_some() {
        let d = match &q.error_description {
            Some(d) => d.clone(),
            None => text::owned("Unknown error"),
        };
        return Err(HttpReply { status: 400, body: text::concat2("OAuth error: ", d.as_str()) });
    }
    let code = match &q.code {
        Some(c) => c.clone(),
        None => { return Err(reply(400, "Missing authorization code")); },
    };
    let state = match &q.state {
        Some(s) => s.clone(),
        None => { return Err(reply(400, "Missing state parameter")); },
    };
    Ok((code, state))
}

/// The answer to a callback whose state names no pending authorization.
pub fn expired_session_reply() -> (r: HttpReply)
    ensures
        reply_is(r, 400, "Invalid or expired session"@),
{
    reply(400, "Invalid or expired session")
}

/// The answer when the identity provider does not exchange the code.
pub fn exchange_failed_reply() -> (r: HttpReply)
    ensures
        reply_is(r, 500, "Failed to complete authorization"@),
{
    reply(500, "Failed to complete authorization")
}

/// Checks the consent page's answer: anything but `authorize` is answered
/// 403.
pub fn check_consent(form: &CallbackForm) -> (r: Result<(), HttpReply>)
    ensures
        form.action@ == "authorize"@ ==> r is Ok,
        form.action@ != "authorize"@ ==> (r matches Err(e) && reply_is(e, 403, "Access denied"@)),
{
    if text::str_equal(form.action.as_str(), "authorize") {
        Ok(())
    } else {
        Err(reply(403, "Access denied"))
    }
}

/// The answer to a consent whose state names no pending authorization.
pub fn invalid_session_reply() -> (r: HttpReply)
    ensures
        reply_is(r, 400, "Invalid session"@),
{
    reply(400, "Invalid session")
}

/// The token handed out when no identity provider is configured.
pub fn demo_access_token(token_id: String, refresh_id: String) -> (r: AccessToken)
    ensures
        r.token@ == token_id@,
        r.token_type@ == "Bearer"@,
        r.expires_in == Some(3600u64),
        opt_view(r.refresh_token) == Some(refresh_id@),
        opt_view(r.scope) == Some("webdriver"@),
        r.user_id@ == "demo_user"@,
{
    AccessToken {
        token: token_id,
        token_type: text::owned("Bearer"),
        expires_in: Some(3600),
        refresh_token: Some(refresh_id),
        scope: Some(text::owned("webdriver")),
        user_id: text::owned("demo_user"),
    }
}

/// The words of a list joined with single spaces.
pub open spec fn space_joined(v: Seq<Seq<char>>) -> Seq<char>
    decreases v.len(),
{
    if v.len() == 0 {
        Seq::empty()
    } else if v.len() == 1 {
        v[0]
    } else {
        space_joined(v.drop_last()) + " "@ + v.last()
    }
}

/// Joins words with single spaces.
pub fn join_with_spaces(v: &Vec<String>) -> (r: String)
    ensures
        r@ == space_joined(views(v@)),
{
    let mut r = String::new();
    let mut i: usize = 0;
    while i < v.len()
        invariant
            i <= v@.len(),
            r@ == space_joined(views(v@).take(i as int)),
        decreases v@.len() - i,
    {
        let ghost before = views(v@).take(i as int);
        let ghost after = views(v@).take(i + 1);
        assert(after.drop_last() == before);
        if i > 0 {
            r.append(" ");
        }
        r.append(v[i].as_str());
        i = i + 1;
    }
    assert(views(v@).take(v@.len() as int) == views(v@));
    r
}

/// The token obtained from the identity provider.
pub fn provider_access_token(
    token: String,
    expires_in: Option<u64>,
    refresh_token: Option<String>,
    scopes: Option<Vec<String>>,
    user_id: String,
) -> (r: AccessToken)
    ensures
        r.token@ == token@,
        r.token_type@ == "Bearer"@,
        r.expires_in == expires_in,
        opt_view(r.refresh_token) == opt_view(refresh_token),
        opt_view(r.scope) == (match scopes {
            Some(s) => Some(space_joined(views(s@))),
            None => None,
        }),
        r.user_id@ == user_id@,
{
    let scope = match &scopes {
        Some(s) => Some(join_with_spaces(s)),
        None => None,
    };
    AccessToken { token, token_type: text::owned("Bearer"), expires_in, refresh_token, scope, user_id }
}

/// The cookie that carries a token back to the browser.
pub open spec fn auth_cookie_text(token: Seq<char>, expires_in: Option<u64>) -> Seq<char> {
    let age = match expires_in {
        Some(n) => n,
        None => 3600u64,
    };
    "auth_token="@ + token + "; HttpOnly; SameSite=Strict; Path=/; Max-Age="@ + text::decimal(age as nat)
}

/// Words the cookie of a token.
pub fn auth_cookie(t: &AccessToken) -> (r: String)
    ensures
        r@ == auth_cookie_text(t.token@, t.expires_in),
{
    let age = match t.expires_in {
        Some(n) => n,
        None => 3600,
    };
    let n = text::decimal_string(age);
    let a = text::concat3("auth_token=", t.token.as_str(), "; HttpOnly; SameSite=Strict; Path=/; Max-Age=");
    text::concat2(a.as_str(), n.as_str())
}

/// The page shown after a successful authorization, with or without an
/// identity provider.
pub fn authorized_page(demo: bool) -> (r: &'static str)
    ensures
        demo ==> r@ == "<h1>Authorization Successful (Demo Mode)</h1><p>Authentication complete! You can now access protected resources.</p><script>window.location.href='/';</script>"@,
        !demo ==> r@ == "<h1>Authorization Successful</h1><p>Authentication complete! You can now access protected resources.</p><script>window.location.href='/';</script>"@,
{
    if demo {
        "<h1>Authorization Successful (Demo Mode)</h1><p>Authentication complete! You can now access protected resources.</p><script>window.location.href='/';</script>"
    } else {
        "<h1>Authorization Successful</h1><p>Authentication complete! You can now access protected resources.</p><script>window.location.href='/';</script>"
    }
}

/// The base URL of the server as a request names it: `http://` and the
/// request's host, else `localhost:8080`.
pub fn base_url_from_host(host: &Option<String>) -> (r: String)
    ensures
        r@ == "http://"@ + match opt_view(*host) {
            Some(h) => h,
            None => "localhost:8080"@,
        },
{
    proof {
        reveal_strlit("http://");
        reveal_strlit("localhost:8080");
        reveal_strlit("http://localhost:8080");
    }
    match host {
        Some(h) => text::concat2("http://", h.as_str()),
        None => text::owned("http://localhost:8080"),
    }
}

/// OAuth 2.0 authorization server metadata (RFC 8414).
#[derive(Debug, Clone)]
pub struct AuthorizationServerMetadata {
    pub issuer: String,
    pub authorization_endpoint: String,
    pub token_endpoint: String,
    pub response_types_supported: Vec<String>,
    pub grant_types_supported: Vec<String>,
    pub code_challenge_methods_supported: Vec<String>,
    pub scopes_supported: Vec<String>,
}

/// OAuth 2.0 protected resource metadata (RFC 9728).
#[derive(Debug, Clone)]
pub struct ProtectedResourceMetadata {
    pub resource: String,
    pub authorization_servers: Vec<String>,
    pub scopes_supported: Vec<String>,
    pub bearer_methods_supported: Vec<String>,
}

/// A list of one string.
fn one(s: &str) -> (r: Vec<String>)
    ensures
        views(r@) == seq![s@],
{
    let mut v: Vec<String> = Vec::new();
    v.push(text::owned(s));
    assert(views(v@) =~= seq![s@]);
    v
}

/// The authorization server metadata of a server at `base_url`.
pub fn authorization_server_metadata(base_url: &str) -> (r: AuthorizationServerMetadata)
    ensures
        r.issuer@ == base_url@,
        r.authorization_endpoint@ == base_url@ + "/oauth/authorize"@,
        r.token_endpoint@ == base_url@ + "/oauth/callback"@,
        views(r.response_types_supported@) == seq!["code"@],
        views(r.grant_types_supported@) == seq!["authorization_code"@],
        views(r.code_challenge_methods_supported@) == seq!["S256"@],
        views(r.scopes_supported@) == seq!["webdriver"@, "openid"@],
{
    let mut scopes: Vec<String> = Vec::new();
    scopes.push(text::owned("webdriver"));
    scopes.push(text::owned("openid"));
    assert(views(scopes@) =~= seq!["webdriver"@, "openid"@]);
    AuthorizationServerMetadata {
        issuer: text::owned(base_url),
        authorization_endpoint: text::concat2(base_url, "/oauth/authorize"),
        token_endpoint: text::concat2(base_url, "/oauth/callback"),
        response_types_supported: one("code"),
        grant_types_supported: one("authorization_code"),
        code_challenge_methods_supported: one("S256"),
        scopes_supported: scopes,
    }
}

/// The protected resource metadata of a server at `base_url`.
pub fn protected_resource_metadata(base_url: &str) -> (r: ProtectedResourceMetadata)
    ensures
        r.resource@ == base_url@ + "/mcp"@,
        views(r.authorization_servers@) == seq![base_url@],
        views(r.scopes_supported@) == seq!["webdriver"@],
        views(r.bearer_methods_supported@) == seq!["header"@],
{
    ProtectedResourceMetadata {
        resource: text::concat2(base_url, "/mcp"),
        authorization_servers: one(base_url),
        scopes_supported: one("webdriver"),
        bearer_methods_supported: one("header"),
    }
}

/// Values kept by string key, each key at most once: the pending
/// authorizations by their state, the issued tokens by their text.
pub struct KeyedStore<V> {
    entries: Vec<(String, V)>,
}

impl<V> KeyedStore<V> {
    /// The stored values by key.
    pub closed spec fn view_map(&self) -> Map<Seq<char>, V> {
        Map::new(
            |k: Seq<char>| exists|i: int| 0 <= i < self.entries@.len() && #[trigger] self.entries@[i].0@ == k,
            |k: Seq<char>| self.entries@[choose|i: int| 0 <= i < self.entries@.len() && #[trigger] self.entries@[i].0@ == k].1,
        )
    }

    /// No key is stored twice.
    pub closed spec fn wf(&self) -> bool {
        forall|i: int, j: int| 0 <= i < j < self.entries@.len()
            ==> #[trigger] self.entries@[i].0@ != #[trigger] self.entries@[j].0@
    }

    /// An empty store.
    pub fn new() -> (r: KeyedStore<V>)
        ensures
            r.wf(),
            r.view_map() == Map::<Seq<char>, V>::empty(),
    {
        let r = KeyedStore { entries: Vec::new() };
        assert(r.view_map() =~= Map::<Seq<char>, V>::empty());
        r
    }

    fn position(&self, key: &str) -> (r: Option<usize>)
        requires
            self.wf(),
        ensures
            match r {
                Some(i) => i < self.entries@.len() && self.entries@[i as int].0@ == key@,
                None => forall|i: int| 0 <= i < self.entries@.len() ==> #[trigger] self.entries@[i].0@ != key@,
            },
    {
        let mut i: usize = 0;
        while i < self.entries.len()
            invariant
                i <= self.entries@.len(),
                forall|j: int| 0 <= j < i ==> #[trigger] self.entries@[j].0@ != key@,
            decreases self.entries@.len() - i,
        {
            if text::str_equal(self.entries[i].0.as_str(), key) {
                return Some(i);
            }
            i = i + 1;
        }
        None
    }

    proof fn lemma_at(&self, i: int)
        requires
            self.wf(),
            0 <= i < self.entries@.len(),
        ensures
            self.view_map().dom().contains(self.entries@[i].0@),
            self.view_map()[self.entries@[i].0@] == self.entries@[i].1,
    {
        let k = self.entries@[i].0@;
        assert(self.view_map().dom().contains(k));
        let c = choose|j: int| 0 <= j < self.entries@.len() && #[trigger] self.entries@[j].0@ == k;
        if c != i {
            if c < i {
                assert(self.entries@[c].0@ != self.entries@[i].0@);
            } else {
                assert(self.entries@[i].0@ != self.entries@[c].0@);
            }
        }
    }

    /// The value stored under a key.
    pub fn get(&self, key: &str) -> (r: Option<&V>)
        requires
            self.wf(),
        ensures
            match r {
                Some(v) => self.view_map().dom().contains(key@) && self.view_map()[key@] == *v,
                None => !self.view_map().dom().contains(key@),
            },
    {
        match self.position(key) {
            Some(i) => {
                proof { self.lemma_at(i as int); }
                Some(&self.entries[i].1)
            },
            None => {
                assert(!self.view_map().dom().contains(key@));
                None
            },
        }
    }

    /// Stores a value under a key, replacing what the key held.
    pub fn insert(&mut self, key: String, value: V)
        requires
            old(self).wf(),
        ensures
            final(self).wf(),
            final(self).view_map() == old(self).view_map().insert(key@, value),
    {
        let pos = self.position(key.as_str());
        let ghost k = key@;
        let ghost v = value;
        match pos {
            Some(i) => {
                self.entries.set(i, (key, value));
                proof {
                    assert forall|a: int, b: int| 0 <= a < b < self.entries@.len()
                        implies #[trigger] self.entries@[a].0@ != #[trigger] self.entries@[b].0@ by {
                        assert(old(self).entries@[a].0@ != old(self).entries@[b].0@ || (a != i && b != i));
                    }
                    self.lemma_map_after_set(old(self), i as int, k, v);
                }
            },
            None => {
                self.entries.push((key, value));
                proof {
                    self.lemma_map_after_push(old(self), k, v);
                }
            },
        }
    }

    proof fn lemma_map_after_set(&self, before: &Self, i: int, k: Seq<char>, v: V)
        requires
            before.wf(),
            self.wf(),
            0 <= i < before.entries@.len(),
            before.entries@[i].0@ == k,
            self.entries@.len() == before.entries@.len(),
            self.entries@[i].0@ == k,
            self.entries@[i].1 == v,
            forall|j: int| 0 <= j < self.entries@.len() && j != i ==> #[trigger] self.entries@[j] == before.entries@[j],
        ensures
            self.view_map() == before.view_map().insert(k, v),
    {
        assert forall|key: Seq<char>| #[trigger] self.view_map().dom().contains(key)
            <==> before.view_map().insert(k, v).dom().contains(key) by {
            if self.view_map().dom().contains(key) {
                let j = choose|j: int| 0 <= j < self.entries@.len() && #[trigger] self.entries@[j].0@ == key;
                if j != i {
                    before.lemma_at(j);
                }
            }
            if before.view_map().dom().contains(key) && key != k {
                let j = choose|j: int| 0 <= j < before.entries@.len() && #[trigger] before.entries@[j].0@ == key;
                assert(self.entries@[j].0@ == key);
            }
            self.lemma_at(i);
        }
        assert forall|key: Seq<char>| #[trigger] self.view_map().dom().contains(key)
            implies self.view_map()[key] == before.view_map().insert(k, v)[key] by {
            let j = choose|j: int| 0 <= j < self.entries@.len() && #[trigger] self.entries@[j].0@ == key;
            self.lemma_at(j);
            if j != i {
                before.lemma_at(j);
            }
        }
        assert(self.view_map() =~= before.view_map().insert(k, v));
    }

    proof fn lemma_map_after_push(&self, before: &Self, k: Seq<char>, v: V)
        requires
            before.wf(),
            forall|j: int| 0 <= j < before.entries@.len() ==> #[trigger] before.entries@[j].0@ != k,
            self.entries@ == before.entries@.push((self.entries@.last().0, v)),
            self.entries@.last().0@ == k,
        ensures
            self.wf(),
            self.view_map() == before.view_map().insert(k, v),
    {
        let n = before.entries@.len() as int;
        assert forall|a: int, b: int| 0 <= a < b < self.entries@.len()
            implies #[trigger] self.entries@[a].0@ != #[trigger] self.entries@[b].0@ by {
            if b == n {
                assert(self.entries@[a] == before.entries@[a]);
            } else {
                assert(self.entries@[a] == before.entries@[a]);
                assert(self.entries@[b] == before.entries@[b]);
            }
        }
        assert forall|key: Seq<char>| #[trigger] self.view_map().dom().contains(key)
            <==> before.view_map().insert(k, v).dom().contains(key) by {
            if self.view_map().dom().contains(key) {
                let j = choose|j: int| 0 <= j < self.entries@.len() && #[trigger] self.entries@[j].0@ == key;
                if j < n {
                    assert(self.entries@[j] == before.entries@[j]);
                    before.lemma_at(j);
                }
            }
            if before.view_map().dom().contains(key) && key != k {
                let j = choose|j: int| 0 <= j < before.entries@.len() && #[trigger] before.entries@[j].0@ == key;
                assert(self.entries@[j] == before.entries@[j]);
                assert(self.entries@[j].0@ == key);
            }
            self.lemma_at(n);
        }
        assert forall|key: Seq<char>| #[trigger] self.view_map().dom().contains(key)
            implies self.view_map()[key] == before.view_map().insert(k, v)[key] by {
            let j = choose|j: int| 0 <= j < self.entries@.len() && #[trigger] self.entries@[j].0@ == key;
            self.lemma_at(j);
            if j < n {
                assert(self.entries@[j] == before.entries@[j]);
                before.lemma_at(j);
            }
        }
        assert(self.view_map() =~= before.view_map().insert(k, v));
    }

    /// Takes out the value stored under a key.
    pub fn remove(&mut self, key: &str) -> (r: Option<V>)
        requires
            old(self).wf(),
        ensures
            final(self).wf(),
            final(self).view_map() == old(self).view_map().remove(key@),
            match r {
                Some(v) => old(self).view_map().dom().contains(key@) && old(self).view_map()[key@] == v,
                None => !old(self).view_map().dom().contains(key@),
            },
    {
        match self.position(key) {
            Some(i) => {
                proof { self.lemma_at(i as int); }
                let (_, v) = self.entries.remove(i);
                proof { self.lemma_map_after_remove(old(self), i as int, key@); }
                Some(v)
            },
            None => {
                proof { assert(old(self).view_map().remove(key@) =~= old(self).view_map()); }
                None
            },
        }
    }

    proof fn lemma_map_after_remove(&self, before: &Self, i: int, k: Seq<char>)
        requires
            before.wf(),
            0 <= i < before.entries@.len(),
            before.entries@[i].0@ == k,
            self.entries@ == before.entries@.remove(i),
        ensures
            self.wf(),
            self.view_map() == before.view_map().remove(k),
    {
        assert forall|a: int, b: int| 0 <= a < b < self.entries@.len()
            implies #[trigger] self.entries@[a].0@ != #[trigger] self.entries@[b].0@ by {
            let a0 = if a < i { a } else { a + 1 };
            let b0 = if b < i { b } else { b + 1 };
            assert(self.entries@[a] == before.entries@[a0]);
            assert(self.entries@[b] == before.entries@[b0]);
        }
        assert forall|key: Seq<char>| #[trigger] self.view_map().dom().contains(key)
            <==> before.view_map().remove(k).dom().contains(key) by {
            if self.view_map().dom().contains(key) {
                let j = choose|j: int| 0 <= j < self.entries@.len() && #[trigger] self.entries@[j].0@ == key;
                let j0 = if j < i { j } else { j + 1 };
                assert(self.entries@[j] == before.entries@[j0]);
                before.lemma_at(j0);
                if key == k {
                    if j0 < i {
                        assert(before.entries@[j0].0@ != before.entries@[i].0@);
                    } else {
                        assert(before.entries@[i].0@ != before.entries@[j0].0@);
                    }
                }
            }
            if before.view_map().dom().contains(key) && key != k {
                let j = choose|j: int| 0 <= j < before.entries@.len() && #[trigger] before.entries@[j].0@ == key;
                let j1 = if j < i { j } else { j - 1 };
                assert(self.entries@[j1] == before.entries@[j]);
                assert(self.entries@[j1].0@ == key);
            }
        }
        assert forall|key: Seq<char>| #[trigger] self.view_map().dom().contains(key)
            implies self.view_map()[key] == before.view_map().remove(k)[key] by {
            let j = choose|j: int| 0 <= j < self.entries@.len() && #[trigger] self.entries@[j].0@ == key;
            self.lemma_at(j);
            let j0 = if j < i { j } else { j + 1 };
            assert(self.entries@[j] == before.entries@[j0]);
            before.lemma_at(j0);
        }
        assert(self.view_map() =~= before.view_map().remove(k));
    }
}

/// What a store gives back for a key is what was last stored under it,
/// and nothing once the key is removed.
pub proof fn lemma_store_read_after_write<V>(m: Map<Seq<char>, V>, k: Seq<char>, v: V, other: Seq<char>)
    requires
        other != k,
    ensures
        m.insert(k, v).dom().contains(k),
        m.insert(k, v)[k] == v,
        m.insert(k, v).dom().contains(other) == m.dom().contains(other),
        m.dom().contains(other) ==> m.insert(k, v)[other] == m[other],
        !m.remove(k).dom().contains(k),
{
}

} // verus!
