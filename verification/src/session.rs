//! Sessions and token lifecycle. A session owns a credential (or a
//! user identity), a cached bearer token and the knowledge of whether
//! it can refresh. `token_decision` says whether the cached token is
//! still good — valid for at least the safety margin — or a refresh is
//! due; `install_token` swaps the cache as one whole value, so a
//! reader never observes a token made of parts of two refreshes. The
//! network half of a refresh (signing an assertion, calling the token
//! endpoint) belongs to the surrounding application; the response
//! comes back through [`parse_token_response`].

use vstd::prelude::*;
use crate::json::{JsonModel, JsonValue, spec_lookup};

verus! {

/// A token is treated as stale this long before its actual expiry.
pub const TOKEN_SAFETY_MARGIN_MS: u64 = 60000;

/// Key material identifying a project and a service account.
pub struct Credentials {
    pub project_id: String,
    pub client_email: String,
    pub private_key: String,
    pub api_key: String,
}

impl Credentials {
    /// Validates the key material: a credential is usable when its
    /// project id, client email and private key are all present.
    pub fn validate(&self) -> (r: Result<(), crate::error::FirebaseError>)
        ensures
            r is Ok <==> (self.project_id@.len() > 0 && self.client_email@.len() > 0
                && self.private_key@.len() > 0),
    {
        if self.project_id.as_str().is_empty() || self.client_email.as_str().is_empty()
            || self.private_key.as_str().is_empty() {
            Err(
                crate::error::FirebaseError::Authentication(
                    "credentials are missing a project id, client email or private key".to_owned(),
                ),
            )
        } else {
            Ok(())
        }
    }
}

/// A bearer token with its absolute expiry instant; user sessions may
/// also hold a refresh token.
pub struct Token {
    pub bearer: String,
    pub expires_at_ms: u64,
    pub refresh_token: Option<String>,
}

/// Whether `t` is still valid at `now_ms`, with `margin_ms` to spare.
pub open spec fn token_valid_at(t: Token, now_ms: u64, margin_ms: u64) -> bool {
    now_ms + margin_ms <= t.expires_at_ms
}

/// The two principal kinds a session can speak for.
#[derive(Debug, PartialEq, Eq, Structural, Clone, Copy)]
pub enum SessionKind {
    Service,
    User,
}

/// A session: a credential, an optional user identity, the cached
/// token, and whether this session is able to refresh it.
pub struct Session {
    pub kind: SessionKind,
    pub credentials: Credentials,
    pub user_id: Option<String>,
    pub cached: Option<Token>,
    pub can_refresh: bool,
}

/// What a caller asking for a bearer token must do next.
#[derive(Debug)]
pub enum TokenAction {
    /// The cached token is valid; use this bearer string.
    UseCached(String),
    /// The cache is empty, expired, or within the safety margin of
    /// expiry: refresh first.
    Refresh,
}

/// Whether the session's cache holds a token valid at `now_ms`.
pub open spec fn spec_has_valid_token(s: Session, now_ms: u64) -> bool {
    match s.cached {
        Some(t) => token_valid_at(t, now_ms, TOKEN_SAFETY_MARGIN_MS),
        None => false,
    }
}

impl Session {
    /// A fresh service-account session with an empty token cache.
    pub fn for_service_account(credentials: Credentials) -> (r: Session)
        ensures
            r.kind is Service,
            r.cached is None,
            r.can_refresh,
            r.user_id is None,
            r.credentials == credentials,
    {
        Session {
            kind: SessionKind::Service,
            credentials,
            user_id: None,
            cached: None,
            can_refresh: true,
        }
    }

    /// A user session built around an exchanged token (sign-in or
    /// refresh-token exchange): it can refresh exactly when the
    /// exchange handed back a refresh token.
    pub fn for_user(credentials: Credentials, user_id: String, token: Token) -> (r: Session)
        ensures
            r.kind is User,
            r.cached == Some(token),
            r.user_id == Some(user_id),
            r.can_refresh == (token.refresh_token is Some),
            r.credentials == credentials,
    {
        let can_refresh = match &token.refresh_token {
            Some(_) => true,
            None => false,
        };
        Session {
            kind: SessionKind::User,
            credentials,
            user_id: Some(user_id),
            cached: Some(token),
            can_refresh,
        }
    }

    /// A user session wrapped around a caller-supplied access token,
    /// with refresh capability disabled.
    pub fn for_access_token(credentials: Credentials, user_id: String, bearer: String,
        expires_at_ms: u64) -> (r: Session)
        ensures
            r.kind is User,
            r.cached matches Some(t) && t.bearer == bearer && t.expires_at_ms == expires_at_ms
                && t.refresh_token is None,
            !r.can_refresh,
            r.user_id == Some(user_id),
    {
        Session {
            kind: SessionKind::User,
            credentials,
            user_id: Some(user_id),
            cached: Some(Token { bearer, expires_at_ms, refresh_token: None }),
            can_refresh: false,
        }
    }

    /// Whether the cache must be refreshed before use at `now_ms`.
    pub fn needs_refresh(&self, now_ms: u64) -> (r: bool)
        ensures
            r == !spec_has_valid_token(*self, now_ms),
    {
        match &self.cached {
            Some(t) => {
                if t.expires_at_ms < TOKEN_SAFETY_MARGIN_MS {
                    true
                } else {
                    now_ms > t.expires_at_ms - TOKEN_SAFETY_MARGIN_MS
                }
            },
            None => true,
        }
    }

    /// Decides how to serve an `access_token` call at `now_ms`: hand
    /// out the cached bearer when it is valid for at least the safety
    /// margin, otherwise demand a refresh. Never hands out a stale or
    /// partial token.
    pub fn token_decision(&self, now_ms: u64) -> (r: TokenAction)
        ensures
            spec_has_valid_token(*self, now_ms) ==> (r matches TokenAction::UseCached(b)
                && self.cached matches Some(t) && b == t.bearer),
            !spec_has_valid_token(*self, now_ms) ==> r is Refresh,
    {
        if self.needs_refresh(now_ms) {
            TokenAction::Refresh
        } else {
            match &self.cached {
                Some(t) => TokenAction::UseCached(t.bearer.clone()),
                None => TokenAction::Refresh,
            }
        }
    }

    /// Installs a freshly exchanged token. The cache is replaced as
    /// one whole value: after this call it holds exactly `token`,
    /// never a mixture of the old and the new one.
    pub fn install_token(&mut self, token: Token)
        ensures
            final(self).cached == Some(token),
            final(self).kind == old(self).kind,
            final(self).credentials == old(self).credentials,
            final(self).user_id == old(self).user_id,
            final(self).can_refresh == old(self).can_refresh,
    {
        self.cached = Some(token);
    }
}

/// The session state after a refresh installs `t`.
pub open spec fn spec_install(s: Session, t: Token) -> Session {
    Session { cached: Some(t), ..s }
}

/// Concurrent `access_token` calls: once a refresh has installed a
/// token valid at `now_ms`, every subsequent reader is handed that
/// very bearer string — valid, and whole. Two callers that both find
/// the cache stale each install some fresh token; whichever write
/// lands last, the cache equals that entire token (last writer wins),
/// never a partial mixture of the two.
///
/// This covers the value-level half of the claim. Serializing the
/// refresh-and-read sequence between threads is the caller's duty —
/// the surrounding application holds the session under a lock, which
/// is not verified here.
pub proof fn lemma_refresh_then_read(s: Session, t: Token, now_ms: u64)
    requires
        token_valid_at(t, now_ms, TOKEN_SAFETY_MARGIN_MS),
    ensures
        spec_has_valid_token(spec_install(s, t), now_ms),
        spec_install(s, t).cached == Some(t),
{
}

/// Last writer wins, wholesale: after two installs the cache is the
/// second token, all of it.
pub proof fn lemma_install_last_writer(s: Session, t1: Token, t2: Token)
    ensures
        spec_install(spec_install(s, t1), t2).cached == Some(t2),
        spec_install(spec_install(s, t1), t2) == spec_install(s, t2),
{
}

/// Reads a token-endpoint response `{access_token, expires_in,
/// refresh_token?}` into a token, stamping the absolute expiry from
/// `now_ms` plus the advertised lifetime in seconds. Yields nothing
/// when the response lacks a string `access_token` or an integer
/// `expires_in`, or when the expiry would not fit the clock's range.
pub fn parse_token_response(j: &JsonValue, now_ms: u64) -> (r: Option<Token>)
    ensures
        r is Some <==> (j@ matches JsonModel::Object(mm) && (spec_lookup(mm, "access_token"@)
            matches Some(JsonModel::Str(_))) && (spec_lookup(mm, "expires_in"@) matches Some(
            JsonModel::Int(secs),
        ) && 0 <= secs <= 0x7fffffff && now_ms + secs * 1000 <= u64::MAX)),
        r matches Some(t) ==> {
            &&& j@ matches JsonModel::Object(mm)
            &&& spec_lookup(mm, "access_token"@) == Some(JsonModel::Str(t.bearer@))
            &&& spec_lookup(mm, "expires_in"@) matches Some(JsonModel::Int(secs)) && t.expires_at_ms
                == now_ms + secs * 1000
            &&& match t.refresh_token {
                Some(rt) => spec_lookup(mm, "refresh_token"@) == Some(JsonModel::Str(rt@)),
                None => !(spec_lookup(mm, "refresh_token"@) matches Some(JsonModel::Str(_))),
            }
        },
{
    let bearer = match j.lookup("access_token") {
        Some(JsonValue::Str(s)) => s.clone(),
        _ => {
            return None;
        },
    };
    let secs = match j.lookup("expires_in") {
        Some(JsonValue::Int(n)) => *n,
        _ => {
            return None;
        },
    };
    if secs < 0 || secs > 0x7fffffff {
        return None;
    }
    let lifetime_ms = (secs as u64) * 1000;
    if now_ms > u64::MAX - lifetime_ms {
        return None;
    }
    let refresh_token = match j.lookup("refresh_token") {
        Some(JsonValue::Str(s)) => Some(s.clone()),
        _ => None,
    };
    Some(Token { bearer, expires_at_ms: now_ms + lifetime_ms, refresh_token })
}

} // verus!

verus! {

/// How long a signed assertion asks its bearer token to live, in
/// seconds.
pub const ASSERTION_LIFETIME_S: u64 = 3600;

/// The claim set of the signed assertion a service-account refresh
/// exchanges for a bearer token: the issuer is the service account,
/// the audience is the token endpoint, the scope grants document
/// access, and the expiry claim lies one lifetime past `now_s`.
/// Signing the assertion with the private key is the surrounding
/// application's step; the claims are fixed here.
pub fn assertion_claims(credentials: &Credentials, now_s: u64) -> (r: JsonValue)
    requires
        now_s + ASSERTION_LIFETIME_S <= i64::MAX,
    ensures
        r@ == JsonModel::Object(
            seq![
                ("iss"@, JsonModel::Str(credentials.client_email@)),
                (
                    "scope"@,
                    JsonModel::Str("https://www.googleapis.com/auth/datastore"@),
                ),
                ("aud"@, JsonModel::Str("https://oauth2.googleapis.com/token"@)),
                ("iat"@, JsonModel::Int(now_s as int)),
                ("exp"@, JsonModel::Int(now_s as int + ASSERTION_LIFETIME_S as int)),
            ],
        ),
{
    let iat = now_s;
    let exp = now_s + ASSERTION_LIFETIME_S;
    let mut claims: Vec<(String, JsonValue)> = Vec::new();
    claims.push(("iss".to_owned(), JsonValue::Str(credentials.client_email.clone())));
    claims.push((
        "scope".to_owned(),
        JsonValue::Str("https://www.googleapis.com/auth/datastore".to_owned()),
    ));
    claims.push((
        "aud".to_owned(),
        JsonValue::Str("https://oauth2.googleapis.com/token".to_owned()),
    ));
    claims.push(("iat".to_owned(), JsonValue::Int(iat as i64)));
    claims.push(("exp".to_owned(), JsonValue::Int(exp as i64)));
    proof {
        crate::json::lemma_model_members(claims@);
        assert(crate::json::json_model_members(claims@) =~= seq![
            ("iss"@, JsonModel::Str(credentials.client_email@)),
            ("scope"@, JsonModel::Str("https://www.googleapis.com/auth/datastore"@)),
            ("aud"@, JsonModel::Str("https://oauth2.googleapis.com/token"@)),
            ("iat"@, JsonModel::Int(now_s as int)),
            ("exp"@, JsonModel::Int(now_s as int + ASSERTION_LIFETIME_S as int)),
        ]);
    }
    JsonValue::Object(claims)
}

} // verus!
