//! The cached auth token of the REST client: a token with its deadline, in
//! milliseconds of a monotonic clock.
use crate::errors::Error;
use vstd::prelude::*;
use vstd::string::StringExecFns;

verus! {

/// How long an issued token is trusted when it states no deadline: nine
/// minutes.
pub const AUTH_TTL_MS: u64 = 540_000;

/// A cached token and the time it stops being valid.
pub struct AuthCacheState {
    token: Option<String>,
    expires_at_ms: Option<u64>,
}

pub struct AuthView {
    pub token: Option<Seq<char>>,
    pub expires_at_ms: Option<u64>,
}

impl View for AuthCacheState {
    type V = AuthView;

    closed spec fn view(&self) -> AuthView {
        AuthView {
            token: match self.token {
                Some(t) => Some(t@),
                None => None,
            },
            expires_at_ms: self.expires_at_ms,
        }
    }
}

/// A token is held and its deadline lies after `now_ms`.
pub open spec fn token_valid(v: AuthView, now_ms: u64) -> bool {
    &&& v.token is Some
    &&& v.expires_at_ms matches Some(exp) && now_ms < exp
}

/// Monotonic deadline of a token issued at `now_ms` (wall clock
/// `now_unix_ms`): its own deadline when it states one that has not passed,
/// else nine minutes from now.
pub open spec fn token_deadline(deadline_unix_ms: Option<u64>, now_unix_ms: u64, now_ms: u64) -> int {
    match deadline_unix_ms {
        Some(d) => if d >= now_unix_ms {
            now_ms + (d - now_unix_ms)
        } else {
            now_ms + AUTH_TTL_MS
        },
        None => now_ms + AUTH_TTL_MS,
    }
}

/// Whether the deadline of a token issued at `now_ms` fits a `u64`.
pub fn token_deadline_fits(deadline_unix_ms: Option<u64>, now_unix_ms: u64, now_ms: u64) -> (r: bool)
    ensures
        r == (token_deadline(deadline_unix_ms, now_unix_ms, now_ms) <= u64::MAX),
{
    match deadline_unix_ms {
        Some(d) => if d >= now_unix_ms {
            now_ms.checked_add(d - now_unix_ms).is_some()
        } else {
            now_ms.checked_add(AUTH_TTL_MS).is_some()
        },
        None => now_ms.checked_add(AUTH_TTL_MS).is_some(),
    }
}

/// When a freshly issued token stops being trusted.
pub fn auth_token_expiry(deadline_unix_ms: Option<u64>, now_unix_ms: u64, now_ms: u64) -> (r: u64)
    requires
        token_deadline(deadline_unix_ms, now_unix_ms, now_ms) <= u64::MAX,
    ensures
        r == token_deadline(deadline_unix_ms, now_unix_ms, now_ms),
{
    match deadline_unix_ms {
        Some(d) => if d >= now_unix_ms {
            now_ms + (d - now_unix_ms)
        } else {
            now_ms + AUTH_TTL_MS
        },
        None => now_ms + AUTH_TTL_MS,
    }
}

impl AuthCacheState {
    /// An empty cache.
    pub fn new() -> (r: Self)
        ensures
            r@.token is None,
            r@.expires_at_ms is None,
    {
        AuthCacheState { token: None, expires_at_ms: None }
    }

    pub fn is_valid(&self, now_ms: u64) -> (r: bool)
        ensures
            r == token_valid(self@, now_ms),
    {
        match (&self.token, self.expires_at_ms) {
            (Some(_), Some(exp)) => now_ms < exp,
            _ => false,
        }
    }

    pub fn token(&self) -> (r: Option<String>)
        ensures
            match r {
                Some(t) => self@.token == Some(t@),
                None => self@.token is None,
            },
    {
        match &self.token {
            Some(t) => Some(t.clone()),
            None => None,
        }
    }

    pub fn clear(&mut self)
        ensures
            final(self)@.token is None,
            final(self)@.expires_at_ms is None,
    {
        self.token = None;
        self.expires_at_ms = None;
    }

    pub fn update(&mut self, token: String, expires_at_ms: u64)
        ensures
            final(self)@.token == Some(token@),
            final(self)@.expires_at_ms == Some(expires_at_ms),
    {
        self.token = Some(token);
        self.expires_at_ms = Some(expires_at_ms);
    }

    /// The token to send at `now_ms`, if the cached one is still valid.
    pub fn current_token(&self, now_ms: u64) -> (r: Option<String>)
        ensures
            token_valid(self@, now_ms) ==> (r matches Some(t) && self@.token == Some(t@)),
            !token_valid(self@, now_ms) ==> r is None,
    {
        if self.is_valid(now_ms) {
            self.token()
        } else {
            None
        }
    }

    /// Stores a token issued while the cache was checked: a token that
    /// became valid meanwhile wins and is returned, else the issued one is
    /// cached until `expires_at_ms` and returned.
    pub fn install(&mut self, issued: String, expires_at_ms: u64, now_ms: u64) -> (r: Result<String, Error>)
        ensures
            token_valid(old(self)@, now_ms) ==> {
                &&& r matches Ok(t) && old(self)@.token == Some(t@)
                &&& final(self)@ == old(self)@
            },
            !token_valid(old(self)@, now_ms) ==> {
                &&& r matches Ok(t) && t@ == issued@
                &&& final(self)@.token == Some(issued@)
                &&& final(self)@.expires_at_ms == Some(expires_at_ms)
            },
    {
        if self.is_valid(now_ms) {
            return match self.token() {
                Some(t) => Ok(t),
                None => Err(Error::Http { status: 500, body: String::from_str("auth cache empty") }),
            };
        }
        let copy = issued.clone();
        self.update(issued, expires_at_ms);
        Ok(copy)
    }
}

/// A token is trusted until its deadline and not after: valid right after
/// it is stored at an earlier time, invalid from the deadline on, and never
/// after the cache is cleared.
pub proof fn law_token_lifetime(token: Seq<char>, expires_at_ms: u64, now_ms: u64)
    ensures
        now_ms < expires_at_ms ==> token_valid(AuthView { token: Some(token), expires_at_ms: Some(expires_at_ms) }, now_ms),
        now_ms >= expires_at_ms ==> !token_valid(AuthView { token: Some(token), expires_at_ms: Some(expires_at_ms) }, now_ms),
        !token_valid(AuthView { token: None, expires_at_ms: None }, now_ms),
{
}

} // verus!
