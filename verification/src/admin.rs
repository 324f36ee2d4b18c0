//! Maintainer access: PIN login with lockout, bearer-token sessions with expiry.

use vstd::prelude::*;
use vstd::hash_map::StringHashMap;
use crate::text::{chars_of, chars_equal_str, spec_trim, string_from_chars, trim_chars, CharClass};
use crate::paths::chars_skip;

verus! {

/// How long a session lasts, in seconds (15 minutes).
pub const SESSION_TTL_SECS: u64 = 900;

/// Failed logins that trigger the lockout.
pub const MAX_FAILED_ATTEMPTS: u32 = 5;

/// How long the lockout lasts, in seconds (5 minutes).
pub const LOCKOUT_SECS: u64 = 300;

/// Failed-login bookkeeping: after five failures logins are refused for five minutes.
#[derive(Clone, Copy, Debug, PartialEq, Eq)]
pub struct AdminFailedAttempts {
    pub count: u32,
    pub locked_until_secs: u64,
}

impl Default for AdminFailedAttempts {
    /// No failure recorded, not locked.
    fn default() -> (r: AdminFailedAttempts)
        ensures
            r.count == 0,
            r.locked_until_secs == 0,
    {
        AdminFailedAttempts { count: 0, locked_until_secs: 0 }
    }
}

/// Logins are refused at `now`.
pub open spec fn is_locked(f: AdminFailedAttempts, now: u64) -> bool {
    f.locked_until_secs > now
}

/// The bookkeeping after a wrong PIN at `now`.
pub open spec fn after_wrong_pin(f: AdminFailedAttempts, now: u64) -> AdminFailedAttempts {
    let count = f.count + 1;
    AdminFailedAttempts {
        count: count as u32,
        locked_until_secs: if count >= MAX_FAILED_ATTEMPTS {
            (now + LOCKOUT_SECS) as u64
        } else {
            f.locked_until_secs
        },
    }
}

/// Open sessions: token to expiry time (Unix seconds).
pub struct AdminSessions {
    map: StringHashMap<u64>,
}

impl AdminSessions {
    /// The sessions as a map from token to expiry.
    pub closed spec fn view(&self) -> Map<Seq<char>, u64> {
        self.map@
    }

    /// No session.
    pub fn new() -> (r: AdminSessions)
        ensures
            r.view() == Map::<Seq<char>, u64>::empty(),
    {
        AdminSessions { map: StringHashMap::new() }
    }

    /// The expiry of `token`, if it has a session.
    pub fn expiry(&self, token: &str) -> (r: Option<u64>)
        ensures
            r == (if self.view().contains_key(token@) {
                Some(self.view()[token@])
            } else {
                None
            }),
    {
        match self.map.get(token) {
            Some(e) => Some(*e),
            None => None,
        }
    }

    /// Opens (or replaces) the session of `token`.
    pub fn insert(&mut self, token: String, expires_at: u64)
        ensures
            final(self).view() == old(self).view().insert(token@, expires_at),
    {
        self.map.insert(token, expires_at);
    }

    /// Closes the session of `token`, if any.
    pub fn remove(&mut self, token: &str)
        ensures
            final(self).view() == old(self).view().remove(token@),
    {
        self.map.remove(token);
    }
}

/// A session is valid at `now` when it exists and has not expired.
pub open spec fn session_valid(s: Map<Seq<char>, u64>, token: Seq<char>, now: u64) -> bool {
    s.contains_key(token) && now < s[token]
}

/// The HTTP status an access failure maps to.
#[derive(Clone, Copy, Debug, PartialEq, Eq, Structural)]
pub enum AuthStatus {
    /// 400.
    BadRequest,
    /// 401.
    Unauthorized,
    /// 429.
    TooManyRequests,
}

/// A refused access: status and message.
#[derive(Clone, Debug)]
pub struct AuthError {
    pub status: AuthStatus,
    pub message: String,
}

/// A successful login: the new token and its lifetime in seconds.
#[derive(Clone, Debug)]
pub struct AdminLogin {
    pub token: String,
    pub expires_in_secs: u64,
}

/// `e` is a failure with this status and message.
pub open spec fn is_auth_error(e: AuthError, status: AuthStatus, message: Seq<char>) -> bool {
    e.status == status && e.message@ == message
}

/// The token of an `Authorization` header value: the text after `Bearer ` (or the
/// whole value without that prefix), trimmed; none when that is empty.
pub open spec fn spec_bearer_token(v: Seq<char>) -> Option<Seq<char>> {
    let p = "Bearer "@;
    let rest = if v.len() >= p.len() && v.take(p.len() as int) == p {
        v.skip(p.len() as int)
    } else {
        v
    };
    let t = spec_trim(rest);
    if t.len() == 0 {
        None
    } else {
        Some(t)
    }
}

/// Extracts the bearer token from the `Authorization` header value, if any.
pub fn bearer_token(authorization: Option<&str>) -> (r: Option<String>)
    ensures
        authorization is None ==> r is None,
        authorization matches Some(v) ==> match (r, spec_bearer_token(v@)) {
            (Some(t), Some(s)) => t@ == s,
            (None, None) => true,
            _ => false,
        },
{
    let v = match authorization {
        Some(v) => v,
        None => return None,
    };
    let cs = chars_of(v);
    let p = chars_of("Bearer ");
    let mut starts = cs.len() >= p.len();
    let mut i: usize = 0;
    while starts && i < p.len()
        invariant
            starts ==> cs@.len() >= p@.len(),
            i <= p@.len(),
            starts ==> forall|j: int| 0 <= j < i ==> cs@[j] == p@[j],
            cs.len() >= p.len() && !starts ==> exists|j: int| 0 <= j < p@.len() && cs@[j] != p@[j],
        decreases p.len() - i,
    {
        if cs[i] != p[i] {
            starts = false;
        }
        i += 1;
    }
    let ghost pv = "Bearer "@;
    assert(p@ == pv);
    assert(starts == (cs@.len() >= pv.len() && cs@.take(pv.len() as int) == pv)) by {
        if starts {
            assert(cs@.take(pv.len() as int) =~= pv);
        } else if cs@.len() >= pv.len() {
            let j = choose|j: int| 0 <= j < p@.len() && cs@[j] != p@[j];
            assert(cs@.take(pv.len() as int)[j] != pv[j]);
        }
    }
    let rest = if starts { chars_skip(&cs, p.len()) } else { cs };
    let t = trim_chars(&rest, CharClass::Whitespace);
    if t.len() == 0 {
        None
    } else {
        Some(string_from_chars(&t))
    }
}

/// Calls `uuid::Uuid::new_v4()` of `uuid` and renders it as text: a fresh random
/// identifier. Nothing is promised of its value.
#[verifier::external_body]
pub(crate) fn random_uuid() -> String {
    uuid::Uuid::new_v4().to_string()
}

/// Checks a maintainer request. Without a configured PIN everything is allowed.
/// Otherwise the request needs a token whose session has not expired; an expired
/// session is removed.
pub fn require_admin(
    pin_configured: bool,
    token: Option<&str>,
    now: u64,
    sessions: &mut AdminSessions,
) -> (r: Result<(), AuthError>)
    ensures
        !pin_configured ==> r is Ok && final(sessions).view() == old(sessions).view(),
        pin_configured ==> match token {
            None => r matches Err(e) && is_auth_error(e, AuthStatus::Unauthorized, "Authorization: Bearer <token> requerido"@)
                && final(sessions).view() == old(sessions).view(),
            Some(t) => if !old(sessions).view().contains_key(t@) {
                r matches Err(e) && is_auth_error(e, AuthStatus::Unauthorized, "Sesión inválida o expirada"@)
                    && final(sessions).view() == old(sessions).view()
            } else if now >= old(sessions).view()[t@] {
                r matches Err(e) && is_auth_error(e, AuthStatus::Unauthorized, "Sesión expirada"@)
                    && final(sessions).view() == old(sessions).view().remove(t@)
            } else {
                r is Ok && final(sessions).view() == old(sessions).view()
            },
        },
        r is Ok <==> (!pin_configured || (token matches Some(t) && session_valid(old(sessions).view(), t@, now))),
{
    if !pin_configured {
        return Ok(());
    }
    let t = match token {
        Some(t) => t,
        None => {
            return Err(AuthError {
                status: AuthStatus::Unauthorized,
                message: String::from_str("Authorization: Bearer <token> requerido"),
            });
        },
    };
    let expires = match sessions.expiry(t) {
        Some(e) => e,
        None => {
            return Err(AuthError {
                status: AuthStatus::Unauthorized,
                message: String::from_str("Sesión inválida o expirada"),
            });
        },
    };
    if now >= expires {
        sessions.remove(t);
        return Err(AuthError {
            status: AuthStatus::Unauthorized,
            message: String::from_str("Sesión expirada"),
        });
    }
    Ok(())
}

/// PIN login. Without a configured PIN it is refused (400). While locked out it is
/// refused (429) whatever the PIN. A wrong PIN is refused (401) and counted; the
/// fifth counted failure locks logins for five minutes. The right PIN clears the
/// count and opens a fifteen-minute session under a fresh token.
pub fn login(
    configured_pin: Option<&str>,
    pin: &str,
    now: u64,
    failed: &mut AdminFailedAttempts,
    sessions: &mut AdminSessions,
) -> (r: Result<AdminLogin, AuthError>)
    requires
        old(failed).count < u32::MAX,
        now <= u64::MAX - SESSION_TTL_SECS,
    ensures
        match configured_pin {
            None => r matches Err(e) && is_auth_error(e, AuthStatus::BadRequest, "Admin auth no configurado (ADMIN_PIN)"@)
                && *final(failed) == *old(failed) && final(sessions).view() == old(sessions).view(),
            Some(p) => if is_locked(*old(failed), now) {
                r matches Err(e) && is_auth_error(e, AuthStatus::TooManyRequests, "Demasiados intentos; espera unos minutos"@)
                    && *final(failed) == *old(failed) && final(sessions).view() == old(sessions).view()
            } else if pin@ != p@ {
                r matches Err(e) && is_auth_error(e, AuthStatus::Unauthorized, "PIN incorrecto"@)
                    && *final(failed) == after_wrong_pin(*old(failed), now)
                    && final(sessions).view() == old(sessions).view()
            } else {
                r matches Ok(l) && l.expires_in_secs == SESSION_TTL_SECS
                    && *final(failed) == AdminFailedAttempts::default_value()
                    && final(sessions).view() == old(sessions).view().insert(l.token@, (now + SESSION_TTL_SECS) as u64)
            },
        },
{
    let p = match configured_pin {
        Some(p) => p,
        None => {
            return Err(AuthError {
                status: AuthStatus::BadRequest,
                message: String::from_str("Admin auth no configurado (ADMIN_PIN)"),
            });
        },
    };
    if failed.locked_until_secs > now {
        return Err(AuthError {
            status: AuthStatus::TooManyRequests,
            message: String::from_str("Demasiados intentos; espera unos minutos"),
        });
    }
    let given = chars_of(pin);
    if !chars_equal_str(&given, p) {
        failed.count = failed.count + 1;
        if failed.count >= MAX_FAILED_ATTEMPTS {
            failed.locked_until_secs = now + LOCKOUT_SECS;
        }
        return Err(AuthError {
            status: AuthStatus::Unauthorized,
            message: String::from_str("PIN incorrecto"),
        });
    }
    failed.count = 0;
    failed.locked_until_secs = 0;
    let token = random_uuid();
    let expires_at = now + SESSION_TTL_SECS;
    let kept = token.clone();
    sessions.insert(token, expires_at);
    Ok(AdminLogin { token: kept, expires_in_secs: SESSION_TTL_SECS })
}

impl AdminFailedAttempts {
    /// The initial bookkeeping as a value.
    pub open spec fn default_value() -> AdminFailedAttempts {
        AdminFailedAttempts { count: 0, locked_until_secs: 0 }
    }
}

/// Logout: closes the session of the given token when a PIN is configured.
pub fn logout(pin_configured: bool, token: Option<&str>, sessions: &mut AdminSessions)
    ensures
        final(sessions).view() == (if pin_configured && token is Some {
            old(sessions).view().remove(token->Some_0@)
        } else {
            old(sessions).view()
        }),
{
    if pin_configured {
        match token {
            Some(t) => sessions.remove(t),
            None => {},
        }
    }
}

/// Session check. Without a configured PIN every caller is valid. Otherwise a token
/// is required and its session must exist and not have expired; an unknown or
/// expired token is refused (401) and forgotten.
pub fn session_status(
    pin_configured: bool,
    token: Option<&str>,
    now: u64,
    sessions: &mut AdminSessions,
) -> (r: Result<bool, AuthError>)
    ensures
        !pin_configured ==> r == Ok::<bool, AuthError>(true) && final(sessions).view() == old(sessions).view(),
        pin_configured ==> match token {
            None => r matches Err(e) && is_auth_error(e, AuthStatus::Unauthorized, "Authorization: Bearer <token> requerido"@)
                && final(sessions).view() == old(sessions).view(),
            Some(t) => if session_valid(old(sessions).view(), t@, now) {
                r == Ok::<bool, AuthError>(true) && final(sessions).view() == old(sessions).view()
            } else {
                r matches Err(e) && is_auth_error(e, AuthStatus::Unauthorized, "Sesión inválida o expirada"@)
                    && final(sessions).view() == old(sessions).view().remove(t@)
            },
        },
        r matches Ok(v) ==> v,
{
    if !pin_configured {
        return Ok(true);
    }
    let t = match token {
        Some(t) => t,
        None => {
            return Err(AuthError {
                status: AuthStatus::Unauthorized,
                message: String::from_str("Authorization: Bearer <token> requerido"),
            });
        },
    };
    let valid = match sessions.expiry(t) {
        Some(e) => now < e,
        None => false,
    };
    if !valid {
        sessions.remove(t);
        return Err(AuthError {
            status: AuthStatus::Unauthorized,
            message: String::from_str("Sesión inválida o expirada"),
        });
    }
    Ok(true)
}


/// The bookkeeping after wrong PINs entered at the given times, in order.
pub open spec fn after_wrong_pins(f: AdminFailedAttempts, times: Seq<u64>) -> AdminFailedAttempts
    decreases times.len(),
{
    if times.len() == 0 {
        f
    } else {
        after_wrong_pin(after_wrong_pins(f, times.drop_last()), times.last())
    }
}

/// Up to four wrong PINs from a clean state never lock logins out.
pub proof fn law_four_failures_do_not_lock(times: Seq<u64>, t: u64)
    requires
        times.len() < 5,
    ensures
        after_wrong_pins(AdminFailedAttempts::default_value(), times).count == times.len(),
        !is_locked(after_wrong_pins(AdminFailedAttempts::default_value(), times), t),
    decreases times.len(),
{
    if times.len() > 0 {
        law_four_failures_do_not_lock(times.drop_last(), t);
    }
}

/// Five wrong PINs from a clean state lock logins out for five minutes after the
/// fifth: any login attempt in that window is refused, even with the right PIN.
pub proof fn law_five_failures_lock_out(times: Seq<u64>, t: u64)
    requires
        times.len() == 5,
        times.last() <= u64::MAX - SESSION_TTL_SECS,
        times.last() <= t < times.last() + LOCKOUT_SECS,
    ensures
        is_locked(after_wrong_pins(AdminFailedAttempts::default_value(), times), t),
        !is_locked(after_wrong_pins(AdminFailedAttempts::default_value(), times), (times.last() + LOCKOUT_SECS) as u64),
{
    law_four_failures_do_not_lock(times.drop_last(), t);
}

/// The fifth wrong PIN locks logins out: with four failures counted and no lockout
/// running at `now`, a wrong PIN at `now` is counted as the fifth and locks logins
/// until five minutes later, so every login before then is refused.
pub proof fn law_fifth_wrong_pin_locks(f: AdminFailedAttempts, now: u64, later: u64)
    requires
        f.count == 4,
        f.locked_until_secs <= now,
        now <= u64::MAX - SESSION_TTL_SECS,
        later < now + LOCKOUT_SECS,
    ensures
        !is_locked(f, now),
        after_wrong_pin(f, now) == (AdminFailedAttempts { count: 5, locked_until_secs: (now + LOCKOUT_SECS) as u64 }),
        is_locked(after_wrong_pin(f, now), later),
{
}

/// A session opened at `now` is valid exactly until fifteen minutes later.
pub proof fn law_session_lasts_fifteen_minutes(
    s: Map<Seq<char>, u64>,
    token: Seq<char>,
    now: u64,
    t: u64,
)
    requires
        now <= u64::MAX - SESSION_TTL_SECS,
    ensures
        session_valid(s.insert(token, (now + SESSION_TTL_SECS) as u64), token, t) <==> t < now
            + SESSION_TTL_SECS,
{
}

/// After logout the token's session is no longer valid, at any time.
pub proof fn law_logout_invalidates(s: Map<Seq<char>, u64>, token: Seq<char>, t: u64)
    ensures
        !session_valid(s.remove(token), token, t),
{
}

} // verus!
