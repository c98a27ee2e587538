//! Session and registration decisions. Credential hashing and storage stay
//! with the caller; these functions decide on the plain values it fetched.
use vstd::prelude::*;
use crate::models::AccessToken;

verus! {

/// How long a session lasts after login, in seconds (one day).
pub const SESSION_LIFETIME_SECS: i64 = 86400;

/// A logged-in session: whose it is and when it stops being valid.
#[derive(Clone, Copy, Debug, PartialEq, Eq, Structural)]
pub struct Session {
    pub user_id: u128,
    pub expires: i64,
}

/// Why a request is turned away.
#[derive(Clone, Copy, Debug, PartialEq, Eq, Structural)]
pub enum AuthError {
    /// No session matches the presented token.
    NoSession,
    /// The session has expired.
    SessionExpired,
    /// No access token matches the presented one.
    InvalidToken,
    /// The access token was used before.
    TokenRedeemed,
    /// The user has no password set.
    NoPassword,
    /// No session can end one day after this moment: the time is out of range.
    TimeOutOfRange,
}

impl Session {
    /// A session has expired once `now` lies strictly after its expiry.
    pub fn is_expired_at(&self, now: i64) -> (r: bool)
        ensures
            r == (now > self.expires),
    {
        now > self.expires
    }
}

/// The user on whose behalf a request runs: the owner of `session`, when
/// there is one and it has not expired at `now`.
pub fn authorize(session: Option<&Session>, now: i64) -> (r: Result<u128, AuthError>)
    ensures
        r == match session {
            None => Err(AuthError::NoSession),
            Some(s) => if now > s.expires {
                Err(AuthError::SessionExpired)
            } else {
                Ok(s.user_id)
            },
        },
{
    match session {
        None => Err(AuthError::NoSession),
        Some(s) => if s.is_expired_at(now) {
            Err(AuthError::SessionExpired)
        } else {
            Ok(s.user_id)
        },
    }
}

/// A new session for `user_id`, logged in at `now`, valid for one day.
pub fn start_session(user_id: u128, now: i64) -> (r: Result<Session, AuthError>)
    ensures
        r == if now + SESSION_LIFETIME_SECS <= i64::MAX {
            Ok(Session { user_id, expires: (now + SESSION_LIFETIME_SECS) as i64 })
        } else {
            Err(AuthError::TimeOutOfRange)
        },
{
    match now.checked_add(SESSION_LIFETIME_SECS) {
        Some(expires) => Ok(Session { user_id, expires }),
        None => Err(AuthError::TimeOutOfRange),
    }
}

/// Whether the access token found for a registration may be used: there
/// must be one, not yet redeemed.
pub fn check_access_token(token: Option<&AccessToken>) -> (r: Result<(), AuthError>)
    ensures
        r == match token {
            None => Err(AuthError::InvalidToken),
            Some(t) => if t.redeemed {
                Err(AuthError::TokenRedeemed)
            } else {
                Ok(())
            },
        },
{
    match token {
        None => Err(AuthError::InvalidToken),
        Some(t) => if t.redeemed {
            Err(AuthError::TokenRedeemed)
        } else {
            Ok(())
        },
    }
}

/// The stored password hash a login is checked against; a user without one
/// cannot log in.
pub fn stored_password_hash(password: Option<String>) -> (r: Result<String, AuthError>)
    ensures
        r == match password {
            None => Err(AuthError::NoPassword),
            Some(h) => Ok(h),
        },
{
    match password {
        None => Err(AuthError::NoPassword),
        Some(h) => Ok(h),
    }
}

} // verus!
