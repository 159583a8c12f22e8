//! The identity and authorization core of a game-companion backend, with
//! its administrative content store.
//!
//! The heart is the session and identity subsystem: a token codec that
//! issues and verifies signed identity tokens, a session store with a
//! per-user cap and bulk revocation, a pending-change ledger shared by the
//! four "request, emailed token, confirm" workflows (email verification,
//! password reset, email change, account deletion), and an authorization
//! guard composed from the codec and the stores. `system` ties them into
//! the handler-facing surface; `content` adds the administrator-guarded
//! game content. Every operation takes the current time as an argument and
//! returns a typed result; credentials rest as salted hashes only.

pub mod accounts;
pub mod content;
pub mod crypto;
pub mod pages;
pub mod pending;
pub mod sessions;
pub mod system;
pub mod token;

use vstd::prelude::*;

verus! {

/// Rejection reasons for every operation of the library, one taxonomy shared
/// by authentication, authorization, workflow guards and domain validation.
#[derive(Clone, Copy, Debug, PartialEq, Eq, Structural)]
pub enum AuthError {
    /// The signing secret is missing or unusable; fatal, configuration-time.
    ConfigurationError,
    /// The identity token is malformed, forged, or past its own expiry.
    InvalidToken,
    /// The session named by an identity token does not exist (any more).
    SessionNotFound,
    /// The session exists but its lifetime has passed.
    SessionExpired,
    /// The caller is authenticated but is not an administrator.
    NotAdmin,
    /// The caller is neither the resource owner nor an administrator.
    Forbidden,
    /// A live pending change of the same kind already exists for this user.
    AlreadyInProgress,
    /// A resend was attempted before the minimum resend interval elapsed.
    TooFast,
    /// No pending change carries the presented token.
    TokenNotFound,
    /// The pending change expired before the token was presented.
    Expired,
    /// No account matches the given identity.
    UserNotFound,
    /// The email is already bound to an account.
    EmailTaken,
    /// The password does not match the stored credential.
    WrongPassword,
    /// The account has not confirmed its email address yet.
    NotVerified,
    /// The per-user cap on concurrent login sessions is reached.
    SessionLimitExceeded,
    /// The game is paused and the caller is not exempt.
    GamePaused,
    /// A store-level failure, e.g. an opaque-token collision.
    InternalError,
}

} // verus!
