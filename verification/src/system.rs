//! The handler-facing surface: login and logout, the four confirmation
//! workflows, profile updates and retrieval, and the authorization guard
//! that every one of them shares.
//!
//! Each operation takes the current time as an argument; the caller reads
//! the clock once per request. Whether the game is paused is likewise
//! injected, read from the game-configuration collaborator by the caller.

use crate::accounts::{
    first_with_email, first_with_names, has_email, has_id, user_index, user_with_id, Accounts,
    ProfileField, UserDB,
};
use crate::crypto::{check_password, fresh_token, hash_password, password_verifies};
use crate::pending::{
    has_live, has_user, rec_for_user, rec_with_token, reclaim, token_present, without_token,
    without_user, Ledger, Payload, RESEND_INTERVAL,
};
use crate::sessions::{count_for, session_with, SessionDB, Sessions, SESSION_CAP, SESSION_TTL};
use crate::token::{get_token, jwt_claims, secret_ok, verify_token, Claims, TOKEN_TTL};
use crate::AuthError;
use vstd::prelude::*;

verus! {

/// Time-to-live of a registration email-verification record: one hour.
pub const VERIFICATION_TTL: u64 = 3600;

/// Time-to-live of a password-reset record: five minutes.
pub const RESET_TTL: u64 = 300;

/// Time-to-live of an email-change record: one hour.
pub const EMAIL_UPDATE_TTL: u64 = 3600;

/// Time-to-live of an account-deletion record: five minutes.
pub const DELETE_TTL: u64 = 300;

/// The latest instant the operations accept, leaving room for every
/// expiry computation below `u64::MAX`.
pub const MAX_OP_TIME: u64 = u64::MAX - SESSION_TTL;

/// Credentials presented at login.
#[derive(Debug)]
pub struct LoginData {
    pub email: String,
    pub plaintext_password: String,
}

/// The identity token presented at logout.
#[derive(Debug)]
pub struct LogoutData {
    pub jwt: String,
}

/// The fields of a new account.
#[derive(Debug)]
pub struct RegisterData {
    pub email: String,
    pub plaintext_password: String,
    pub first_name: String,
    pub last_name: String,
    /// `m` stands for gender `true` of the account record.
    pub gender: char,
}

/// A password-reset request: the account's email and the desired password.
#[derive(Debug)]
pub struct ResetData {
    pub email: String,
    pub plaintext_password: String,
}

/// An account-deletion request.
#[derive(Debug)]
pub struct DeleteData {
    pub email: String,
}

/// An authenticated single-value mutation aimed at one account.
#[derive(Debug)]
pub struct SimpleModifyData {
    pub jwt: String,
    pub new_value: String,
    pub account_id: u32,
}

/// An authenticated self-retrieval.
#[derive(Debug)]
pub struct RetrieveUserData {
    pub jwt: String,
}

/// A public retrieval by email.
#[derive(Debug)]
pub struct RetrieveUserEmailData {
    pub email: String,
}

/// A public retrieval by account id.
#[derive(Debug)]
pub struct RetrieveUserIdData {
    pub account_id: u32,
}

/// A public retrieval by first and last name.
#[derive(Debug)]
pub struct RetrieveUserNamesData {
    pub first_name: String,
    pub last_name: String,
}

/// The whole identity subsystem: accounts, sessions, the four workflow
/// ledgers, and the token-signing secret.
pub struct AuthSystem {
    secret: String,
    accounts: Accounts,
    sessions: Sessions,
    verifications: Ledger,
    password_resets: Ledger,
    email_updates: Ledger,
    delete_requests: Ledger,
}

impl AuthSystem {
    /// The base64 signing secret.
    pub closed spec fn secret(&self) -> Seq<char> {
        self.secret@
    }

    /// The live accounts.
    pub closed spec fn users(&self) -> Seq<UserDB> {
        self.accounts.users()
    }

    /// The archive of deleted accounts.
    pub closed spec fn archived(&self) -> Seq<UserDB> {
        self.accounts.archived()
    }

    /// The id the next registration will get.
    pub closed spec fn next_user_id(&self) -> u32 {
        self.accounts.next_id()
    }

    /// The live login sessions.
    pub closed spec fn sessions(&self) -> Seq<SessionDB> {
        self.sessions@
    }

    /// The registration email-verification ledger.
    pub closed spec fn verifications(&self) -> Seq<PendingChange> {
        self.verifications@
    }

    /// The password-reset ledger.
    pub closed spec fn password_resets(&self) -> Seq<PendingChange> {
        self.password_resets@
    }

    /// The email-change ledger.
    pub closed spec fn email_updates(&self) -> Seq<PendingChange> {
        self.email_updates@
    }

    /// The account-deletion ledger.
    pub closed spec fn delete_requests(&self) -> Seq<PendingChange> {
        self.delete_requests@
    }

    /// The system invariant: every component store is well formed, each
    /// ledger keeps its workflow's time-to-live and payload shape, and
    /// every session belongs to an existing account.
    pub closed spec fn wf(&self) -> bool {
        &&& self.accounts.wf()
        &&& self.sessions.wf()
        &&& self.verifications.wf()
        &&& self.password_resets.wf()
        &&& self.email_updates.wf()
        &&& self.delete_requests.wf()
        &&& self.verifications.ttl() == VERIFICATION_TTL
        &&& self.password_resets.ttl() == RESET_TTL
        &&& self.email_updates.ttl() == EMAIL_UPDATE_TTL
        &&& self.delete_requests.ttl() == DELETE_TTL
        &&& payloads_nothing(self.verifications())
        &&& payloads_password(self.password_resets())
        &&& payloads_email(self.email_updates())
        &&& payloads_nothing(self.delete_requests())
        &&& ledger_ids_below(self.verifications(), self.next_user_id())
        &&& sessions_ref_accounts(self.users(), self.sessions())
    }

    /// A fresh system around the given signing secret: no accounts, no
    /// sessions, no pending changes.
    pub fn new(secret: String) -> (r: AuthSystem)
        ensures
            r.wf(),
            r.secret() == secret@,
            r.users() == Seq::<UserDB>::empty(),
            r.archived() == Seq::<UserDB>::empty(),
            r.next_user_id() == 1,
            r.sessions() == Seq::<SessionDB>::empty(),
            r.verifications() == Seq::<PendingChange>::empty(),
            r.password_resets() == Seq::<PendingChange>::empty(),
            r.email_updates() == Seq::<PendingChange>::empty(),
            r.delete_requests() == Seq::<PendingChange>::empty(),
    {
        AuthSystem {
            secret,
            accounts: Accounts::new(),
            sessions: Sessions::new(),
            verifications: Ledger::new(VERIFICATION_TTL),
            password_resets: Ledger::new(RESET_TTL),
            email_updates: Ledger::new(EMAIL_UPDATE_TTL),
            delete_requests: Ledger::new(DELETE_TTL),
        }
    }
}

/// Every record of this ledger carries no payload.
pub open spec fn payloads_nothing(s: Seq<PendingChange>) -> bool {
    forall|i: int| 0 <= i < s.len() ==> (#[trigger] s[i].payload) is Nothing
}

/// Every record of this ledger carries a new password.
pub open spec fn payloads_password(s: Seq<PendingChange>) -> bool {
    forall|i: int| 0 <= i < s.len() ==> (#[trigger] s[i].payload) is NewPassword
}

/// Every record of this ledger carries a new email.
pub open spec fn payloads_email(s: Seq<PendingChange>) -> bool {
    forall|i: int| 0 <= i < s.len() ==> (#[trigger] s[i].payload) is NewEmail
}

/// Every record of this ledger belongs to an id below the counter.
pub open spec fn ledger_ids_below(s: Seq<PendingChange>, bound: u32) -> bool {
    forall|i: int| 0 <= i < s.len() ==> (#[trigger] s[i]).user_id < bound
}

/// Every session belongs to an existing account.
pub open spec fn sessions_ref_accounts(users: Seq<UserDB>, sess: Seq<SessionDB>) -> bool {
    forall|i: int| 0 <= i < sess.len() ==> has_id(users, (#[trigger] sess[i]).user_id)
}

/// The ledger invariants survive any record-wise shrinking.
proof fn lemma_ledger_subset_props(pre: Seq<PendingChange>, post: Seq<PendingChange>, bound: u32)
    requires
        forall|i: int|
            0 <= i < post.len() ==> exists|j: int| 0 <= j < pre.len() && pre[j] == #[trigger] post[i],
    ensures
        payloads_nothing(pre) ==> payloads_nothing(post),
        payloads_password(pre) ==> payloads_password(post),
        payloads_email(pre) ==> payloads_email(post),
        ledger_ids_below(pre, bound) ==> ledger_ids_below(post, bound),
{
    assert forall|i: int| 0 <= i < post.len() implies ((payloads_nothing(pre) ==> (
    #[trigger] post[i].payload) is Nothing) && (payloads_password(pre) ==> post[i].payload
        is NewPassword) && (payloads_email(pre) ==> post[i].payload is NewEmail) && (
    ledger_ids_below(pre, bound) ==> post[i].user_id < bound)) by {
        let j = choose|j: int| 0 <= j < pre.len() && pre[j] == post[i];
        assert(pre[j].payload == post[i].payload);
    }
}

/// The ledger invariants survive appending a conforming record.
proof fn lemma_ledger_push_props(s: Seq<PendingChange>, rec: PendingChange, bound: u32)
    ensures
        payloads_nothing(s) && rec.payload is Nothing ==> payloads_nothing(s.push(rec)),
        payloads_password(s) && rec.payload is NewPassword ==> payloads_password(s.push(rec)),
        payloads_email(s) && rec.payload is NewEmail ==> payloads_email(s.push(rec)),
        ledger_ids_below(s, bound) && rec.user_id < bound ==> ledger_ids_below(s.push(rec), bound),
{
    assert forall|i: int| 0 <= i < s.push(rec).len() implies ((payloads_nothing(s) && rec.payload
        is Nothing ==> (#[trigger] s.push(rec)[i].payload) is Nothing) && (payloads_password(s)
        && rec.payload is NewPassword ==> s.push(rec)[i].payload is NewPassword) && (
    payloads_email(s) && rec.payload is NewEmail ==> s.push(rec)[i].payload is NewEmail) && (
    ledger_ids_below(s, bound) && rec.user_id < bound ==> s.push(rec)[i].user_id < bound)) by {
        if i < s.len() {
            assert(s.push(rec)[i] == s[i]);
        } else {
            assert(s.push(rec)[i] == rec);
        }
    }
}

/// A larger id bound keeps the ledger invariant.
proof fn lemma_ledger_ids_below_grow(s: Seq<PendingChange>, b1: u32, b2: u32)
    requires
        ledger_ids_below(s, b1),
        b1 <= b2,
    ensures
        ledger_ids_below(s, b2),
{
}

/// Sessions still reference their accounts after one more session of an
/// existing account.
proof fn lemma_sessions_ref_push(users: Seq<UserDB>, sess: Seq<SessionDB>, rec: SessionDB)
    requires
        sessions_ref_accounts(users, sess),
        has_id(users, rec.user_id),
    ensures
        sessions_ref_accounts(users, sess.push(rec)),
{
    assert forall|i: int| 0 <= i < sess.push(rec).len() implies has_id(
        users,
        (#[trigger] sess.push(rec)[i]).user_id,
    ) by {
        if i < sess.len() {
            assert(sess.push(rec)[i] == sess[i]);
            assert(has_id(users, sess[i].user_id));
        } else {
            assert(sess.push(rec)[i] == rec);
        }
    }
}

/// Sessions still reference their accounts after the account store grew.
proof fn lemma_sessions_ref_users_grow(
    users: Seq<UserDB>,
    users2: Seq<UserDB>,
    sess: Seq<SessionDB>,
)
    requires
        sessions_ref_accounts(users, sess),
        forall|v: u32| #[trigger] has_id(users, v) ==> has_id(users2, v),
    ensures
        sessions_ref_accounts(users2, sess),
{
    assert forall|i: int| 0 <= i < sess.len() implies has_id(
        users2,
        (#[trigger] sess[i]).user_id,
    ) by {
        assert(has_id(users, sess[i].user_id));
    }
}

/// Sessions still reference their accounts after some were revoked.
proof fn lemma_sessions_ref_shrink(
    users: Seq<UserDB>,
    sess: Seq<SessionDB>,
    sess2: Seq<SessionDB>,
)
    requires
        sessions_ref_accounts(users, sess),
        forall|i: int|
            0 <= i < sess2.len() ==> exists|j: int| 0 <= j < sess.len() && sess[j] == #[trigger] sess2[i],
    ensures
        sessions_ref_accounts(users, sess2),
{
    assert forall|i: int| 0 <= i < sess2.len() implies has_id(
        users,
        (#[trigger] sess2[i]).user_id,
    ) by {
        let j = choose|j: int| 0 <= j < sess.len() && sess[j] == sess2[i];
        assert(has_id(users, sess[j].user_id));
    }
}

/// The rejection `require_session` owes for this token at this time, if
/// any: a broken or expired token, a revoked session, or a session past
/// its own lifetime.
pub open spec fn session_check_error(s: AuthSystem, jwt: Seq<char>, now: u64) -> Option<AuthError> {
    if !secret_ok(s.secret()) || jwt_claims(s.secret(), jwt) is None {
        Some(AuthError::InvalidToken)
    } else {
        let c = jwt_claims(s.secret(), jwt)->Some_0;
        if now > c.2 {
            Some(AuthError::InvalidToken)
        } else if !crate::sessions::token_present(s.sessions(), c.1) {
            Some(AuthError::SessionNotFound)
        } else if now > session_with(s.sessions(), c.1).valid_until {
            Some(AuthError::SessionExpired)
        } else {
            None
        }
    }
}

/// The rejection `require_admin` owes: the session checks, then the
/// caller's account must exist and carry the admin flag.
pub open spec fn admin_check_error(s: AuthSystem, jwt: Seq<char>, now: u64) -> Option<AuthError> {
    match session_check_error(s, jwt, now) {
        Some(e) => Some(e),
        None => {
            let uid = jwt_claims(s.secret(), jwt)->Some_0.0;
            if !has_id(s.users(), uid) {
                Some(AuthError::UserNotFound)
            } else if !user_with_id(s.users(), uid).admin {
                Some(AuthError::NotAdmin)
            } else {
                None
            }
        },
    }
}

/// The rejection `require_self_or_admin` owes: the session checks, then
/// the caller must be the target account or an administrator.
pub open spec fn self_or_admin_check_error(
    s: AuthSystem,
    jwt: Seq<char>,
    target: u32,
    now: u64,
) -> Option<AuthError> {
    match session_check_error(s, jwt, now) {
        Some(e) => Some(e),
        None => {
            let uid = jwt_claims(s.secret(), jwt)->Some_0.0;
            if !has_id(s.users(), uid) {
                Some(AuthError::UserNotFound)
            } else if uid != target && !user_with_id(s.users(), uid).admin {
                Some(AuthError::Forbidden)
            } else {
                None
            }
        },
    }
}

/// The domain rejection `login` owes, in order: unknown email, the pause
/// guard (administrators are exempt), an unverified account, the session
/// cap, a wrong password.
pub open spec fn login_domain_error(
    s: AuthSystem,
    email: Seq<char>,
    password: Seq<char>,
    paused: bool,
    now: u64,
) -> Option<AuthError> {
    match first_with_email(s.users(), email) {
        None => Some(AuthError::UserNotFound),
        Some(u) => {
            if paused && !u.admin {
                Some(AuthError::GamePaused)
            } else if !u.verified {
                Some(AuthError::NotVerified)
            } else if count_for(s.sessions(), u.user_id) >= SESSION_CAP {
                Some(AuthError::SessionLimitExceeded)
            } else if !password_verifies(u.password@, password) {
                Some(AuthError::WrongPassword)
            } else {
                None
            }
        },
    }
}

/// A session store grew by exactly one record with these fields.
pub open spec fn session_added(
    pre: Seq<SessionDB>,
    post: Seq<SessionDB>,
    u: u32,
    now: u64,
) -> bool {
    &&& post.len() == pre.len() + 1
    &&& post.subrange(0, pre.len() as int) == pre
    &&& !crate::sessions::token_present(pre, post.last().session_token@)
    &&& post.last().user_id == u
    &&& post.last().timestamp == now
    &&& post.last().valid_until == now + SESSION_TTL
}

/// A ledger grew by exactly one record for this user, stamped `now`, with
/// this time-to-live; the payload is stated by each workflow separately.
pub open spec fn ledger_extended(
    pre: Seq<PendingChange>,
    post: Seq<PendingChange>,
    u: u32,
    now: u64,
    ttl: u64,
) -> bool {
    &&& post.len() == pre.len() + 1
    &&& post.subrange(0, pre.len() as int) == pre
    &&& !token_present(pre, post.last().token@)
    &&& post.last().user_id == u
    &&& post.last().created_at == now
    &&& post.last().expires_at == now + ttl
}

use crate::pending::PendingChange;

impl AuthSystem {
    /// The guard every authenticated call goes through: token signature and
    /// expiry, then the live session the token names, then that session's
    /// own expiry. The claims come back for the caller to act on.
    pub fn require_session(&self, jwt: &str, now: u64) -> (r: Result<Claims, AuthError>)
        requires
            self.wf(),
        ensures
            session_check_error(*self, jwt@, now) matches Some(e) ==> r == Err::<Claims, AuthError>(
                e,
            ),
            session_check_error(*self, jwt@, now) is None ==> (r matches Ok(c) && Some(
                (c.uid, c.token@, c.exp),
            ) == jwt_claims(self.secret(), jwt@) && now <= c.exp),
    {
        let claims = match verify_token(self.secret.as_str(), jwt, now) {
            Ok(c) => c,
            Err(_) => {
                return Err(AuthError::InvalidToken);
            },
        };
        let sess = match self.sessions.get_session_by_token(claims.token.as_str()) {
            Some(s) => s,
            None => {
                return Err(AuthError::SessionNotFound);
            },
        };
        proof {
            let t = claims.token@;
            let k = choose|k: int|
                0 <= k < self.sessions().len() && self.sessions()[k].session_token@ == t;
            let j = choose|j: int| 0 <= j < self.sessions().len() && self.sessions()[j] == *sess;
            if k != j {
                assert(self.sessions()[k].session_token@ != self.sessions()[j].session_token@);
            }
            assert(session_with(self.sessions(), t) == *sess);
        }
        if now > sess.valid_until {
            return Err(AuthError::SessionExpired);
        }
        Ok(claims)
    }

    /// The guard for administrative calls: a valid session whose account
    /// exists and carries the admin flag.
    pub fn require_admin(&self, jwt: &str, now: u64) -> (r: Result<Claims, AuthError>)
        requires
            self.wf(),
        ensures
            admin_check_error(*self, jwt@, now) matches Some(e) ==> r == Err::<Claims, AuthError>(
                e,
            ),
            admin_check_error(*self, jwt@, now) is None ==> (r matches Ok(c) && Some(
                (c.uid, c.token@, c.exp),
            ) == jwt_claims(self.secret(), jwt@) && has_id(self.users(), c.uid) && user_with_id(
                self.users(),
                c.uid,
            ).admin),
    {
        let claims = match self.require_session(jwt, now) {
            Ok(c) => c,
            Err(e) => {
                return Err(e);
            },
        };
        let user = match self.accounts.get_user_by_id(claims.uid) {
            Some(u) => u,
            None => {
                return Err(AuthError::UserNotFound);
            },
        };
        if !user.admin {
            return Err(AuthError::NotAdmin);
        }
        Ok(claims)
    }

    /// The guard for owner-or-administrator calls.
    pub fn require_self_or_admin(&self, jwt: &str, target: u32, now: u64) -> (r: Result<
        Claims,
        AuthError,
    >)
        requires
            self.wf(),
        ensures
            self_or_admin_check_error(*self, jwt@, target, now) matches Some(e) ==> r == Err::<
                Claims,
                AuthError,
            >(e),
            self_or_admin_check_error(*self, jwt@, target, now) is None ==> (r matches Ok(c)
                && Some((c.uid, c.token@, c.exp)) == jwt_claims(self.secret(), jwt@) && (c.uid
                == target || user_with_id(self.users(), c.uid).admin)),
    {
        let claims = match self.require_session(jwt, now) {
            Ok(c) => c,
            Err(e) => {
                return Err(e);
            },
        };
        let user = match self.accounts.get_user_by_id(claims.uid) {
            Some(u) => u,
            None => {
                return Err(AuthError::UserNotFound);
            },
        };
        if claims.uid != target && !user.admin {
            return Err(AuthError::Forbidden);
        }
        Ok(claims)
    }

    /// A login: checks the account, the pause guard, verification, the
    /// session cap and the password, then starts a session and issues the
    /// signed identity token for it. A rejected login leaves every
    /// existing session untouched.
    pub fn login(&mut self, data: &LoginData, paused: bool, now: u64) -> (r: Result<
        String,
        AuthError,
    >)
        requires
            old(self).wf(),
            now <= MAX_OP_TIME,
        ensures
            final(self).wf(),
            final(self).secret() == old(self).secret(),
            final(self).users() == old(self).users(),
            final(self).archived() == old(self).archived(),
            final(self).next_user_id() == old(self).next_user_id(),
            final(self).verifications() == old(self).verifications(),
            final(self).password_resets() == old(self).password_resets(),
            final(self).email_updates() == old(self).email_updates(),
            final(self).delete_requests() == old(self).delete_requests(),
            login_domain_error(*old(self), data.email@, data.plaintext_password@, paused, now)
                matches Some(e) ==> r == Err::<String, AuthError>(e) && final(self).sessions()
                == old(self).sessions(),
            login_domain_error(*old(self), data.email@, data.plaintext_password@, paused, now)
                is None ==> match r {
                Ok(jwt) => {
                    &&& secret_ok(old(self).secret())
                    &&& session_added(
                        old(self).sessions(),
                        final(self).sessions(),
                        first_with_email(old(self).users(), data.email@)->Some_0.user_id,
                        now,
                    )
                    &&& jwt@ == crate::token::jwt_of(
                        old(self).secret(),
                        first_with_email(old(self).users(), data.email@)->Some_0.user_id,
                        final(self).sessions().last().session_token@,
                        (now + TOKEN_TTL) as u64,
                    )
                    &&& jwt_claims(old(self).secret(), jwt@) == Some(
                        (
                            first_with_email(old(self).users(), data.email@)->Some_0.user_id,
                            final(self).sessions().last().session_token@,
                            (now + TOKEN_TTL) as u64,
                        ),
                    )
                    &&& count_for(
                        final(self).sessions(),
                        first_with_email(old(self).users(), data.email@)->Some_0.user_id,
                    ) == count_for(
                        old(self).sessions(),
                        first_with_email(old(self).users(), data.email@)->Some_0.user_id,
                    ) + 1
                },
                Err(e) => (e == AuthError::ConfigurationError || e == AuthError::InternalError)
                    && final(self).sessions() == old(self).sessions() && (e
                    == AuthError::ConfigurationError <==> !secret_ok(old(self).secret())),
            },
    {
        let (uid, is_admin, verified, pw_hash) = match self.accounts.get_user_by_email(
            data.email.as_str(),
        ) {
            Some(u) => (u.user_id, u.admin, u.verified, u.password.clone()),
            None => {
                return Err(AuthError::UserNotFound);
            },
        };
        if paused && !is_admin {
            return Err(AuthError::GamePaused);
        }
        if !verified {
            return Err(AuthError::NotVerified);
        }
        if self.sessions.get_session_count(uid) >= SESSION_CAP {
            return Err(AuthError::SessionLimitExceeded);
        }
        if !check_password(pw_hash.as_str(), data.plaintext_password.as_str()) {
            return Err(AuthError::WrongPassword);
        }
        let session_token = fresh_token();
        let jwt = match get_token(self.secret.as_str(), uid, session_token.as_str(), now) {
            Ok(j) => j,
            Err(e) => {
                return Err(e);
            },
        };
        let ghost pre = self.sessions@;
        match self.sessions.start_session(uid, session_token, now) {
            Ok(_) => {
                proof {
                    crate::accounts::lemma_first_email_mem(self.users(), data.email@);
                    assert(pre.push(self.sessions@.last()).subrange(0, pre.len() as int) =~= pre);
                    assert(count_for(self.sessions@, uid) == count_for(pre, uid) + 1) by {
                        assert(self.sessions@.drop_last() =~= pre);
                    }
                    assert(has_id(self.users(), uid)) by {
                        let i = choose|i: int|
                            0 <= i < self.users().len() && self.users()[i]
                                == first_with_email(self.users(), data.email@)->Some_0
                                && first_with_email(self.users(), data.email@)->Some_0.email@
                                == data.email@;
                        assert(self.users()[i].user_id == uid);
                    }
                    lemma_sessions_ref_push(self.users(), pre, self.sessions@.last());
                    assert(pre.push(self.sessions@.last()) =~= self.sessions@);
                }
                Ok(jwt)
            },
            Err(e) => Err(e),
        }
    }

    /// A logout: the full session guard, then the one session the token
    /// names is revoked. Doing so twice reports the session as not found.
    pub fn logout(&mut self, data: &LogoutData, now: u64) -> (r: Result<(), AuthError>)
        requires
            old(self).wf(),
        ensures
            final(self).wf(),
            final(self).secret() == old(self).secret(),
            final(self).users() == old(self).users(),
            final(self).archived() == old(self).archived(),
            final(self).next_user_id() == old(self).next_user_id(),
            final(self).verifications() == old(self).verifications(),
            final(self).password_resets() == old(self).password_resets(),
            final(self).email_updates() == old(self).email_updates(),
            final(self).delete_requests() == old(self).delete_requests(),
            session_check_error(*old(self), data.jwt@, now) matches Some(e) ==> r == Err::<
                (),
                AuthError,
            >(e) && final(self).sessions() == old(self).sessions(),
            session_check_error(*old(self), data.jwt@, now) is None ==> r is Ok && final(self).sessions() == crate::sessions::without_token(
                old(self).sessions(),
                jwt_claims(old(self).secret(), data.jwt@)->Some_0.1,
            ),
    {
        let claims = match self.require_session(data.jwt.as_str(), now) {
            Ok(c) => c,
            Err(e) => {
                return Err(e);
            },
        };
        self.sessions.stop_session(claims.token.as_str());
        proof {
            crate::sessions::lemma_without_token_elts(old(self).sessions(), claims.token@);
            lemma_sessions_ref_shrink(self.users(), old(self).sessions(), self.sessions@);
        }
        Ok(())
    }

    /// A registration: refuses a taken email, creates the account (hashed
    /// credential, unverified, not an administrator) and opens its
    /// email-verification window. The caller hands the returned token to
    /// the notifier; a later send failure leaves the account in place.
    pub fn begin_registration(&mut self, data: &RegisterData, now: u64) -> (r: Result<
        (u32, String),
        AuthError,
    >)
        requires
            old(self).wf(),
            now <= MAX_OP_TIME,
        ensures
            final(self).wf(),
            final(self).secret() == old(self).secret(),
            final(self).sessions() == old(self).sessions(),
            final(self).archived() == old(self).archived(),
            final(self).password_resets() == old(self).password_resets(),
            final(self).email_updates() == old(self).email_updates(),
            final(self).delete_requests() == old(self).delete_requests(),
            r == Err::<(u32, String), AuthError>(AuthError::EmailTaken) <==> has_email(
                old(self).users(),
                data.email@,
            ),
            r matches Err(e) ==> e == AuthError::EmailTaken || e == AuthError::InternalError,
            r == Err::<(u32, String), AuthError>(AuthError::EmailTaken) ==> final(self).users()
                == old(self).users() && final(self).verifications() == old(self).verifications()
                && final(self).next_user_id() == old(self).next_user_id(),
            r == Err::<(u32, String), AuthError>(AuthError::InternalError) ==> final(self).verifications() == old(self).verifications() && (final(self).users() == old(self).users() || (final(self).users().len() == old(self).users().len() + 1 && final(self).users().subrange(0, old(self).users().len() as int) == old(self).users())),
            r matches Ok(p) ==> ({
                &&& p.0 == old(self).next_user_id()
                &&& final(self).next_user_id() == old(self).next_user_id() + 1
                &&& final(self).users().len() == old(self).users().len() + 1
                &&& final(self).users().subrange(0, old(self).users().len() as int) == old(self).users()
                &&& final(self).users().last().user_id == p.0
                &&& final(self).users().last().email@ == data.email@
                &&& final(self).users().last().first_name@ == data.first_name@
                &&& final(self).users().last().last_name@ == data.last_name@
                &&& final(self).users().last().gender == (data.gender == 'm')
                &&& !final(self).users().last().verified
                &&& !final(self).users().last().admin
                &&& password_verifies(
                    final(self).users().last().password@,
                    data.plaintext_password@,
                )
                &&& ledger_extended(
                    old(self).verifications(),
                    final(self).verifications(),
                    p.0,
                    now,
                    VERIFICATION_TTL,
                )
                &&& final(self).verifications().last().token@ == p.1@
                &&& final(self).verifications().last().payload is Nothing
            }),
    {
        if self.accounts.email_taken(data.email.as_str()) {
            return Err(AuthError::EmailTaken);
        }
        let hash = match hash_password(data.plaintext_password.as_str()) {
            Some(h) => h,
            None => {
                return Err(AuthError::InternalError);
            },
        };
        let id = match self.accounts.create_user(
            data.first_name.clone(),
            data.last_name.clone(),
            data.email.clone(),
            hash,
            data.gender == 'm',
        ) {
            Ok(id) => id,
            Err(e) => {
                return Err(e);
            },
        };
        proof {
            if has_live(self.verifications@, id, now) {
                let j = choose|j: int|
                    0 <= j < self.verifications@.len() && self.verifications@[j].user_id == id
                        && now <= self.verifications@[j].expires_at;
                assert(old(self).verifications()[j].user_id < id);
                assert(false);
            }
            if has_user(self.verifications@, id) {
                let j = choose|j: int|
                    0 <= j < self.verifications@.len() && self.verifications@[j].user_id == id;
                assert(old(self).verifications()[j].user_id < id);
                assert(false);
            }
            assert(reclaim(self.verifications@, id, now) == self.verifications@);
            assert forall|v: u32| #[trigger] has_id(old(self).users(), v) implies has_id(
                self.accounts.users(),
                v,
            ) by {
                crate::accounts::lemma_push_keeps_has_id(
                    old(self).users(),
                    self.accounts.users().last(),
                    v,
                );
                assert(old(self).users().push(self.accounts.users().last())
                    =~= self.accounts.users());
            }
            lemma_sessions_ref_users_grow(
                old(self).users(),
                self.accounts.users(),
                self.sessions@,
            );
            lemma_ledger_ids_below_grow(
                self.verifications@,
                old(self).next_user_id(),
                self.accounts.next_id(),
            );
        }
        let ghost verifs_pre = self.verifications@;
        match self.verifications.begin(id, Payload::Nothing, now) {
            Ok(token) => {
                proof {
                    assert(self.verifications@.subrange(
                        0,
                        old(self).verifications().len() as int,
                    ) =~= old(self).verifications());
                    lemma_ledger_push_props(
                        verifs_pre,
                        self.verifications@.last(),
                        self.accounts.next_id(),
                    );
                    assert(verifs_pre.push(self.verifications@.last()) =~= self.verifications@);
                }
                Ok((id, token))
            },
            Err(e) => Err(e),
        }
    }

    /// Confirms a registration: the single-use token marks the account
    /// verified; an expired or unknown token changes no account, and an
    /// expired record is discarded.
    pub fn confirm_registration(&mut self, token: &str, now: u64) -> (r: Result<u32, AuthError>)
        requires
            old(self).wf(),
        ensures
            final(self).wf(),
            final(self).secret() == old(self).secret(),
            final(self).sessions() == old(self).sessions(),
            final(self).archived() == old(self).archived(),
            final(self).next_user_id() == old(self).next_user_id(),
            final(self).password_resets() == old(self).password_resets(),
            final(self).email_updates() == old(self).email_updates(),
            final(self).delete_requests() == old(self).delete_requests(),
            r == Err::<u32, AuthError>(AuthError::TokenNotFound) <==> !token_present(
                old(self).verifications(),
                token@,
            ),
            !token_present(old(self).verifications(), token@) ==> final(self).verifications()
                == old(self).verifications(),
            token_present(old(self).verifications(), token@) ==> final(self).verifications()
                == without_token(old(self).verifications(), token@),
            r == Err::<u32, AuthError>(AuthError::Expired) <==> token_present(
                old(self).verifications(),
                token@,
            ) && now > rec_with_token(old(self).verifications(), token@).expires_at,
            r matches Err(e) ==> (e == AuthError::TokenNotFound || e == AuthError::Expired || e
                == AuthError::UserNotFound) && final(self).users() == old(self).users(),
            r == Err::<u32, AuthError>(AuthError::UserNotFound) <==> token_present(
                old(self).verifications(),
                token@,
            ) && now <= rec_with_token(old(self).verifications(), token@).expires_at && !has_id(
                old(self).users(),
                rec_with_token(old(self).verifications(), token@).user_id,
            ),
            r matches Ok(uid) ==> ({
                &&& token_present(old(self).verifications(), token@)
                &&& now <= rec_with_token(old(self).verifications(), token@).expires_at
                &&& uid == rec_with_token(old(self).verifications(), token@).user_id
                &&& has_id(old(self).users(), uid)
                &&& final(self).users() == old(self).users().update(
                    user_index(old(self).users(), uid),
                    (UserDB { verified: true, ..user_with_id(old(self).users(), uid) }),
                )
            }),
    {
        let (uid, _payload) = match self.verifications.confirm(token, now) {
            Ok(c) => c,
            Err(e) => {
                proof {
                    crate::pending::lemma_without_token_elts(old(self).verifications(), token@);
                    if token_present(old(self).verifications(), token@) {
                        lemma_ledger_subset_props(
                            old(self).verifications(),
                            self.verifications@,
                            old(self).next_user_id(),
                        );
                    }
                }
                return Err(e);
            },
        };
        proof {
            crate::pending::lemma_without_token_elts(old(self).verifications(), token@);
            if token_present(old(self).verifications(), token@) {
                lemma_ledger_subset_props(
                    old(self).verifications(),
                    self.verifications@,
                    old(self).next_user_id(),
                );
            }
        }
        match self.accounts.update_user_verification_status(uid) {
            Ok(_) => {
                proof {
                    let idx = user_index(old(self).users(), uid);
                    assert forall|v: u32| #[trigger] has_id(old(self).users(), v) implies has_id(
                        self.accounts.users(),
                        v,
                    ) by {
                        crate::accounts::lemma_update_same_id_has_id(
                            old(self).users(),
                            idx,
                            self.accounts.users()[idx],
                            v,
                        );
                        assert(old(self).users().update(idx, self.accounts.users()[idx])
                            =~= self.accounts.users());
                    }
                    lemma_sessions_ref_users_grow(
                        old(self).users(),
                        self.accounts.users(),
                        self.sessions@,
                    );
                }
                Ok(uid)
            },
            Err(e) => Err(e),
        }
    }

    /// Rotates and re-issues a registration verification token, refusing a
    /// resend within `RESEND_INTERVAL` of the record's creation.
    pub fn resend_verification(&mut self, account_id: u32, now: u64) -> (r: Result<
        String,
        AuthError,
    >)
        requires
            old(self).wf(),
            now <= MAX_OP_TIME,
        ensures
            final(self).wf(),
            final(self).secret() == old(self).secret(),
            final(self).users() == old(self).users(),
            final(self).archived() == old(self).archived(),
            final(self).next_user_id() == old(self).next_user_id(),
            final(self).sessions() == old(self).sessions(),
            final(self).password_resets() == old(self).password_resets(),
            final(self).email_updates() == old(self).email_updates(),
            final(self).delete_requests() == old(self).delete_requests(),
            r == Err::<String, AuthError>(AuthError::UserNotFound) <==> !has_id(
                old(self).users(),
                account_id,
            ),
            r == Err::<String, AuthError>(AuthError::TokenNotFound) <==> has_id(
                old(self).users(),
                account_id,
            ) && !has_user(old(self).verifications(), account_id),
            r == Err::<String, AuthError>(AuthError::TooFast) <==> has_id(
                old(self).users(),
                account_id,
            ) && has_user(old(self).verifications(), account_id) && now < rec_for_user(
                old(self).verifications(),
                account_id,
            ).created_at + RESEND_INTERVAL,
            r matches Err(e) ==> e == AuthError::UserNotFound || e == AuthError::TokenNotFound || e
                == AuthError::TooFast || e == AuthError::InternalError,
            (r == Err::<String, AuthError>(AuthError::UserNotFound) || r == Err::<
                String,
                AuthError,
            >(AuthError::TokenNotFound) || r == Err::<String, AuthError>(AuthError::TooFast))
                ==> final(self).verifications() == old(self).verifications(),
            r == Err::<String, AuthError>(AuthError::InternalError) ==> final(self).verifications()
                == without_user(old(self).verifications(), account_id),
            r matches Ok(t) ==> ({
                &&& has_id(old(self).users(), account_id)
                &&& has_user(old(self).verifications(), account_id)
                &&& ledger_extended(
                    without_user(old(self).verifications(), account_id),
                    final(self).verifications(),
                    account_id,
                    now,
                    VERIFICATION_TTL,
                )
                &&& final(self).verifications().last().token@ == t@
                &&& final(self).verifications().last().payload is Nothing
            }),
    {
        if self.accounts.get_user_by_id(account_id).is_none() {
            return Err(AuthError::UserNotFound);
        }
        proof {
            let i = choose|i: int|
                0 <= i < old(self).users().len() && old(self).users()[i].user_id == account_id;
            assert(old(self).users()[i].user_id < old(self).next_user_id());
            if has_user(old(self).verifications(), account_id) {
                let k = choose|k: int|
                    0 <= k < old(self).verifications().len() && old(self).verifications()[k].user_id == account_id;
                assert(rec_for_user(old(self).verifications(), account_id).payload is Nothing);
            }
            crate::pending::lemma_without_user_elts(old(self).verifications(), account_id);
        }
        let ghost without = without_user(old(self).verifications(), account_id);
        proof {
            lemma_ledger_subset_props(
                old(self).verifications(),
                without,
                old(self).next_user_id(),
            );
        }
        match self.verifications.resend(account_id, now) {
            Ok(t) => {
                proof {
                    assert(self.verifications@.subrange(0, without.len() as int) =~= without);
                    lemma_ledger_push_props(
                        without,
                        self.verifications@.last(),
                        self.accounts.next_id(),
                    );
                    assert(without.push(self.verifications@.last()) =~= self.verifications@);
                }
                Ok(t)
            },
            Err(e) => Err(e),
        }
    }

    /// Opens a password reset: refused while the game is paused, for an
    /// unknown email, or while a live reset is already pending; otherwise a
    /// reset record carrying the hash of the desired password is inserted
    /// and its token returned for the notifier.
    pub fn begin_password_reset(&mut self, data: &ResetData, paused: bool, now: u64) -> (r: Result<
        String,
        AuthError,
    >)
        requires
            old(self).wf(),
            now <= MAX_OP_TIME,
        ensures
            final(self).wf(),
            final(self).secret() == old(self).secret(),
            final(self).users() == old(self).users(),
            final(self).archived() == old(self).archived(),
            final(self).next_user_id() == old(self).next_user_id(),
            final(self).sessions() == old(self).sessions(),
            final(self).verifications() == old(self).verifications(),
            final(self).email_updates() == old(self).email_updates(),
            final(self).delete_requests() == old(self).delete_requests(),
            r == Err::<String, AuthError>(AuthError::GamePaused) <==> paused,
            r == Err::<String, AuthError>(AuthError::UserNotFound) <==> !paused && first_with_email(
                old(self).users(),
                data.email@,
            ) is None,
            r == Err::<String, AuthError>(AuthError::AlreadyInProgress) <==> !paused
                && first_with_email(old(self).users(), data.email@) is Some && has_live(
                old(self).password_resets(),
                first_with_email(old(self).users(), data.email@)->Some_0.user_id,
                now,
            ),
            r matches Err(e) ==> e == AuthError::GamePaused || e == AuthError::UserNotFound || e
                == AuthError::AlreadyInProgress || e == AuthError::InternalError,
            (r == Err::<String, AuthError>(AuthError::GamePaused) || r == Err::<String, AuthError>(
                AuthError::UserNotFound,
            ) || r == Err::<String, AuthError>(AuthError::AlreadyInProgress)) ==> final(self).password_resets() == old(self).password_resets(),
            r matches Ok(t) ==> ({
                let uid = first_with_email(old(self).users(), data.email@)->Some_0.user_id;
                &&& !paused
                &&& first_with_email(old(self).users(), data.email@) is Some
                &&& !has_live(old(self).password_resets(), uid, now)
                &&& ledger_extended(
                    reclaim(old(self).password_resets(), uid, now),
                    final(self).password_resets(),
                    uid,
                    now,
                    RESET_TTL,
                )
                &&& final(self).password_resets().last().token@ == t@
                &&& (final(self).password_resets().last().payload matches Payload::NewPassword(h)
                    && password_verifies(h@, data.plaintext_password@))
            }),
    {
        if paused {
            return Err(AuthError::GamePaused);
        }
        let uid = match self.accounts.get_user_by_email(data.email.as_str()) {
            Some(u) => u.user_id,
            None => {
                return Err(AuthError::UserNotFound);
            },
        };
        if self.password_resets.has_live_record(uid, now) {
            return Err(AuthError::AlreadyInProgress);
        }
        let hash = match hash_password(data.plaintext_password.as_str()) {
            Some(h) => h,
            None => {
                return Err(AuthError::InternalError);
            },
        };
        let ghost pre = self.password_resets@;
        proof {
            if has_user(pre, uid) && !has_live(pre, uid, now) {
                crate::pending::lemma_without_user_elts(pre, uid);
            }
            lemma_ledger_subset_props(pre, reclaim(pre, uid, now), 0);
        }
        match self.password_resets.begin(uid, Payload::NewPassword(hash), now) {
            Ok(t) => {
                proof {
                    let base = reclaim(pre, uid, now);
                    assert(self.password_resets@.subrange(0, base.len() as int) =~= base);
                    lemma_ledger_push_props(base, self.password_resets@.last(), 0);
                    assert(base.push(self.password_resets@.last()) =~= self.password_resets@);
                }
                Ok(t)
            },
            Err(e) => Err(e),
        }
    }

    /// Confirms a password reset: the single-use token installs the hashed
    /// password it was begun with and revokes every session of the account,
    /// so every previously issued identity token stops working at once.
    pub fn confirm_password_reset(&mut self, token: &str, now: u64) -> (r: Result<u32, AuthError>)
        requires
            old(self).wf(),
        ensures
            final(self).wf(),
            final(self).secret() == old(self).secret(),
            final(self).archived() == old(self).archived(),
            final(self).next_user_id() == old(self).next_user_id(),
            final(self).verifications() == old(self).verifications(),
            final(self).email_updates() == old(self).email_updates(),
            final(self).delete_requests() == old(self).delete_requests(),
            r == Err::<u32, AuthError>(AuthError::TokenNotFound) <==> !token_present(
                old(self).password_resets(),
                token@,
            ),
            !token_present(old(self).password_resets(), token@) ==> final(self).password_resets()
                == old(self).password_resets(),
            token_present(old(self).password_resets(), token@) ==> final(self).password_resets()
                == without_token(old(self).password_resets(), token@),
            r == Err::<u32, AuthError>(AuthError::Expired) <==> token_present(
                old(self).password_resets(),
                token@,
            ) && now > rec_with_token(old(self).password_resets(), token@).expires_at,
            r matches Err(e) ==> (e == AuthError::TokenNotFound || e == AuthError::Expired || e
                == AuthError::UserNotFound) && final(self).users() == old(self).users() && final(self).sessions() == old(self).sessions(),
            r == Err::<u32, AuthError>(AuthError::UserNotFound) <==> token_present(
                old(self).password_resets(),
                token@,
            ) && now <= rec_with_token(old(self).password_resets(), token@).expires_at && !has_id(
                old(self).users(),
                rec_with_token(old(self).password_resets(), token@).user_id,
            ),
            r matches Ok(uid) ==> ({
                &&& token_present(old(self).password_resets(), token@)
                &&& now <= rec_with_token(old(self).password_resets(), token@).expires_at
                &&& uid == rec_with_token(old(self).password_resets(), token@).user_id
                &&& has_id(old(self).users(), uid)
                &&& final(self).users() == old(self).users().update(
                    user_index(old(self).users(), uid),
                    (UserDB {
                        password: rec_with_token(
                            old(self).password_resets(),
                            token@,
                        ).payload->NewPassword_0,
                        ..user_with_id(old(self).users(), uid)
                    }),
                )
                &&& final(self).sessions() == crate::sessions::without_user(
                    old(self).sessions(),
                    uid,
                )
            }),
    {
        let (uid, payload) = match self.password_resets.confirm(token, now) {
            Ok(c) => c,
            Err(e) => {
                proof {
                    crate::pending::lemma_without_token_elts(old(self).password_resets(), token@);
                    if token_present(old(self).password_resets(), token@) {
                        lemma_ledger_subset_props(
                            old(self).password_resets(),
                            self.password_resets@,
                            0,
                        );
                    }
                }
                return Err(e);
            },
        };
        proof {
            crate::pending::lemma_without_token_elts(old(self).password_resets(), token@);
            lemma_ledger_subset_props(old(self).password_resets(), self.password_resets@, 0);
        }
        let hash = match payload {
            Payload::NewPassword(h) => h,
            _ => {
                proof {
                    let k = choose|k: int|
                        0 <= k < old(self).password_resets().len() && old(self).password_resets()[k].token@ == token@;
                    assert(old(self).password_resets()[k].payload is NewPassword);
                    assert(false);
                }
                return Err(AuthError::InternalError);
            },
        };
        match self.accounts.update_user_password(uid, hash) {
            Ok(_) => {
                self.sessions.stop_all_sessions(uid);
                proof {
                    let idx = user_index(old(self).users(), uid);
                    assert forall|v: u32| #[trigger] has_id(old(self).users(), v) implies has_id(
                        self.accounts.users(),
                        v,
                    ) by {
                        crate::accounts::lemma_update_same_id_has_id(
                            old(self).users(),
                            idx,
                            self.accounts.users()[idx],
                            v,
                        );
                        assert(old(self).users().update(idx, self.accounts.users()[idx])
                            =~= self.accounts.users());
                    }
                    crate::sessions::lemma_without_user_elts(old(self).sessions(), uid);
                    lemma_sessions_ref_shrink(
                        old(self).users(),
                        old(self).sessions(),
                        self.sessions@,
                    );
                    lemma_sessions_ref_users_grow(
                        old(self).users(),
                        self.accounts.users(),
                        self.sessions@,
                    );
                }
                Ok(uid)
            },
            Err(e) => Err(e),
        }
    }

    /// Opens an email change for the authenticated caller; refused while a
    /// live change is already pending. The new address travels in the
    /// record and is applied only on confirmation.
    pub fn begin_email_change(&mut self, jwt: &str, new_email: &str, now: u64) -> (r: Result<
        String,
        AuthError,
    >)
        requires
            old(self).wf(),
            now <= MAX_OP_TIME,
        ensures
            final(self).wf(),
            final(self).secret() == old(self).secret(),
            final(self).users() == old(self).users(),
            final(self).archived() == old(self).archived(),
            final(self).next_user_id() == old(self).next_user_id(),
            final(self).sessions() == old(self).sessions(),
            final(self).verifications() == old(self).verifications(),
            final(self).password_resets() == old(self).password_resets(),
            final(self).delete_requests() == old(self).delete_requests(),
            session_check_error(*old(self), jwt@, now) matches Some(e) ==> r == Err::<
                String,
                AuthError,
            >(e) && final(self).email_updates() == old(self).email_updates(),
            session_check_error(*old(self), jwt@, now) is None ==> ({
                let uid = jwt_claims(old(self).secret(), jwt@)->Some_0.0;
                &&& (r == Err::<String, AuthError>(AuthError::AlreadyInProgress) <==> has_live(
                    old(self).email_updates(),
                    uid,
                    now,
                ))
                &&& (r == Err::<String, AuthError>(AuthError::AlreadyInProgress) ==> final(self).email_updates() == old(self).email_updates())
                &&& (r matches Err(e) ==> e == AuthError::AlreadyInProgress || e
                    == AuthError::InternalError)
                &&& (r matches Ok(t) ==> ({
                    &&& !has_live(old(self).email_updates(), uid, now)
                    &&& ledger_extended(
                        reclaim(old(self).email_updates(), uid, now),
                        final(self).email_updates(),
                        uid,
                        now,
                        EMAIL_UPDATE_TTL,
                    )
                    &&& final(self).email_updates().last().token@ == t@
                    &&& (final(self).email_updates().last().payload matches Payload::NewEmail(e)
                        && e@ == new_email@)
                }))
            }),
    {
        let claims = match self.require_session(jwt, now) {
            Ok(c) => c,
            Err(e) => {
                return Err(e);
            },
        };
        let uid = claims.uid;
        let ghost pre = self.email_updates@;
        proof {
            if has_user(pre, uid) && !has_live(pre, uid, now) {
                crate::pending::lemma_without_user_elts(pre, uid);
            }
            lemma_ledger_subset_props(pre, reclaim(pre, uid, now), 0);
        }
        match self.email_updates.begin(uid, Payload::NewEmail(new_email.to_owned()), now) {
            Ok(t) => {
                proof {
                    let base = reclaim(pre, uid, now);
                    assert(self.email_updates@.subrange(0, base.len() as int) =~= base);
                    lemma_ledger_push_props(base, self.email_updates@.last(), 0);
                    assert(base.push(self.email_updates@.last()) =~= self.email_updates@);
                }
                Ok(t)
            },
            Err(e) => Err(e),
        }
    }

    /// Confirms an email change: the single-use token installs the new
    /// address and revokes every session of the account.
    pub fn confirm_email_change(&mut self, token: &str, now: u64) -> (r: Result<u32, AuthError>)
        requires
            old(self).wf(),
        ensures
            final(self).wf(),
            final(self).secret() == old(self).secret(),
            final(self).archived() == old(self).archived(),
            final(self).next_user_id() == old(self).next_user_id(),
            final(self).verifications() == old(self).verifications(),
            final(self).password_resets() == old(self).password_resets(),
            final(self).delete_requests() == old(self).delete_requests(),
            r == Err::<u32, AuthError>(AuthError::TokenNotFound) <==> !token_present(
                old(self).email_updates(),
                token@,
            ),
            !token_present(old(self).email_updates(), token@) ==> final(self).email_updates()
                == old(self).email_updates(),
            token_present(old(self).email_updates(), token@) ==> final(self).email_updates()
                == without_token(old(self).email_updates(), token@),
            r == Err::<u32, AuthError>(AuthError::Expired) <==> token_present(
                old(self).email_updates(),
                token@,
            ) && now > rec_with_token(old(self).email_updates(), token@).expires_at,
            r matches Err(e) ==> (e == AuthError::TokenNotFound || e == AuthError::Expired || e
                == AuthError::UserNotFound) && final(self).users() == old(self).users() && final(self).sessions() == old(self).sessions(),
            r == Err::<u32, AuthError>(AuthError::UserNotFound) <==> token_present(
                old(self).email_updates(),
                token@,
            ) && now <= rec_with_token(old(self).email_updates(), token@).expires_at && !has_id(
                old(self).users(),
                rec_with_token(old(self).email_updates(), token@).user_id,
            ),
            r matches Ok(uid) ==> ({
                &&& token_present(old(self).email_updates(), token@)
                &&& now <= rec_with_token(old(self).email_updates(), token@).expires_at
                &&& uid == rec_with_token(old(self).email_updates(), token@).user_id
                &&& has_id(old(self).users(), uid)
                &&& final(self).users() == old(self).users().update(
                    user_index(old(self).users(), uid),
                    (UserDB {
                        email: rec_with_token(
                            old(self).email_updates(),
                            token@,
                        ).payload->NewEmail_0,
                        ..user_with_id(old(self).users(), uid)
                    }),
                )
                &&& final(self).sessions() == crate::sessions::without_user(
                    old(self).sessions(),
                    uid,
                )
            }),
    {
        let (uid, payload) = match self.email_updates.confirm(token, now) {
            Ok(c) => c,
            Err(e) => {
                proof {
                    crate::pending::lemma_without_token_elts(old(self).email_updates(), token@);
                    if token_present(old(self).email_updates(), token@) {
                        lemma_ledger_subset_props(
                            old(self).email_updates(),
                            self.email_updates@,
                            0,
                        );
                    }
                }
                return Err(e);
            },
        };
        proof {
            crate::pending::lemma_without_token_elts(old(self).email_updates(), token@);
            lemma_ledger_subset_props(old(self).email_updates(), self.email_updates@, 0);
        }
        let email = match payload {
            Payload::NewEmail(e) => e,
            _ => {
                proof {
                    let k = choose|k: int|
                        0 <= k < old(self).email_updates().len() && old(self).email_updates()[k].token@ == token@;
                    assert(old(self).email_updates()[k].payload is NewEmail);
                    assert(false);
                }
                return Err(AuthError::InternalError);
            },
        };
        match self.accounts.update_user_email(uid, email) {
            Ok(_) => {
                self.sessions.stop_all_sessions(uid);
                proof {
                    let idx = user_index(old(self).users(), uid);
                    assert forall|v: u32| #[trigger] has_id(old(self).users(), v) implies has_id(
                        self.accounts.users(),
                        v,
                    ) by {
                        crate::accounts::lemma_update_same_id_has_id(
                            old(self).users(),
                            idx,
                            self.accounts.users()[idx],
                            v,
                        );
                        assert(old(self).users().update(idx, self.accounts.users()[idx])
                            =~= self.accounts.users());
                    }
                    crate::sessions::lemma_without_user_elts(old(self).sessions(), uid);
                    lemma_sessions_ref_shrink(
                        old(self).users(),
                        old(self).sessions(),
                        self.sessions@,
                    );
                    lemma_sessions_ref_users_grow(
                        old(self).users(),
                        self.accounts.users(),
                        self.sessions@,
                    );
                }
                Ok(uid)
            },
            Err(e) => Err(e),
        }
    }

    /// Opens an account deletion for the account bound to this email;
    /// refused while a live deletion request is already pending.
    pub fn begin_account_deletion(&mut self, data: &DeleteData, now: u64) -> (r: Result<
        String,
        AuthError,
    >)
        requires
            old(self).wf(),
            now <= MAX_OP_TIME,
        ensures
            final(self).wf(),
            final(self).secret() == old(self).secret(),
            final(self).users() == old(self).users(),
            final(self).archived() == old(self).archived(),
            final(self).next_user_id() == old(self).next_user_id(),
            final(self).sessions() == old(self).sessions(),
            final(self).verifications() == old(self).verifications(),
            final(self).password_resets() == old(self).password_resets(),
            final(self).email_updates() == old(self).email_updates(),
            r == Err::<String, AuthError>(AuthError::UserNotFound) <==> first_with_email(
                old(self).users(),
                data.email@,
            ) is None,
            r == Err::<String, AuthError>(AuthError::AlreadyInProgress) <==> first_with_email(
                old(self).users(),
                data.email@,
            ) is Some && has_live(
                old(self).delete_requests(),
                first_with_email(old(self).users(), data.email@)->Some_0.user_id,
                now,
            ),
            r matches Err(e) ==> e == AuthError::UserNotFound || e == AuthError::AlreadyInProgress
                || e == AuthError::InternalError,
            (r == Err::<String, AuthError>(AuthError::UserNotFound) || r == Err::<
                String,
                AuthError,
            >(AuthError::AlreadyInProgress)) ==> final(self).delete_requests() == old(self).delete_requests(),
            r matches Ok(t) ==> ({
                let uid = first_with_email(old(self).users(), data.email@)->Some_0.user_id;
                &&& first_with_email(old(self).users(), data.email@) is Some
                &&& !has_live(old(self).delete_requests(), uid, now)
                &&& ledger_extended(
                    reclaim(old(self).delete_requests(), uid, now),
                    final(self).delete_requests(),
                    uid,
                    now,
                    DELETE_TTL,
                )
                &&& final(self).delete_requests().last().token@ == t@
                &&& final(self).delete_requests().last().payload is Nothing
            }),
    {
        let uid = match self.accounts.get_user_by_email(data.email.as_str()) {
            Some(u) => u.user_id,
            None => {
                return Err(AuthError::UserNotFound);
            },
        };
        let ghost pre = self.delete_requests@;
        proof {
            if has_user(pre, uid) && !has_live(pre, uid, now) {
                crate::pending::lemma_without_user_elts(pre, uid);
            }
            lemma_ledger_subset_props(pre, reclaim(pre, uid, now), 0);
        }
        match self.delete_requests.begin(uid, Payload::Nothing, now) {
            Ok(t) => {
                proof {
                    let base = reclaim(pre, uid, now);
                    assert(self.delete_requests@.subrange(0, base.len() as int) =~= base);
                    lemma_ledger_push_props(base, self.delete_requests@.last(), 0);
                    assert(base.push(self.delete_requests@.last()) =~= self.delete_requests@);
                }
                Ok(t)
            },
            Err(e) => Err(e),
        }
    }

    /// Confirms an account deletion: the single-use token moves the account
    /// to the archive and revokes every one of its sessions.
    pub fn confirm_account_deletion(&mut self, token: &str, now: u64) -> (r: Result<
        u32,
        AuthError,
    >)
        requires
            old(self).wf(),
        ensures
            final(self).wf(),
            final(self).secret() == old(self).secret(),
            final(self).next_user_id() == old(self).next_user_id(),
            final(self).verifications() == old(self).verifications(),
            final(self).password_resets() == old(self).password_resets(),
            final(self).email_updates() == old(self).email_updates(),
            r == Err::<u32, AuthError>(AuthError::TokenNotFound) <==> !token_present(
                old(self).delete_requests(),
                token@,
            ),
            !token_present(old(self).delete_requests(), token@) ==> final(self).delete_requests()
                == old(self).delete_requests(),
            token_present(old(self).delete_requests(), token@) ==> final(self).delete_requests()
                == without_token(old(self).delete_requests(), token@),
            r == Err::<u32, AuthError>(AuthError::Expired) <==> token_present(
                old(self).delete_requests(),
                token@,
            ) && now > rec_with_token(old(self).delete_requests(), token@).expires_at,
            r matches Err(e) ==> (e == AuthError::TokenNotFound || e == AuthError::Expired || e
                == AuthError::UserNotFound) && final(self).users() == old(self).users() && final(self).sessions() == old(self).sessions() && final(self).archived() == old(self).archived(),
            r == Err::<u32, AuthError>(AuthError::UserNotFound) <==> token_present(
                old(self).delete_requests(),
                token@,
            ) && now <= rec_with_token(old(self).delete_requests(), token@).expires_at && !has_id(
                old(self).users(),
                rec_with_token(old(self).delete_requests(), token@).user_id,
            ),
            r matches Ok(uid) ==> ({
                &&& token_present(old(self).delete_requests(), token@)
                &&& now <= rec_with_token(old(self).delete_requests(), token@).expires_at
                &&& uid == rec_with_token(old(self).delete_requests(), token@).user_id
                &&& has_id(old(self).users(), uid)
                &&& final(self).users() == crate::accounts::without_id(old(self).users(), uid)
                &&& final(self).archived() == old(self).archived().push(
                    user_with_id(old(self).users(), uid),
                )
                &&& final(self).sessions() == crate::sessions::without_user(
                    old(self).sessions(),
                    uid,
                )
            }),
    {
        let (uid, _payload) = match self.delete_requests.confirm(token, now) {
            Ok(c) => c,
            Err(e) => {
                proof {
                    crate::pending::lemma_without_token_elts(old(self).delete_requests(), token@);
                    if token_present(old(self).delete_requests(), token@) {
                        lemma_ledger_subset_props(
                            old(self).delete_requests(),
                            self.delete_requests@,
                            0,
                        );
                    }
                }
                return Err(e);
            },
        };
        proof {
            crate::pending::lemma_without_token_elts(old(self).delete_requests(), token@);
            lemma_ledger_subset_props(old(self).delete_requests(), self.delete_requests@, 0);
        }
        match self.accounts.delete_user_db(uid) {
            Ok(_) => {
                self.sessions.stop_all_sessions(uid);
                proof {
                    crate::sessions::lemma_without_user_count(old(self).sessions(), uid);
                    crate::sessions::lemma_without_user_elts(old(self).sessions(), uid);
                    assert forall|i: int| 0 <= i < self.sessions@.len() implies has_id(
                        self.accounts.users(),
                        (#[trigger] self.sessions@[i]).user_id,
                    ) by {
                        let j = choose|j: int|
                            0 <= j < old(self).sessions().len() && old(self).sessions()[j]
                                == self.sessions@[i];
                        assert(has_id(old(self).users(), old(self).sessions()[j].user_id));
                        assert(self.sessions@[i].user_id != uid);
                        crate::accounts::lemma_without_id_keeps(
                            old(self).users(),
                            uid,
                            self.sessions@[i].user_id,
                        );
                    }
                }
                Ok(uid)
            },
            Err(e) => Err(e),
        }
    }

    /// Applies a new password at once, without an emailed confirmation:
    /// the caller must hold a valid session and be the target account or an
    /// administrator; while the game is paused only administrators pass.
    /// Success installs the hash and revokes every session of the target.
    pub fn change_password_immediate(
        &mut self,
        data: &SimpleModifyData,
        paused: bool,
        now: u64,
    ) -> (r: Result<(), AuthError>)
        requires
            old(self).wf(),
            now <= MAX_OP_TIME,
        ensures
            final(self).wf(),
            final(self).secret() == old(self).secret(),
            final(self).archived() == old(self).archived(),
            final(self).next_user_id() == old(self).next_user_id(),
            final(self).verifications() == old(self).verifications(),
            final(self).password_resets() == old(self).password_resets(),
            final(self).email_updates() == old(self).email_updates(),
            final(self).delete_requests() == old(self).delete_requests(),
            modify_guard_error(*old(self), data.jwt@, data.account_id, paused, now) matches Some(e)
                ==> r == Err::<(), AuthError>(e) && final(self).users() == old(self).users()
                && final(self).sessions() == old(self).sessions(),
            modify_guard_error(*old(self), data.jwt@, data.account_id, paused, now) is None
                ==> match r {
                Ok(_) => ({
                    &&& final(self).users() == old(self).users().update(
                        user_index(old(self).users(), data.account_id),
                        (UserDB {
                            password: final(self).users()[user_index(
                                old(self).users(),
                                data.account_id,
                            )].password,
                            ..user_with_id(old(self).users(), data.account_id)
                        }),
                    )
                    &&& password_verifies(
                        final(self).users()[user_index(
                            old(self).users(),
                            data.account_id,
                        )].password@,
                        data.new_value@,
                    )
                    &&& final(self).sessions() == crate::sessions::without_user(
                        old(self).sessions(),
                        data.account_id,
                    )
                }),
                Err(e) => e == AuthError::InternalError && final(self).users() == old(
                    self,
                ).users() && final(self).sessions() == old(self).sessions(),
            },
    {
        if paused {
            if self.require_admin(data.jwt.as_str(), now).is_err() {
                return Err(AuthError::GamePaused);
            }
        }
        if let Err(e) = self.require_self_or_admin(data.jwt.as_str(), data.account_id, now) {
            return Err(e);
        }
        if self.accounts.get_user_by_id(data.account_id).is_none() {
            return Err(AuthError::UserNotFound);
        }
        let hash = match hash_password(data.new_value.as_str()) {
            Some(h) => h,
            None => {
                return Err(AuthError::InternalError);
            },
        };
        let ghost h = hash@;
        match self.accounts.update_user_password(data.account_id, hash) {
            Ok(_) => {
                self.sessions.stop_all_sessions(data.account_id);
                proof {
                    let idx = user_index(old(self).users(), data.account_id);
                    assert(self.accounts.users()[idx].password@ == h);
                    assert forall|v: u32| #[trigger] has_id(old(self).users(), v) implies has_id(
                        self.accounts.users(),
                        v,
                    ) by {
                        crate::accounts::lemma_update_same_id_has_id(
                            old(self).users(),
                            idx,
                            self.accounts.users()[idx],
                            v,
                        );
                        assert(old(self).users().update(idx, self.accounts.users()[idx])
                            =~= self.accounts.users());
                    }
                    crate::sessions::lemma_without_user_elts(
                        old(self).sessions(),
                        data.account_id,
                    );
                    lemma_sessions_ref_shrink(
                        old(self).users(),
                        old(self).sessions(),
                        self.sessions@,
                    );
                    lemma_sessions_ref_users_grow(
                        old(self).users(),
                        self.accounts.users(),
                        self.sessions@,
                    );
                }
                Ok(())
            },
            Err(e) => Err(e),
        }
    }

    /// Applies one tagged profile change (first name, last name or gender)
    /// to the target account, under the same guard as the password change;
    /// sessions stay untouched.
    pub fn update_profile(
        &mut self,
        jwt: &str,
        account_id: u32,
        change: ProfileField,
        paused: bool,
        now: u64,
    ) -> (r: Result<(), AuthError>)
        requires
            old(self).wf(),
        ensures
            final(self).wf(),
            final(self).secret() == old(self).secret(),
            final(self).sessions() == old(self).sessions(),
            final(self).archived() == old(self).archived(),
            final(self).next_user_id() == old(self).next_user_id(),
            final(self).verifications() == old(self).verifications(),
            final(self).password_resets() == old(self).password_resets(),
            final(self).email_updates() == old(self).email_updates(),
            final(self).delete_requests() == old(self).delete_requests(),
            modify_guard_error(*old(self), jwt@, account_id, paused, now) matches Some(e) ==> r
                == Err::<(), AuthError>(e) && final(self).users() == old(self).users(),
            modify_guard_error(*old(self), jwt@, account_id, paused, now) is None ==> r is Ok
                && final(self).users() == old(self).users().update(
                user_index(old(self).users(), account_id),
                crate::accounts::applied(user_with_id(old(self).users(), account_id), change),
            ),
    {
        if paused {
            if self.require_admin(jwt, now).is_err() {
                return Err(AuthError::GamePaused);
            }
        }
        if let Err(e) = self.require_self_or_admin(jwt, account_id, now) {
            return Err(e);
        }
        match self.accounts.update_user_name_or_gender(account_id, change) {
            Ok(_) => {
                proof {
                    let idx = user_index(old(self).users(), account_id);
                    assert forall|v: u32| #[trigger] has_id(old(self).users(), v) implies has_id(
                        self.accounts.users(),
                        v,
                    ) by {
                        crate::accounts::lemma_update_same_id_has_id(
                            old(self).users(),
                            idx,
                            self.accounts.users()[idx],
                            v,
                        );
                        assert(old(self).users().update(idx, self.accounts.users()[idx])
                            =~= self.accounts.users());
                    }
                    lemma_sessions_ref_users_grow(
                        old(self).users(),
                        self.accounts.users(),
                        self.sessions@,
                    );
                }
                Ok(())
            },
            Err(e) => Err(e),
        }
    }

    /// Returns the authenticated caller's own account record.
    pub fn retrieve_user(&self, data: &RetrieveUserData, now: u64) -> (r: Result<
        &UserDB,
        AuthError,
    >)
        requires
            self.wf(),
        ensures
            session_check_error(*self, data.jwt@, now) matches Some(e) ==> r == Err::<
                &UserDB,
                AuthError,
            >(e),
            session_check_error(*self, data.jwt@, now) is None ==> ({
                let uid = jwt_claims(self.secret(), data.jwt@)->Some_0.0;
                &&& (r == Err::<&UserDB, AuthError>(AuthError::UserNotFound) <==> !has_id(
                    self.users(),
                    uid,
                ))
                &&& (r matches Ok(u) ==> has_id(self.users(), uid) && *u == user_with_id(
                    self.users(),
                    uid,
                ))
            }),
    {
        let claims = match self.require_session(data.jwt.as_str(), now) {
            Ok(c) => c,
            Err(e) => {
                return Err(e);
            },
        };
        match self.accounts.get_user_by_id(claims.uid) {
            Some(u) => Ok(u),
            None => Err(AuthError::UserNotFound),
        }
    }

    /// Public retrieval by email; the first account in store order answers.
    pub fn user_retrieve_email(&self, data: &RetrieveUserEmailData) -> (r: Result<
        &UserDB,
        AuthError,
    >)
        ensures
            r == Err::<&UserDB, AuthError>(AuthError::UserNotFound) <==> first_with_email(
                self.users(),
                data.email@,
            ) is None,
            r matches Ok(u) ==> first_with_email(self.users(), data.email@) == Some(*u),
    {
        match self.accounts.get_user_by_email(data.email.as_str()) {
            Some(u) => Ok(u),
            None => Err(AuthError::UserNotFound),
        }
    }

    /// Public retrieval by account id.
    pub fn user_retrieve_id(&self, data: &RetrieveUserIdData) -> (r: Result<&UserDB, AuthError>)
        requires
            self.wf(),
        ensures
            r == Err::<&UserDB, AuthError>(AuthError::UserNotFound) <==> !has_id(
                self.users(),
                data.account_id,
            ),
            r matches Ok(u) ==> has_id(self.users(), data.account_id) && *u == user_with_id(
                self.users(),
                data.account_id,
            ),
    {
        match self.accounts.get_user_by_id(data.account_id) {
            Some(u) => Ok(u),
            None => Err(AuthError::UserNotFound),
        }
    }

    /// Public retrieval by first and last name; the first account in store
    /// order answers.
    pub fn user_retrieve_name(&self, data: &RetrieveUserNamesData) -> (r: Result<
        &UserDB,
        AuthError,
    >)
        ensures
            r == Err::<&UserDB, AuthError>(AuthError::UserNotFound) <==> first_with_names(
                self.users(),
                data.first_name@,
                data.last_name@,
            ) is None,
            r matches Ok(u) ==> first_with_names(self.users(), data.first_name@, data.last_name@)
                == Some(*u),
    {
        match self.accounts.get_user_by_names(data.first_name.as_str(), data.last_name.as_str()) {
            Some(u) => Ok(u),
            None => Err(AuthError::UserNotFound),
        }
    }

    /// Whether a live account with this id exists.
    pub fn has_account(&self, account_id: u32) -> (r: bool)
        requires
            self.wf(),
        ensures
            r == has_id(self.users(), account_id),
    {
        self.accounts.get_user_by_id(account_id).is_some()
    }

    /// How many accounts have ever been registered.
    pub fn user_retrieve_count(&self) -> (r: u32)
        requires
            self.wf(),
        ensures
            r == self.next_user_id() - 1,
    {
        self.accounts.user_count()
    }
}

/// The rejection the immediate mutations owe: the pause guard first (only
/// a caller passing the full admin check is exempt), then the
/// owner-or-administrator guard, then the target account must exist.
pub open spec fn modify_guard_error(
    s: AuthSystem,
    jwt: Seq<char>,
    target: u32,
    paused: bool,
    now: u64,
) -> Option<AuthError> {
    if paused && admin_check_error(s, jwt, now) is Some {
        Some(AuthError::GamePaused)
    } else {
        match self_or_admin_check_error(s, jwt, target, now) {
            Some(e) => Some(e),
            None => {
                if !has_id(s.users(), target) {
                    Some(AuthError::UserNotFound)
                } else {
                    None
                }
            },
        }
    }
}

// ---------------------------------------------------------------------------
// The laws of the surface.
// ---------------------------------------------------------------------------

/// Session cap: once an account holds `SESSION_CAP` sessions, a further
/// login for it is refused with `SessionLimitExceeded` — and `login`'s
/// contract adds that a refused login leaves every session untouched,
/// while each successful login grows the account's session count by one.
pub proof fn lemma_session_cap(s: AuthSystem, email: Seq<char>, password: Seq<char>, now: u64)
    requires
        first_with_email(s.users(), email) matches Some(u) && u.verified,
        count_for(s.sessions(), first_with_email(s.users(), email)->Some_0.user_id) >= SESSION_CAP,
    ensures
        login_domain_error(s, email, password, false, now) == Some(
            AuthError::SessionLimitExceeded,
        ),
{
}

/// Unverified login blocked: whatever the password — correct or not — a
/// login against an unverified account answers `NotVerified`.
pub proof fn lemma_unverified_login_blocked(
    s: AuthSystem,
    email: Seq<char>,
    password: Seq<char>,
    now: u64,
)
    requires
        first_with_email(s.users(), email) matches Some(u) && !u.verified,
    ensures
        login_domain_error(s, email, password, false, now) == Some(AuthError::NotVerified),
{
}

/// Credential change revokes sessions: after a completed password reset,
/// immediate password change or email change for account `u` — each of
/// which leaves the session store at `without_user(pre, u)` — any identity
/// token naming one of `u`'s sessions fails the session guard with
/// `SessionNotFound`, however valid and unexpired the token itself still
/// is.
pub proof fn lemma_credential_change_revokes(
    pre: AuthSystem,
    post: AuthSystem,
    u: u32,
    jwt: Seq<char>,
    now: u64,
)
    requires
        post.secret() == pre.secret(),
        post.sessions() == crate::sessions::without_user(pre.sessions(), u),
        secret_ok(pre.secret()),
        jwt_claims(pre.secret(), jwt) matches Some(c) && now <= c.2,
        forall|i: int|
            0 <= i < pre.sessions().len() && (#[trigger] pre.sessions()[i]).session_token@
                == jwt_claims(pre.secret(), jwt)->Some_0.1 ==> pre.sessions()[i].user_id == u,
    ensures
        session_check_error(post, jwt, now) == Some(AuthError::SessionNotFound),
{
    let c = jwt_claims(pre.secret(), jwt)->Some_0;
    crate::sessions::lemma_revoked_token_gone(pre.sessions(), u, c.1);
}

} // verus!
