//! The session store: one record per live login, created on successful
//! login, revoked one at a time (logout) or in bulk (credential changes).

use crate::AuthError;
use vstd::prelude::*;

verus! {

/// Lifetime of a login session: 30 days, in seconds.
pub const SESSION_TTL: u64 = 2592000;

/// Cap on concurrent login sessions per user, checked at login time only.
pub const SESSION_CAP: usize = 32;

/// One live login session.
#[derive(Debug)]
pub struct SessionDB {
    /// The account this login belongs to.
    pub user_id: u32,
    /// The opaque random token naming this session.
    pub session_token: String,
    /// Creation time, seconds since the epoch.
    pub timestamp: u64,
    /// Expiry time: creation time plus `SESSION_TTL`.
    pub valid_until: u64,
}

impl Clone for SessionDB {
    fn clone(&self) -> (res: Self)
        ensures
            res == *self,
    {
        SessionDB {
            user_id: self.user_id,
            session_token: self.session_token.clone(),
            timestamp: self.timestamp,
            valid_until: self.valid_until,
        }
    }
}

/// No two records carry the same session token.
pub open spec fn tokens_unique(s: Seq<SessionDB>) -> bool {
    forall|i: int, j: int|
        0 <= i < j < s.len() ==> s[i].session_token@ != s[j].session_token@
}

/// Whether some record carries this session token.
pub open spec fn token_present(s: Seq<SessionDB>, t: Seq<char>) -> bool {
    exists|i: int| 0 <= i < s.len() && s[i].session_token@ == t
}

/// The record carrying this session token; meaningful under
/// `tokens_unique` when the token is present.
pub open spec fn session_with(s: Seq<SessionDB>, t: Seq<char>) -> SessionDB {
    s[choose|i: int| 0 <= i < s.len() && s[i].session_token@ == t]
}

/// How many records belong to this user.
pub open spec fn count_for(s: Seq<SessionDB>, u: u32) -> nat
    decreases s.len(),
{
    if s.len() == 0 {
        0
    } else {
        count_for(s.drop_last(), u) + if s.last().user_id == u {
            1nat
        } else {
            0nat
        }
    }
}

/// The store with every record of this user removed, order kept.
pub open spec fn without_user(s: Seq<SessionDB>, u: u32) -> Seq<SessionDB>
    decreases s.len(),
{
    if s.len() == 0 {
        Seq::empty()
    } else if s.last().user_id == u {
        without_user(s.drop_last(), u)
    } else {
        without_user(s.drop_last(), u).push(s.last())
    }
}

/// The store with every record carrying this token removed, order kept.
pub open spec fn without_token(s: Seq<SessionDB>, t: Seq<char>) -> Seq<SessionDB>
    decreases s.len(),
{
    if s.len() == 0 {
        Seq::empty()
    } else if s.last().session_token@ == t {
        without_token(s.drop_last(), t)
    } else {
        without_token(s.drop_last(), t).push(s.last())
    }
}

/// A token found after a bulk removal was already there before it.
pub proof fn lemma_without_user_membership(s: Seq<SessionDB>, u: u32, t: Seq<char>)
    ensures
        token_present(without_user(s, u), t) ==> token_present(s, t),
    decreases s.len(),
{
    if s.len() > 0 {
        lemma_without_user_membership(s.drop_last(), u, t);
        if token_present(without_user(s, u), t) {
            if s.last().user_id != u {
                let w = without_user(s.drop_last(), u).push(s.last());
                let i = choose|i: int| 0 <= i < w.len() && w[i].session_token@ == t;
                if i < w.len() - 1 {
                    assert(token_present(without_user(s.drop_last(), u), t));
                }
            }
            if token_present(s.drop_last(), t) {
                let j = choose|j: int|
                    0 <= j < s.drop_last().len() && s.drop_last()[j].session_token@ == t;
                assert(s[j].session_token@ == t);
            }
        }
    }
}

/// Bulk removal keeps the tokens pairwise distinct.
pub proof fn lemma_without_user_wf(s: Seq<SessionDB>, u: u32)
    requires
        tokens_unique(s),
    ensures
        tokens_unique(without_user(s, u)),
    decreases s.len(),
{
    if s.len() > 0 {
        assert(forall|i: int| 0 <= i < s.drop_last().len() ==> s.drop_last()[i] == s[i]);
        lemma_without_user_wf(s.drop_last(), u);
        if s.last().user_id != u {
            let w = without_user(s.drop_last(), u);
            lemma_without_user_membership(s.drop_last(), u, s.last().session_token@);
            if token_present(w, s.last().session_token@) {
                let j = choose|j: int|
                    0 <= j < s.drop_last().len() && s.drop_last()[j].session_token@ == s.last().session_token@;
                assert(s[j].session_token@ == s[s.len() - 1].session_token@);
                assert(false);
            }
            assert forall|i: int, j: int|
                0 <= i < j < w.push(s.last()).len() implies w.push(s.last())[i].session_token@
                != w.push(s.last())[j].session_token@ by {
                if j < w.len() {
                    assert(w[i].session_token@ != w[j].session_token@);
                } else {
                    assert(!token_present(w, s.last().session_token@));
                }
            }
        }
    }
}

/// After a user's bulk removal the user holds no sessions at all.
pub proof fn lemma_without_user_count(s: Seq<SessionDB>, u: u32)
    ensures
        count_for(without_user(s, u), u) == 0,
        forall|i: int|
            0 <= i < without_user(s, u).len() ==> #[trigger] without_user(s, u)[i].user_id != u,
    decreases s.len(),
{
    if s.len() > 0 {
        lemma_without_user_count(s.drop_last(), u);
        if s.last().user_id != u {
            let w = without_user(s.drop_last(), u);
            assert(count_for(w.push(s.last()), u) == count_for(w.push(s.last()).drop_last(), u)
                + 0) by {
                assert(w.push(s.last()).drop_last() =~= w);
                assert(w.push(s.last()).last() == s.last());
            }
        }
    }
}

/// Every token that names one of this user's sessions is gone after the
/// user's bulk removal: the session-store half of the rule that a credential
/// change revokes every session. The guard half then reports the session as
/// not found for any identity token that names it.
pub proof fn lemma_revoked_token_gone(s: Seq<SessionDB>, u: u32, t: Seq<char>)
    requires
        forall|i: int| 0 <= i < s.len() && s[i].session_token@ == t ==> s[i].user_id == u,
    ensures
        !token_present(without_user(s, u), t),
    decreases s.len(),
{
    lemma_without_user_count(s, u);
    if token_present(without_user(s, u), t) {
        let w = without_user(s, u);
        let i = choose|i: int| 0 <= i < w.len() && w[i].session_token@ == t;
        lemma_without_user_membership_index(s, u, i);
    }
}

/// Every record of the reduced store is a record of the original.
pub proof fn lemma_without_user_membership_index(s: Seq<SessionDB>, u: u32, i: int)
    requires
        0 <= i < without_user(s, u).len(),
    ensures
        exists|j: int| 0 <= j < s.len() && s[j] == without_user(s, u)[i],
    decreases s.len(),
{
    if s.len() > 0 {
        if s.last().user_id == u {
            lemma_without_user_membership_index(s.drop_last(), u, i);
            let j = choose|j: int|
                0 <= j < s.drop_last().len() && s.drop_last()[j] == without_user(s, u)[i];
            assert(s[j] == without_user(s, u)[i]);
        } else {
            let w = without_user(s.drop_last(), u);
            if i < w.len() {
                lemma_without_user_membership_index(s.drop_last(), u, i);
                let j = choose|j: int|
                    0 <= j < s.drop_last().len() && s.drop_last()[j] == without_user(
                        s.drop_last(),
                        u,
                    )[i];
                assert(s[j] == without_user(s, u)[i]);
            } else {
                assert(without_user(s, u)[i] == s.last());
            }
        }
    }
}

/// The session store.
pub struct Sessions {
    sessions: Vec<SessionDB>,
}

impl View for Sessions {
    type V = Seq<SessionDB>;

    closed spec fn view(&self) -> Seq<SessionDB> {
        self.sessions@
    }
}

impl Sessions {
    /// The store invariant: session tokens are pairwise distinct.
    pub open spec fn wf(&self) -> bool {
        tokens_unique(self@)
    }

    /// An empty store.
    pub fn new() -> (r: Sessions)
        ensures
            r@ == Seq::<SessionDB>::empty(),
            r.wf(),
    {
        Sessions { sessions: Vec::new() }
    }

    /// Starts a session for this user under the given opaque token, expiring
    /// `SESSION_TTL` seconds from `now`. A token collision — which entropy
    /// makes all but impossible — is reported, not retried.
    #[verifier::loop_isolation(false)]
    pub fn start_session(&mut self, user_id: u32, token: String, now: u64) -> (r: Result<
        (),
        AuthError,
    >)
        requires
            old(self).wf(),
            now + SESSION_TTL <= u64::MAX,
        ensures
            final(self).wf(),
            r matches Ok(_) ==> !token_present(old(self)@, token@) && final(self)@ == old(self)@.push(
                (SessionDB {
                    user_id,
                    session_token: token,
                    timestamp: now,
                    valid_until: (now + SESSION_TTL) as u64,
                }),
            ),
            r matches Err(e) ==> e == AuthError::InternalError && token_present(old(self)@, token@)
                && final(self)@ == old(self)@,
    {
        let n = self.sessions.len();
        for i in 0..n
            invariant
                n == self.sessions.len(),
                self.sessions@ == old(self)@,
                forall|j: int| 0 <= j < i ==> self.sessions@[j].session_token@ != token@,
        {
            if self.sessions[i].session_token == token {
                return Err(AuthError::InternalError);
            }
        }
        let record = SessionDB {
            user_id,
            session_token: token,
            timestamp: now,
            valid_until: now + SESSION_TTL,
        };
        proof {
            assert forall|i: int, j: int|
                0 <= i < j < self.sessions@.push(record).len() implies self.sessions@.push(
                record,
            )[i].session_token@ != self.sessions@.push(record)[j].session_token@ by {
                if j < self.sessions@.len() {
                    assert(self.sessions@[i].session_token@ != self.sessions@[j].session_token@);
                }
            }
        }
        self.sessions.push(record);
        Ok(())
    }

    /// How many sessions this user holds, expired ones included: records
    /// leave the store only by revocation.
    #[verifier::loop_isolation(false)]
    pub fn get_session_count(&self, user_id: u32) -> (r: usize)
        ensures
            r == count_for(self@, user_id),
    {
        let mut c: usize = 0;
        let n = self.sessions.len();
        for i in 0..n
            invariant
                n == self.sessions.len(),
                c <= i,
                c == count_for(self.sessions@.subrange(0, i as int), user_id),
        {
            proof {
                let sub = self.sessions@.subrange(0, i + 1);
                assert(sub.drop_last() =~= self.sessions@.subrange(0, i as int));
                assert(sub.last() == self.sessions@[i as int]);
            }
            if self.sessions[i].user_id == user_id {
                c = c + 1;
            }
        }
        proof {
            assert(self.sessions@.subrange(0, n as int) =~= self.sessions@);
        }
        c
    }

    /// Looks a session up by its opaque token.
    #[verifier::loop_isolation(false)]
    pub fn get_session_by_token(&self, token: &str) -> (r: Option<&SessionDB>)
        ensures
            r matches Some(sess) ==> sess.session_token@ == token@ && exists|i: int|
                0 <= i < self@.len() && self@[i] == *sess,
            r is None ==> !token_present(self@, token@),
    {
        let t: String = token.to_owned();
        let n = self.sessions.len();
        for i in 0..n
            invariant
                n == self.sessions.len(),
                t@ == token@,
                forall|j: int| 0 <= j < i ==> self.sessions@[j].session_token@ != token@,
        {
            if self.sessions[i].session_token == t {
                let found = &self.sessions[i];
                proof {
                    assert(self@[i as int] == *found);
                }
                return Some(found);
            }
        }
        None
    }

    /// Ends the one session named by this token; doing so again is a no-op.
    #[verifier::loop_isolation(false)]
    pub fn stop_session(&mut self, token: &str)
        requires
            old(self).wf(),
        ensures
            final(self).wf(),
            final(self)@ == without_token(old(self)@, token@),
    {
        let t: String = token.to_owned();
        let n = self.sessions.len();
        let mut kept: Vec<SessionDB> = Vec::new();
        let ghost orig = self.sessions@;
        for i in 0..n
            invariant
                n == orig.len(),
                self.sessions@ == orig,
                t@ == token@,
                kept@ == without_token(orig.subrange(0, i as int), token@),
        {
            proof {
                let sub = orig.subrange(0, i + 1);
                assert(sub.drop_last() =~= orig.subrange(0, i as int));
                assert(sub.last() == orig[i as int]);
            }
            if !(self.sessions[i].session_token == t) {
                let rec = self.sessions[i].clone();
                kept.push(rec);
            }
        }
        proof {
            assert(orig.subrange(0, n as int) =~= orig);
        }
        self.sessions = kept;
        proof {
            lemma_without_token_wf(orig, token@);
        }
    }

    /// Ends every session of this user at once.
    #[verifier::loop_isolation(false)]
    pub fn stop_all_sessions(&mut self, user_id: u32)
        requires
            old(self).wf(),
        ensures
            final(self).wf(),
            final(self)@ == without_user(old(self)@, user_id),
    {
        let n = self.sessions.len();
        let mut kept: Vec<SessionDB> = Vec::new();
        let ghost orig = self.sessions@;
        for i in 0..n
            invariant
                n == orig.len(),
                self.sessions@ == orig,
                kept@ == without_user(orig.subrange(0, i as int), user_id),
        {
            proof {
                let sub = orig.subrange(0, i + 1);
                assert(sub.drop_last() =~= orig.subrange(0, i as int));
                assert(sub.last() == orig[i as int]);
            }
            if self.sessions[i].user_id != user_id {
                let rec = self.sessions[i].clone();
                kept.push(rec);
            }
        }
        proof {
            assert(orig.subrange(0, n as int) =~= orig);
        }
        self.sessions = kept;
        proof {
            lemma_without_user_wf(orig, user_id);
        }
    }
}

/// Removal by token keeps the tokens pairwise distinct.
proof fn lemma_without_token_wf(s: Seq<SessionDB>, t: Seq<char>)
    requires
        tokens_unique(s),
    ensures
        tokens_unique(without_token(s, t)),
    decreases s.len(),
{
    if s.len() > 0 {
        assert(forall|i: int| 0 <= i < s.drop_last().len() ==> s.drop_last()[i] == s[i]);
        lemma_without_token_wf(s.drop_last(), t);
        if s.last().session_token@ != t {
            let w = without_token(s.drop_last(), t);
            lemma_without_token_membership(s.drop_last(), t, s.last().session_token@);
            assert forall|i: int, j: int|
                0 <= i < j < w.push(s.last()).len() implies w.push(s.last())[i].session_token@
                != w.push(s.last())[j].session_token@ by {
                if j < w.len() {
                    assert(w[i].session_token@ != w[j].session_token@);
                }
            }
        }
    }
}

/// A token present after removal by token was present before.
proof fn lemma_without_token_membership(s: Seq<SessionDB>, t: Seq<char>, q: Seq<char>)
    ensures
        token_present(without_token(s, t), q) ==> token_present(s, q),
    decreases s.len(),
{
    if s.len() > 0 {
        lemma_without_token_membership(s.drop_last(), t, q);
        if token_present(without_token(s, t), q) {
            if s.last().session_token@ != t {
                let w = without_token(s.drop_last(), t).push(s.last());
                let i = choose|i: int| 0 <= i < w.len() && w[i].session_token@ == q;
                if i < w.len() - 1 {
                    assert(token_present(without_token(s.drop_last(), t), q));
                }
            }
            if token_present(s.drop_last(), q) {
                let j = choose|j: int|
                    0 <= j < s.drop_last().len() && s.drop_last()[j].session_token@ == q;
                assert(s[j].session_token@ == q);
            }
        }
    }
}


/// Every record left by a bulk user removal is a record of the original.
pub proof fn lemma_without_user_elts(s: Seq<SessionDB>, u: u32)
    ensures
        forall|i: int|
            0 <= i < without_user(s, u).len() ==> exists|j: int|
                0 <= j < s.len() && s[j] == #[trigger] without_user(s, u)[i],
{
    assert forall|i: int| 0 <= i < without_user(s, u).len() implies exists|j: int|
        0 <= j < s.len() && s[j] == #[trigger] without_user(s, u)[i] by {
        lemma_without_user_membership_index(s, u, i);
    }
}

/// Every record left by a token removal is a record of the original.
pub proof fn lemma_without_token_index_mem(s: Seq<SessionDB>, t: Seq<char>, i: int)
    requires
        0 <= i < without_token(s, t).len(),
    ensures
        exists|j: int| 0 <= j < s.len() && s[j] == without_token(s, t)[i],
    decreases s.len(),
{
    if s.len() > 0 {
        if s.last().session_token@ == t {
            lemma_without_token_index_mem(s.drop_last(), t, i);
            let j = choose|j: int|
                0 <= j < s.drop_last().len() && s.drop_last()[j] == without_token(s, t)[i];
            assert(s[j] == without_token(s, t)[i]);
        } else {
            let w = without_token(s.drop_last(), t);
            if i < w.len() {
                lemma_without_token_index_mem(s.drop_last(), t, i);
                let j = choose|j: int|
                    0 <= j < s.drop_last().len() && s.drop_last()[j] == without_token(
                        s.drop_last(),
                        t,
                    )[i];
                assert(s[j] == without_token(s, t)[i]);
            } else {
                assert(without_token(s, t)[i] == s.last());
            }
        }
    }
}

/// Every record left by a token removal is a record of the original.
pub proof fn lemma_without_token_elts(s: Seq<SessionDB>, t: Seq<char>)
    ensures
        forall|i: int|
            0 <= i < without_token(s, t).len() ==> exists|j: int|
                0 <= j < s.len() && s[j] == #[trigger] without_token(s, t)[i],
{
    assert forall|i: int| 0 <= i < without_token(s, t).len() implies exists|j: int|
        0 <= j < s.len() && s[j] == #[trigger] without_token(s, t)[i] by {
        lemma_without_token_index_mem(s, t, i);
    }
}

} // verus!
