//! The pending-change ledger: the one mechanism behind the four
//! "request, emailed token, confirm" workflows (email verification at
//! registration, password reset, email change, account deletion).
//!
//! One ledger per workflow kind, each with its own time-to-live; one record
//! per user; a record is consumed on confirmation, single-use, and an
//! expired record is reclaimed transparently by the next request. `begin` is
//! one atomic call over the store, so two interleaved requests for the same
//! user can never both insert.

use crate::AuthError;
use vstd::prelude::*;

verus! {

/// The least age a pending record must reach before its token may be resent.
pub const RESEND_INTERVAL: u64 = 60;

/// What a pending change will do to the account when confirmed.
#[derive(Debug)]
pub enum Payload {
    /// The address an email change will switch to.
    NewEmail(String),
    /// The credential (already hashed) a password reset will install.
    NewPassword(String),
    /// Nothing to carry: email verification and account deletion.
    Nothing,
}

impl Clone for Payload {
    fn clone(&self) -> (res: Self)
        ensures
            res == *self,
    {
        match self {
            Payload::NewEmail(e) => Payload::NewEmail(e.clone()),
            Payload::NewPassword(p) => Payload::NewPassword(p.clone()),
            Payload::Nothing => Payload::Nothing,
        }
    }
}

/// One in-flight confirmation workflow for one user.
#[derive(Debug)]
pub struct PendingChange {
    /// The user the change belongs to.
    pub user_id: u32,
    /// The opaque single-use token that was mailed out.
    pub token: String,
    /// What to apply on confirmation.
    pub payload: Payload,
    /// Creation time, seconds since the epoch.
    pub created_at: u64,
    /// Expiry time: creation time plus the ledger's time-to-live.
    pub expires_at: u64,
}

impl Clone for PendingChange {
    fn clone(&self) -> (res: Self)
        ensures
            res == *self,
    {
        PendingChange {
            user_id: self.user_id,
            token: self.token.clone(),
            payload: self.payload.clone(),
            created_at: self.created_at,
            expires_at: self.expires_at,
        }
    }
}

/// No two records belong to the same user.
pub open spec fn users_unique(s: Seq<PendingChange>) -> bool {
    forall|i: int, j: int| 0 <= i < j < s.len() ==> s[i].user_id != s[j].user_id
}

/// No two records carry the same token.
pub open spec fn tokens_unique(s: Seq<PendingChange>) -> bool {
    forall|i: int, j: int| 0 <= i < j < s.len() ==> s[i].token@ != s[j].token@
}

/// Whether some record belongs to this user.
pub open spec fn has_user(s: Seq<PendingChange>, u: u32) -> bool {
    exists|i: int| 0 <= i < s.len() && s[i].user_id == u
}

/// Whether some record of this user has not expired yet.
pub open spec fn has_live(s: Seq<PendingChange>, u: u32, now: u64) -> bool {
    exists|i: int| 0 <= i < s.len() && s[i].user_id == u && now <= s[i].expires_at
}

/// Whether some record carries this token.
pub open spec fn token_present(s: Seq<PendingChange>, t: Seq<char>) -> bool {
    exists|i: int| 0 <= i < s.len() && s[i].token@ == t
}

/// The record of this user; meaningful under `users_unique` when the user
/// has one.
pub open spec fn rec_for_user(s: Seq<PendingChange>, u: u32) -> PendingChange {
    s[choose|i: int| 0 <= i < s.len() && s[i].user_id == u]
}

/// The record carrying this token; meaningful under `tokens_unique` when
/// the token is present.
pub open spec fn rec_with_token(s: Seq<PendingChange>, t: Seq<char>) -> PendingChange {
    s[choose|i: int| 0 <= i < s.len() && s[i].token@ == t]
}

/// The ledger with every record of this user removed, order kept.
pub open spec fn without_user(s: Seq<PendingChange>, u: u32) -> Seq<PendingChange>
    decreases s.len(),
{
    if s.len() == 0 {
        Seq::empty()
    } else if s.last().user_id == u {
        without_user(s.drop_last(), u)
    } else {
        without_user(s.drop_last(), u).push(s.last())
    }
}

/// The ledger with every record carrying this token removed, order kept.
pub open spec fn without_token(s: Seq<PendingChange>, t: Seq<char>) -> Seq<PendingChange>
    decreases s.len(),
{
    if s.len() == 0 {
        Seq::empty()
    } else if s.last().token@ == t {
        without_token(s.drop_last(), t)
    } else {
        without_token(s.drop_last(), t).push(s.last())
    }
}

/// The ledger as `begin` sees it after step one: an expired record of the
/// requesting user is discarded, a live one is kept (and will refuse the
/// request), and nothing else changes.
pub open spec fn reclaim(s: Seq<PendingChange>, u: u32, now: u64) -> Seq<PendingChange> {
    if has_user(s, u) && !has_live(s, u, now) {
        without_user(s, u)
    } else {
        s
    }
}

// ---------------------------------------------------------------------------
// Facts about the removal operators.
// ---------------------------------------------------------------------------

/// A token found after removing a user's record was already there before.
proof fn lemma_without_user_token_mem(s: Seq<PendingChange>, u: u32, t: Seq<char>)
    ensures
        token_present(without_user(s, u), t) ==> token_present(s, t),
    decreases s.len(),
{
    if s.len() > 0 {
        lemma_without_user_token_mem(s.drop_last(), u, t);
        if token_present(without_user(s, u), t) {
            if s.last().user_id != u {
                let w = without_user(s.drop_last(), u).push(s.last());
                let i = choose|i: int| 0 <= i < w.len() && w[i].token@ == t;
                if i < w.len() - 1 {
                    assert(token_present(without_user(s.drop_last(), u), t));
                }
            }
            if token_present(s.drop_last(), t) {
                let j = choose|j: int| 0 <= j < s.drop_last().len() && s.drop_last()[j].token@ == t;
                assert(s[j].token@ == t);
            } else {
                assert(s[s.len() - 1].token@ == t);
            }
        }
    }
}

/// A user found after removing a token's record was already there before.
proof fn lemma_without_token_user_mem(s: Seq<PendingChange>, t: Seq<char>, v: u32)
    ensures
        has_user(without_token(s, t), v) ==> has_user(s, v),
    decreases s.len(),
{
    if s.len() > 0 {
        lemma_without_token_user_mem(s.drop_last(), t, v);
        if has_user(without_token(s, t), v) {
            if s.last().token@ != t {
                let w = without_token(s.drop_last(), t).push(s.last());
                let i = choose|i: int| 0 <= i < w.len() && w[i].user_id == v;
                if i < w.len() - 1 {
                    assert(has_user(without_token(s.drop_last(), t), v));
                }
            }
            if has_user(s.drop_last(), v) {
                let j = choose|j: int| 0 <= j < s.drop_last().len() && s.drop_last()[j].user_id
                    == v;
                assert(s[j].user_id == v);
            } else {
                assert(s[s.len() - 1].user_id == v);
            }
        }
    }
}

/// A token found after removing a token's record was already there before.
proof fn lemma_without_token_token_mem(s: Seq<PendingChange>, t: Seq<char>, q: Seq<char>)
    ensures
        token_present(without_token(s, t), q) ==> token_present(s, q),
    decreases s.len(),
{
    if s.len() > 0 {
        lemma_without_token_token_mem(s.drop_last(), t, q);
        if token_present(without_token(s, t), q) {
            if s.last().token@ != t {
                let w = without_token(s.drop_last(), t).push(s.last());
                let i = choose|i: int| 0 <= i < w.len() && w[i].token@ == q;
                if i < w.len() - 1 {
                    assert(token_present(without_token(s.drop_last(), t), q));
                }
            }
            if token_present(s.drop_last(), q) {
                let j = choose|j: int| 0 <= j < s.drop_last().len() && s.drop_last()[j].token@
                    == q;
                assert(s[j].token@ == q);
            } else {
                assert(s[s.len() - 1].token@ == q);
            }
        }
    }
}

/// A user found after removing a user's record was already there before.
proof fn lemma_without_user_user_mem(s: Seq<PendingChange>, u: u32, v: u32)
    ensures
        has_user(without_user(s, u), v) ==> has_user(s, v),
    decreases s.len(),
{
    if s.len() > 0 {
        lemma_without_user_user_mem(s.drop_last(), u, v);
        if has_user(without_user(s, u), v) {
            if s.last().user_id != u {
                let w = without_user(s.drop_last(), u).push(s.last());
                let i = choose|i: int| 0 <= i < w.len() && w[i].user_id == v;
                if i < w.len() - 1 {
                    assert(has_user(without_user(s.drop_last(), u), v));
                }
            }
            if has_user(s.drop_last(), v) {
                let j = choose|j: int| 0 <= j < s.drop_last().len() && s.drop_last()[j].user_id
                    == v;
                assert(s[j].user_id == v);
            } else {
                assert(s[s.len() - 1].user_id == v);
            }
        }
    }
}

/// Removing a user's record removes all of that user.
pub proof fn lemma_without_user_gone(s: Seq<PendingChange>, u: u32)
    ensures
        !has_user(without_user(s, u), u),
        forall|i: int|
            0 <= i < without_user(s, u).len() ==> #[trigger] without_user(s, u)[i].user_id != u,
    decreases s.len(),
{
    if s.len() > 0 {
        lemma_without_user_gone(s.drop_last(), u);
    }
}

/// Both uniqueness invariants survive removal by user.
proof fn lemma_without_user_wf(s: Seq<PendingChange>, u: u32)
    requires
        users_unique(s),
        tokens_unique(s),
    ensures
        users_unique(without_user(s, u)),
        tokens_unique(without_user(s, u)),
    decreases s.len(),
{
    if s.len() > 0 {
        assert(forall|i: int| 0 <= i < s.drop_last().len() ==> s.drop_last()[i] == s[i]);
        lemma_without_user_wf(s.drop_last(), u);
        if s.last().user_id != u {
            let w = without_user(s.drop_last(), u);
            lemma_without_user_token_mem(s.drop_last(), u, s.last().token@);
            lemma_without_user_user_mem(s.drop_last(), u, s.last().user_id);
            if token_present(w, s.last().token@) {
                let j = choose|j: int| 0 <= j < s.drop_last().len() && s.drop_last()[j].token@
                    == s.last().token@;
                assert(s[j].token@ == s[s.len() - 1].token@);
                assert(false);
            }
            if has_user(w, s.last().user_id) {
                let j = choose|j: int| 0 <= j < s.drop_last().len() && s.drop_last()[j].user_id
                    == s.last().user_id;
                assert(s[j].user_id == s[s.len() - 1].user_id);
                assert(false);
            }
            assert forall|i: int, j: int|
                0 <= i < j < w.push(s.last()).len() implies w.push(s.last())[i].user_id != w.push(
                s.last(),
            )[j].user_id && w.push(s.last())[i].token@ != w.push(s.last())[j].token@ by {
                if j < w.len() {
                    assert(w[i].user_id != w[j].user_id);
                    assert(w[i].token@ != w[j].token@);
                } else {
                    assert(!has_user(w, s.last().user_id));
                    assert(!token_present(w, s.last().token@));
                }
            }
        }
    }
}

/// Both uniqueness invariants survive removal by token.
proof fn lemma_without_token_wf(s: Seq<PendingChange>, t: Seq<char>)
    requires
        users_unique(s),
        tokens_unique(s),
    ensures
        users_unique(without_token(s, t)),
        tokens_unique(without_token(s, t)),
    decreases s.len(),
{
    if s.len() > 0 {
        assert(forall|i: int| 0 <= i < s.drop_last().len() ==> s.drop_last()[i] == s[i]);
        lemma_without_token_wf(s.drop_last(), t);
        if s.last().token@ != t {
            let w = without_token(s.drop_last(), t);
            lemma_without_token_token_mem(s.drop_last(), t, s.last().token@);
            lemma_without_token_user_mem(s.drop_last(), t, s.last().user_id);
            if token_present(w, s.last().token@) {
                let j = choose|j: int| 0 <= j < s.drop_last().len() && s.drop_last()[j].token@
                    == s.last().token@;
                assert(s[j].token@ == s[s.len() - 1].token@);
                assert(false);
            }
            if has_user(w, s.last().user_id) {
                let j = choose|j: int| 0 <= j < s.drop_last().len() && s.drop_last()[j].user_id
                    == s.last().user_id;
                assert(s[j].user_id == s[s.len() - 1].user_id);
                assert(false);
            }
            assert forall|i: int, j: int|
                0 <= i < j < w.push(s.last()).len() implies w.push(s.last())[i].user_id != w.push(
                s.last(),
            )[j].user_id && w.push(s.last())[i].token@ != w.push(s.last())[j].token@ by {
                if j < w.len() {
                    assert(w[i].user_id != w[j].user_id);
                    assert(w[i].token@ != w[j].token@);
                } else {
                    assert(!has_user(w, s.last().user_id));
                    assert(!token_present(w, s.last().token@));
                }
            }
        }
    }
}

// ---------------------------------------------------------------------------
// The laws of the ledger.
// ---------------------------------------------------------------------------

/// Single active pending change: a successful `begin` leaves a record of the
/// requesting user that stays live through the whole time-to-live, so a
/// second `begin` before that — which refuses exactly when a live record
/// exists — answers `AlreadyInProgress`.
pub proof fn lemma_single_active_pending(
    pre: Seq<PendingChange>,
    rec: PendingChange,
    u: u32,
    now1: u64,
    now2: u64,
)
    requires
        rec.user_id == u,
        now2 <= rec.expires_at,
    ensures
        has_live(reclaim(pre, u, now1).push(rec), u, now2),
{
    let post = reclaim(pre, u, now1).push(rec);
    assert(post[post.len() - 1] == rec);
}

/// Expiry reclaim: once a user's pending record has expired, no record of
/// that user is live any more, so `begin` no longer answers
/// `AlreadyInProgress` — the stale record is discarded and replaced.
pub proof fn lemma_expiry_reclaim(s: Seq<PendingChange>, u: u32, now: u64)
    requires
        users_unique(s),
        has_user(s, u),
        now > rec_for_user(s, u).expires_at,
    ensures
        !has_live(s, u, now),
{
    let k = choose|i: int| 0 <= i < s.len() && s[i].user_id == u;
    if has_live(s, u, now) {
        let j = choose|j: int| 0 <= j < s.len() && s[j].user_id == u && now <= s[j].expires_at;
        if j < k {
            assert(s[j].user_id != s[k].user_id);
        } else if k < j {
            assert(s[k].user_id != s[j].user_id);
        }
    }
}

/// Single-use confirm: consuming a token removes every record carrying it,
/// so a second `confirm` with the same token — which refuses exactly when
/// the token is absent — answers `TokenNotFound`.
pub proof fn lemma_single_use_confirm(s: Seq<PendingChange>, t: Seq<char>)
    ensures
        !token_present(without_token(s, t), t),
    decreases s.len(),
{
    if s.len() > 0 {
        lemma_single_use_confirm(s.drop_last(), t);
        if s.last().token@ != t {
            let w = without_token(s.drop_last(), t);
            if token_present(w.push(s.last()), t) {
                let i = choose|i: int| 0 <= i < w.push(s.last()).len() && w.push(s.last())[i].token@
                    == t;
                if i < w.len() {
                    assert(token_present(w, t));
                }
            }
        }
    }
}

// ---------------------------------------------------------------------------
// The ledger itself.
// ---------------------------------------------------------------------------

/// One workflow kind's ledger of in-flight changes.
pub struct Ledger {
    records: Vec<PendingChange>,
    ttl: u64,
}

impl View for Ledger {
    type V = Seq<PendingChange>;

    closed spec fn view(&self) -> Seq<PendingChange> {
        self.records@
    }
}

impl Ledger {
    /// This ledger's time-to-live for new records, in seconds.
    pub closed spec fn ttl(&self) -> u64 {
        self.ttl
    }

    /// The ledger invariant: one record per user, one record per token.
    pub open spec fn wf(&self) -> bool {
        users_unique(self@) && tokens_unique(self@)
    }

    /// An empty ledger whose records will live `ttl` seconds.
    pub fn new(ttl: u64) -> (r: Ledger)
        ensures
            r@ == Seq::<PendingChange>::empty(),
            r.ttl() == ttl,
            r.wf(),
    {
        Ledger { records: Vec::new(), ttl }
    }

    /// The index of this user's record, if any.
    #[verifier::loop_isolation(false)]
    fn find_user(&self, user_id: u32) -> (r: Option<usize>)
        ensures
            r matches Some(i) ==> i < self@.len() && self@[i as int].user_id == user_id,
            r is None ==> !has_user(self@, user_id),
    {
        let n = self.records.len();
        for i in 0..n
            invariant
                n == self.records.len(),
                forall|j: int| 0 <= j < i ==> self.records@[j].user_id != user_id,
        {
            if self.records[i].user_id == user_id {
                return Some(i);
            }
        }
        None
    }

    /// The index of the record carrying this token, if any.
    #[verifier::loop_isolation(false)]
    fn find_token(&self, token: &str) -> (r: Option<usize>)
        ensures
            r matches Some(i) ==> i < self@.len() && self@[i as int].token@ == token@,
            r is None ==> !token_present(self@, token@),
    {
        let t: String = token.to_owned();
        let n = self.records.len();
        for i in 0..n
            invariant
                n == self.records.len(),
                t@ == token@,
                forall|j: int| 0 <= j < i ==> self.records@[j].token@ != token@,
        {
            if self.records[i].token == t {
                return Some(i);
            }
        }
        None
    }

    /// Removes this user's record, if any; order kept.
    #[verifier::loop_isolation(false)]
    fn remove_user(&mut self, user_id: u32)
        ensures
            final(self)@ == without_user(old(self)@, user_id),
            final(self).ttl() == old(self).ttl(),
    {
        let n = self.records.len();
        let mut kept: Vec<PendingChange> = Vec::new();
        let ghost orig = self.records@;
        for i in 0..n
            invariant
                n == orig.len(),
                self.records@ == orig,
                kept@ == without_user(orig.subrange(0, i as int), user_id),
        {
            proof {
                let sub = orig.subrange(0, i + 1);
                assert(sub.drop_last() =~= orig.subrange(0, i as int));
                assert(sub.last() == orig[i as int]);
            }
            if self.records[i].user_id != user_id {
                let rec = self.records[i].clone();
                kept.push(rec);
            }
        }
        proof {
            assert(orig.subrange(0, n as int) =~= orig);
        }
        self.records = kept;
    }

    /// Removes the record carrying this token, if any; order kept.
    #[verifier::loop_isolation(false)]
    fn remove_token(&mut self, token: &str)
        ensures
            final(self)@ == without_token(old(self)@, token@),
            final(self).ttl() == old(self).ttl(),
    {
        let t: String = token.to_owned();
        let n = self.records.len();
        let mut kept: Vec<PendingChange> = Vec::new();
        let ghost orig = self.records@;
        for i in 0..n
            invariant
                n == orig.len(),
                self.records@ == orig,
                t@ == token@,
                kept@ == without_token(orig.subrange(0, i as int), token@),
        {
            proof {
                let sub = orig.subrange(0, i + 1);
                assert(sub.drop_last() =~= orig.subrange(0, i as int));
                assert(sub.last() == orig[i as int]);
            }
            if !(self.records[i].token == t) {
                let rec = self.records[i].clone();
                kept.push(rec);
            }
        }
        proof {
            assert(orig.subrange(0, n as int) =~= orig);
        }
        self.records = kept;
    }

    /// Whether a record — live or expired — exists for this user.
    pub fn in_progress(&self, user_id: u32) -> (r: bool)
        ensures
            r == has_user(self@, user_id),
    {
        self.find_user(user_id).is_some()
    }

    /// Whether a record of this user exists that has not expired yet.
    #[verifier::loop_isolation(false)]
    pub fn has_live_record(&self, user_id: u32, now: u64) -> (r: bool)
        ensures
            r == has_live(self@, user_id, now),
    {
        let n = self.records.len();
        for i in 0..n
            invariant
                n == self.records.len(),
                forall|j: int|
                    0 <= j < i ==> !(self.records@[j].user_id == user_id && now
                        <= self.records@[j].expires_at),
        {
            if self.records[i].user_id == user_id && now <= self.records[i].expires_at {
                proof {
                    assert(self.records@[i as int].user_id == user_id && now
                        <= self.records@[i as int].expires_at);
                }
                return true;
            }
        }
        false
    }

    /// Step one to three of a request, with the fresh token handed in: refuse
    /// while a live record exists, discard an expired one, refuse a token
    /// collision, then insert the new record.
    pub fn begin_with_token(
        &mut self,
        user_id: u32,
        payload: Payload,
        token: String,
        now: u64,
    ) -> (r: Result<(), AuthError>)
        requires
            old(self).wf(),
            now + old(self).ttl() <= u64::MAX,
        ensures
            final(self).wf(),
            final(self).ttl() == old(self).ttl(),
            r == Err::<(), AuthError>(AuthError::AlreadyInProgress) <==> has_live(
                old(self)@,
                user_id,
                now,
            ),
            r == Err::<(), AuthError>(AuthError::AlreadyInProgress) ==> final(self)@ == old(self)@,
            r matches Err(e) ==> e == AuthError::AlreadyInProgress || e == AuthError::InternalError,
            r == Err::<(), AuthError>(AuthError::InternalError) <==> !has_live(
                old(self)@,
                user_id,
                now,
            ) && token_present(reclaim(old(self)@, user_id, now), token@),
            r == Err::<(), AuthError>(AuthError::InternalError) ==> final(self)@ == reclaim(
                old(self)@,
                user_id,
                now,
            ),
            r is Ok <==> !has_live(old(self)@, user_id, now)
                && !token_present(reclaim(old(self)@, user_id, now), token@),
            r is Ok ==> final(self)@ == reclaim(
                old(self)@,
                user_id,
                now,
            ).push(
                (PendingChange {
                    user_id,
                    token,
                    payload,
                    created_at: now,
                    expires_at: (now + old(self).ttl()) as u64,
                }),
            ),
    {
        let ghost orig = self@;
        if let Some(i) = self.find_user(user_id) {
            if now <= self.records[i].expires_at {
                proof {
                    assert(has_live(orig, user_id, now));
                }
                return Err(AuthError::AlreadyInProgress);
            }
            proof {
                if has_live(orig, user_id, now) {
                    let j = choose|j: int|
                        0 <= j < orig.len() && orig[j].user_id == user_id && now
                            <= orig[j].expires_at;
                    if j < i {
                        assert(orig[j].user_id != orig[i as int].user_id);
                    } else if i < j {
                        assert(orig[i as int].user_id != orig[j].user_id);
                    }
                    assert(false);
                }
            }
            self.remove_user(user_id);
            proof {
                lemma_without_user_wf(orig, user_id);
            }
        } else {
            proof {
                assert(reclaim(orig, user_id, now) == orig);
            }
        }
        proof {
            assert(self@ == reclaim(orig, user_id, now));
        }
        if self.find_token(token.as_str()).is_some() {
            return Err(AuthError::InternalError);
        }
        let record = PendingChange {
            user_id,
            token,
            payload,
            created_at: now,
            expires_at: now + self.ttl,
        };
        proof {
            lemma_without_user_gone(orig, user_id);
            let cur = self@;
            assert forall|i: int, j: int|
                0 <= i < j < cur.push(record).len() implies cur.push(record)[i].user_id != cur.push(
                record,
            )[j].user_id && cur.push(record)[i].token@ != cur.push(record)[j].token@ by {
                if j < cur.len() {
                    assert(cur[i].user_id != cur[j].user_id);
                    assert(cur[i].token@ != cur[j].token@);
                } else {
                    assert(cur.push(record)[j] == record);
                    if has_user(orig, user_id) && !has_live(orig, user_id, now) {
                        assert(cur[i].user_id != user_id);
                    } else {
                        assert(!has_user(orig, user_id));
                    }
                    assert(!token_present(cur, record.token@));
                }
            }
        }
        self.records.push(record);
        Ok(())
    }

    /// A request: draws a fresh opaque token, then runs `begin_with_token`;
    /// the token is returned for the caller to hand to the notifier.
    pub fn begin(&mut self, user_id: u32, payload: Payload, now: u64) -> (r: Result<
        String,
        AuthError,
    >)
        requires
            old(self).wf(),
            now + old(self).ttl() <= u64::MAX,
        ensures
            final(self).wf(),
            final(self).ttl() == old(self).ttl(),
            r == Err::<String, AuthError>(AuthError::AlreadyInProgress) <==> has_live(
                old(self)@,
                user_id,
                now,
            ),
            r matches Err(e) ==> e == AuthError::AlreadyInProgress || e == AuthError::InternalError,
            r == Err::<String, AuthError>(AuthError::AlreadyInProgress) ==> final(self)@ == old(self)@,
            r == Err::<String, AuthError>(AuthError::InternalError) ==> final(self)@ == reclaim(
                old(self)@,
                user_id,
                now,
            ),
            r matches Ok(t) ==> !has_live(old(self)@, user_id, now) && !token_present(
                reclaim(old(self)@, user_id, now),
                t@,
            ) && final(self)@ == reclaim(old(self)@, user_id, now).push(
                (PendingChange {
                    user_id,
                    token: t,
                    payload,
                    created_at: now,
                    expires_at: (now + old(self).ttl()) as u64,
                }),
            ),
    {
        let token = crate::crypto::fresh_token();
        match self.begin_with_token(user_id, payload, token.clone(), now) {
            Ok(_) => Ok(token),
            Err(e) => Err(e),
        }
    }

    /// Consumes the record carrying this token: single-use, and an expired
    /// record is discarded with a distinct answer so the caller can restart
    /// the workflow.
    pub fn confirm(&mut self, token: &str, now: u64) -> (r: Result<(u32, Payload), AuthError>)
        requires
            old(self).wf(),
        ensures
            final(self).wf(),
            final(self).ttl() == old(self).ttl(),
            r == Err::<(u32, Payload), AuthError>(AuthError::TokenNotFound) <==> !token_present(
                old(self)@,
                token@,
            ),
            r == Err::<(u32, Payload), AuthError>(AuthError::TokenNotFound) ==> final(self)@ == old(self)@,
            r matches Err(e) ==> e == AuthError::TokenNotFound || e == AuthError::Expired,
            r == Err::<(u32, Payload), AuthError>(AuthError::Expired) <==> token_present(
                old(self)@,
                token@,
            ) && now > rec_with_token(old(self)@, token@).expires_at,
            r is Ok <==> token_present(old(self)@, token@) && now <= rec_with_token(
                old(self)@,
                token@,
            ).expires_at,
            r matches Ok(c) ==> c.0 == rec_with_token(old(self)@, token@).user_id && c.1
                == rec_with_token(old(self)@, token@).payload,
            token_present(old(self)@, token@) ==> final(self)@ == without_token(
                old(self)@,
                token@,
            ),
    {
        let ghost orig = self@;
        let i = match self.find_token(token) {
            Some(i) => i,
            None => {
                return Err(AuthError::TokenNotFound);
            },
        };
        proof {
            let k = choose|k: int| 0 <= k < orig.len() && orig[k].token@ == token@;
            if k < i {
                assert(orig[k].token@ != orig[i as int].token@);
            } else if i < k {
                assert(orig[i as int].token@ != orig[k].token@);
            }
            assert(rec_with_token(orig, token@) == orig[i as int]);
        }
        let user_id = self.records[i].user_id;
        let payload = self.records[i].payload.clone();
        let expires_at = self.records[i].expires_at;
        self.remove_token(token);
        proof {
            lemma_without_token_wf(orig, token@);
            lemma_single_use_confirm(orig, token@);
        }
        if now > expires_at {
            Err(AuthError::Expired)
        } else {
            Ok((user_id, payload))
        }
    }

    /// Rotates this user's token: refused while the record is younger than
    /// `RESEND_INTERVAL`; otherwise the record is replaced by a fresh one
    /// carrying the same payload, with its clock restarted.
    pub fn resend_with_token(&mut self, user_id: u32, token: String, now: u64) -> (r: Result<
        (),
        AuthError,
    >)
        requires
            old(self).wf(),
            now + old(self).ttl() <= u64::MAX,
        ensures
            final(self).wf(),
            final(self).ttl() == old(self).ttl(),
            r == Err::<(), AuthError>(AuthError::TokenNotFound) <==> !has_user(old(self)@, user_id),
            r == Err::<(), AuthError>(AuthError::TooFast) <==> has_user(old(self)@, user_id) && now
                < rec_for_user(old(self)@, user_id).created_at + RESEND_INTERVAL,
            r matches Err(e) ==> e == AuthError::TokenNotFound || e == AuthError::TooFast || e
                == AuthError::InternalError,
            (r == Err::<(), AuthError>(AuthError::TokenNotFound) || r == Err::<(), AuthError>(
                AuthError::TooFast,
            )) ==> final(self)@ == old(self)@,
            r == Err::<(), AuthError>(AuthError::InternalError) ==> final(self)@ == without_user(
                old(self)@,
                user_id,
            ),
            r is Ok <==> has_user(old(self)@, user_id) && now >= rec_for_user(
                old(self)@,
                user_id,
            ).created_at + RESEND_INTERVAL && !token_present(
                without_user(old(self)@, user_id),
                token@,
            ),
            r is Ok ==> final(self)@ == without_user(
                old(self)@,
                user_id,
            ).push(
                (PendingChange {
                    user_id,
                    token,
                    payload: rec_for_user(old(self)@, user_id).payload,
                    created_at: now,
                    expires_at: (now + old(self).ttl()) as u64,
                }),
            ),
    {
        let ghost orig = self@;
        let i = match self.find_user(user_id) {
            Some(i) => i,
            None => {
                return Err(AuthError::TokenNotFound);
            },
        };
        proof {
            let k = choose|k: int| 0 <= k < orig.len() && orig[k].user_id == user_id;
            if k < i {
                assert(orig[k].user_id != orig[i as int].user_id);
            } else if i < k {
                assert(orig[i as int].user_id != orig[k].user_id);
            }
            assert(rec_for_user(orig, user_id) == orig[i as int]);
        }
        if now < self.records[i].created_at || now - self.records[i].created_at < RESEND_INTERVAL {
            return Err(AuthError::TooFast);
        }
        let payload = self.records[i].payload.clone();
        self.remove_user(user_id);
        proof {
            lemma_without_user_wf(orig, user_id);
            lemma_without_user_gone(orig, user_id);
        }
        if self.find_token(token.as_str()).is_some() {
            return Err(AuthError::InternalError);
        }
        let record = PendingChange {
            user_id,
            token,
            payload,
            created_at: now,
            expires_at: now + self.ttl,
        };
        proof {
            let cur = self@;
            assert forall|a: int, b: int|
                0 <= a < b < cur.push(record).len() implies cur.push(record)[a].user_id != cur.push(
                record,
            )[b].user_id && cur.push(record)[a].token@ != cur.push(record)[b].token@ by {
                if b < cur.len() {
                    assert(cur[a].user_id != cur[b].user_id);
                    assert(cur[a].token@ != cur[b].token@);
                } else {
                    assert(cur.push(record)[b] == record);
                    assert(cur[a].user_id != user_id);
                    assert(!token_present(cur, record.token@));
                }
            }
        }
        self.records.push(record);
        Ok(())
    }

    /// Rotates this user's token with a fresh random one; the new token is
    /// returned for the caller to mail out again.
    pub fn resend(&mut self, user_id: u32, now: u64) -> (r: Result<String, AuthError>)
        requires
            old(self).wf(),
            now + old(self).ttl() <= u64::MAX,
        ensures
            final(self).wf(),
            final(self).ttl() == old(self).ttl(),
            r == Err::<String, AuthError>(AuthError::TokenNotFound) <==> !has_user(
                old(self)@,
                user_id,
            ),
            r == Err::<String, AuthError>(AuthError::TooFast) <==> has_user(old(self)@, user_id)
                && now < rec_for_user(old(self)@, user_id).created_at + RESEND_INTERVAL,
            r matches Err(e) ==> e == AuthError::TokenNotFound || e == AuthError::TooFast || e
                == AuthError::InternalError,
            (r == Err::<String, AuthError>(AuthError::TokenNotFound) || r == Err::<
                String,
                AuthError,
            >(AuthError::TooFast)) ==> final(self)@ == old(self)@,
            r == Err::<String, AuthError>(AuthError::InternalError) ==> final(self)@
                == without_user(old(self)@, user_id),
            r matches Ok(t) ==> has_user(old(self)@, user_id) && !token_present(
                without_user(old(self)@, user_id),
                t@,
            ) && final(self)@ == without_user(
                old(self)@,
                user_id,
            ).push(
                (PendingChange {
                    user_id,
                    token: t,
                    payload: rec_for_user(old(self)@, user_id).payload,
                    created_at: now,
                    expires_at: (now + old(self).ttl()) as u64,
                }),
            ),
    {
        let token = crate::crypto::fresh_token();
        match self.resend_with_token(user_id, token.clone(), now) {
            Ok(_) => Ok(token),
            Err(e) => Err(e),
        }
    }
}


/// Every record left by a user removal is a record of the original.
pub proof fn lemma_without_user_index_mem(s: Seq<PendingChange>, u: u32, i: int)
    requires
        0 <= i < without_user(s, u).len(),
    ensures
        exists|j: int| 0 <= j < s.len() && s[j] == without_user(s, u)[i],
    decreases s.len(),
{
    if s.len() > 0 {
        if s.last().user_id == u {
            lemma_without_user_index_mem(s.drop_last(), u, i);
            let j = choose|j: int|
                0 <= j < s.drop_last().len() && s.drop_last()[j] == without_user(s, u)[i];
            assert(s[j] == without_user(s, u)[i]);
        } else {
            let w = without_user(s.drop_last(), u);
            if i < w.len() {
                lemma_without_user_index_mem(s.drop_last(), u, i);
                let j = choose|j: int|
                    0 <= j < s.drop_last().len() && s.drop_last()[j] == without_user(
                        s.drop_last(),
                        u,
                    )[i];
                assert(s[j] == without_user(s, u)[i]);
            } else {
                assert(without_user(s, u)[i] == s.last());
            }
        }
    }
}

/// Every record left by a user removal is a record of the original.
pub proof fn lemma_without_user_elts(s: Seq<PendingChange>, u: u32)
    ensures
        forall|i: int|
            0 <= i < without_user(s, u).len() ==> exists|j: int|
                0 <= j < s.len() && s[j] == #[trigger] without_user(s, u)[i],
{
    assert forall|i: int| 0 <= i < without_user(s, u).len() implies exists|j: int|
        0 <= j < s.len() && s[j] == #[trigger] without_user(s, u)[i] by {
        lemma_without_user_index_mem(s, u, i);
    }
}

/// Every record left by a token removal is a record of the original.
pub proof fn lemma_without_token_index_mem(s: Seq<PendingChange>, t: Seq<char>, i: int)
    requires
        0 <= i < without_token(s, t).len(),
    ensures
        exists|j: int| 0 <= j < s.len() && s[j] == without_token(s, t)[i],
    decreases s.len(),
{
    if s.len() > 0 {
        if s.last().token@ == t {
            lemma_without_token_index_mem(s.drop_last(), t, i);
            let j = choose|j: int|
                0 <= j < s.drop_last().len() && s.drop_last()[j] == without_token(s, t)[i];
            assert(s[j] == without_token(s, t)[i]);
        } else {
            let w = without_token(s.drop_last(), t);
            if i < w.len() {
                lemma_without_token_index_mem(s.drop_last(), t, i);
                let j = choose|j: int|
                    0 <= j < s.drop_last().len() && s.drop_last()[j] == without_token(
                        s.drop_last(),
                        t,
                    )[i];
                assert(s[j] == without_token(s, t)[i]);
            } else {
                assert(without_token(s, t)[i] == s.last());
            }
        }
    }
}

/// Every record left by a token removal is a record of the original.
pub proof fn lemma_without_token_elts(s: Seq<PendingChange>, t: Seq<char>)
    ensures
        forall|i: int|
            0 <= i < without_token(s, t).len() ==> exists|j: int|
                0 <= j < s.len() && s[j] == #[trigger] without_token(s, t)[i],
{
    assert forall|i: int| 0 <= i < without_token(s, t).len() implies exists|j: int|
        0 <= j < s.len() && s[j] == #[trigger] without_token(s, t)[i] by {
        lemma_without_token_index_mem(s, t, i);
    }
}

} // verus!
