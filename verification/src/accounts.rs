//! The account repository: identity records with credentials, the verified
//! flag, the admin flag and profile fields. Deletion is soft: the record
//! moves to an archive. Identifiers are store-generated and monotonic.

use crate::AuthError;
use vstd::prelude::*;

verus! {

/// One account.
#[derive(Debug)]
pub struct UserDB {
    /// Unique, monotonic, assigned at creation.
    pub user_id: u32,
    pub first_name: String,
    pub last_name: String,
    /// Unique among live accounts; guarded at registration.
    pub email: String,
    /// The credential at rest: a salted PHC hash, never the plain password.
    pub password: String,
    /// `true` stands for the gender letter `m` of the transport layer.
    pub gender: bool,
    /// Flips to `true` exactly once, on email verification.
    pub verified: bool,
    pub admin: bool,
}

impl Clone for UserDB {
    fn clone(&self) -> (res: Self)
        ensures
            res == *self,
    {
        UserDB {
            user_id: self.user_id,
            first_name: self.first_name.clone(),
            last_name: self.last_name.clone(),
            email: self.email.clone(),
            password: self.password.clone(),
            gender: self.gender,
            verified: self.verified,
            admin: self.admin,
        }
    }
}

/// A profile mutation, one tagged variant per field that may change, so an
/// unknown field name is unrepresentable.
#[derive(Debug)]
pub enum ProfileField {
    FirstName(String),
    LastName(String),
    /// `true` stands for `m`.
    Gender(bool),
}

/// No two accounts share an id.
pub open spec fn ids_unique(s: Seq<UserDB>) -> bool {
    forall|i: int, j: int| 0 <= i < j < s.len() ==> s[i].user_id != s[j].user_id
}

/// Whether some account has this id.
pub open spec fn has_id(s: Seq<UserDB>, id: u32) -> bool {
    exists|i: int| 0 <= i < s.len() && s[i].user_id == id
}

/// Whether some account has this email.
pub open spec fn has_email(s: Seq<UserDB>, e: Seq<char>) -> bool {
    exists|i: int| 0 <= i < s.len() && s[i].email@ == e
}

/// The index of this id's account; meaningful under `ids_unique` when present.
pub open spec fn user_index(s: Seq<UserDB>, id: u32) -> int {
    choose|i: int| 0 <= i < s.len() && s[i].user_id == id
}

/// The account with this id; meaningful under `ids_unique` when present.
pub open spec fn user_with_id(s: Seq<UserDB>, id: u32) -> UserDB {
    s[user_index(s, id)]
}

/// The first account carrying this email, in store order.
pub open spec fn first_with_email(s: Seq<UserDB>, e: Seq<char>) -> Option<UserDB>
    decreases s.len(),
{
    if s.len() == 0 {
        None
    } else if s[0].email@ == e {
        Some(s[0])
    } else {
        first_with_email(s.drop_first(), e)
    }
}

/// The first account carrying both names, in store order.
pub open spec fn first_with_names(s: Seq<UserDB>, f: Seq<char>, l: Seq<char>) -> Option<UserDB>
    decreases s.len(),
{
    if s.len() == 0 {
        None
    } else if s[0].first_name@ == f && s[0].last_name@ == l {
        Some(s[0])
    } else {
        first_with_names(s.drop_first(), f, l)
    }
}

/// The store with this id's account removed, order kept.
pub open spec fn without_id(s: Seq<UserDB>, id: u32) -> Seq<UserDB>
    decreases s.len(),
{
    if s.len() == 0 {
        Seq::empty()
    } else if s.last().user_id == id {
        without_id(s.drop_last(), id)
    } else {
        without_id(s.drop_last(), id).push(s.last())
    }
}

/// Searching an email-free prefix does not change the answer.
proof fn lemma_first_email_skip(s: Seq<UserDB>, e: Seq<char>, i: int)
    requires
        0 <= i <= s.len(),
        forall|j: int| 0 <= j < i ==> s[j].email@ != e,
    ensures
        first_with_email(s, e) == first_with_email(s.skip(i), e),
    decreases i,
{
    if i > 0 {
        assert(s.skip(0) =~= s);
        lemma_first_email_skip_step(s, e, i - 1);
        lemma_first_email_skip(s, e, i - 1);
    } else {
        assert(s.skip(0) =~= s);
    }
}

/// One step of the prefix walk, for emails.
proof fn lemma_first_email_skip_step(s: Seq<UserDB>, e: Seq<char>, i: int)
    requires
        0 <= i < s.len(),
        s[i].email@ != e,
    ensures
        first_with_email(s.skip(i), e) == first_with_email(s.skip(i + 1), e),
{
    assert(s.skip(i)[0] == s[i]);
    assert(s.skip(i).drop_first() =~= s.skip(i + 1));
}

/// A found first email holder is an element of the store.
pub proof fn lemma_first_email_mem(s: Seq<UserDB>, e: Seq<char>)
    ensures
        first_with_email(s, e) matches Some(u) ==> exists|i: int|
            0 <= i < s.len() && s[i] == u && u.email@ == e,
    decreases s.len(),
{
    if s.len() > 0 {
        lemma_first_email_mem(s.drop_first(), e);
        if s[0].email@ != e && first_with_email(s, e) is Some {
            let u = first_with_email(s.drop_first(), e)->Some_0;
            let i = choose|i: int|
                0 <= i < s.drop_first().len() && s.drop_first()[i] == u && u.email@ == e;
            assert(s[i + 1] == u);
        }
    }
}

/// Searching a name-free prefix does not change the answer.
proof fn lemma_first_names_skip(s: Seq<UserDB>, f: Seq<char>, l: Seq<char>, i: int)
    requires
        0 <= i <= s.len(),
        forall|j: int| 0 <= j < i ==> !(s[j].first_name@ == f && s[j].last_name@ == l),
    ensures
        first_with_names(s, f, l) == first_with_names(s.skip(i), f, l),
    decreases i,
{
    if i > 0 {
        assert(s.skip(i - 1)[0] == s[i - 1]);
        assert(s.skip(i - 1).drop_first() =~= s.skip(i));
        lemma_first_names_skip(s, f, l, i - 1);
    } else {
        assert(s.skip(0) =~= s);
    }
}

/// An id found after a removal was already there before.
proof fn lemma_without_id_mem(s: Seq<UserDB>, id: u32, v: u32)
    ensures
        has_id(without_id(s, id), v) ==> has_id(s, v),
    decreases s.len(),
{
    if s.len() > 0 {
        lemma_without_id_mem(s.drop_last(), id, v);
        if has_id(without_id(s, id), v) {
            if s.last().user_id != id {
                let w = without_id(s.drop_last(), id).push(s.last());
                let i = choose|i: int| 0 <= i < w.len() && w[i].user_id == v;
                if i < w.len() - 1 {
                    assert(has_id(without_id(s.drop_last(), id), v));
                }
            }
            if has_id(s.drop_last(), v) {
                let j = choose|j: int| 0 <= j < s.drop_last().len() && s.drop_last()[j].user_id
                    == v;
                assert(s[j].user_id == v);
            } else {
                assert(s[s.len() - 1].user_id == v);
            }
        }
    }
}

/// An id other than the removed one survives a removal.
pub proof fn lemma_without_id_keeps(s: Seq<UserDB>, id: u32, v: u32)
    requires
        v != id,
    ensures
        has_id(without_id(s, id), v) == has_id(s, v),
    decreases s.len(),
{
    lemma_without_id_mem(s, id, v);
    if s.len() > 0 {
        lemma_without_id_keeps(s.drop_last(), id, v);
        if has_id(s, v) {
            let i = choose|i: int| 0 <= i < s.len() && s[i].user_id == v;
            if i < s.len() - 1 {
                assert(s.drop_last()[i].user_id == v);
                if s.last().user_id == id {
                } else {
                    let w = without_id(s.drop_last(), id);
                    let j = choose|j: int| 0 <= j < w.len() && w[j].user_id == v;
                    assert(w.push(s.last())[j].user_id == v);
                }
            } else {
                assert(s.last().user_id == v);
                let w = without_id(s.drop_last(), id);
                assert(w.push(s.last())[w.len() as int].user_id == v);
            }
        }
    }
}

/// The removed id is gone entirely.
pub proof fn lemma_without_id_gone(s: Seq<UserDB>, id: u32)
    ensures
        !has_id(without_id(s, id), id),
        forall|i: int| 0 <= i < without_id(s, id).len() ==> #[trigger] without_id(s, id)[i].user_id
            != id,
    decreases s.len(),
{
    if s.len() > 0 {
        lemma_without_id_gone(s.drop_last(), id);
    }
}

/// Uniqueness of ids survives a removal.
proof fn lemma_without_id_wf(s: Seq<UserDB>, id: u32)
    requires
        ids_unique(s),
    ensures
        ids_unique(without_id(s, id)),
    decreases s.len(),
{
    if s.len() > 0 {
        assert(forall|i: int| 0 <= i < s.drop_last().len() ==> s.drop_last()[i] == s[i]);
        lemma_without_id_wf(s.drop_last(), id);
        if s.last().user_id != id {
            let w = without_id(s.drop_last(), id);
            lemma_without_id_mem(s.drop_last(), id, s.last().user_id);
            if has_id(w, s.last().user_id) {
                let j = choose|j: int| 0 <= j < s.drop_last().len() && s.drop_last()[j].user_id
                    == s.last().user_id;
                assert(s[j].user_id == s[s.len() - 1].user_id);
                assert(false);
            }
            assert forall|i: int, j: int|
                0 <= i < j < w.push(s.last()).len() implies w.push(s.last())[i].user_id != w.push(
                s.last(),
            )[j].user_id by {
                if j < w.len() {
                    assert(w[i].user_id != w[j].user_id);
                } else {
                    assert(!has_id(w, s.last().user_id));
                }
            }
        }
    }
}

/// The account repository: the live accounts, the archive of deleted ones,
/// and the next id to assign.
pub struct Accounts {
    users: Vec<UserDB>,
    archived: Vec<UserDB>,
    next_id: u32,
}

impl Accounts {
    /// The live accounts.
    pub closed spec fn users(&self) -> Seq<UserDB> {
        self.users@
    }

    /// The archive of soft-deleted accounts, in deletion order.
    pub closed spec fn archived(&self) -> Seq<UserDB> {
        self.archived@
    }

    /// The id the next created account will get.
    pub closed spec fn next_id(&self) -> u32 {
        self.next_id
    }

    /// The store invariant: unique ids, all below the id counter, which
    /// starts at one.
    pub open spec fn wf(&self) -> bool {
        ids_unique(self.users()) && self.next_id() >= 1 && forall|i: int|
            0 <= i < self.users().len() ==> #[trigger] self.users()[i].user_id < self.next_id()
    }

    /// An empty repository; the first account will get id 1.
    pub fn new() -> (r: Accounts)
        ensures
            r.users() == Seq::<UserDB>::empty(),
            r.archived() == Seq::<UserDB>::empty(),
            r.next_id() == 1,
            r.wf(),
    {
        Accounts { users: Vec::new(), archived: Vec::new(), next_id: 1 }
    }

    /// How many accounts have ever been created.
    pub fn user_count(&self) -> (r: u32)
        requires
            self.wf(),
        ensures
            r == self.next_id() - 1,
    {
        self.next_id - 1
    }

    /// Whether this email is already bound to a live account.
    #[verifier::loop_isolation(false)]
    pub fn email_taken(&self, email: &str) -> (r: bool)
        ensures
            r == has_email(self.users(), email@),
    {
        let e: String = email.to_owned();
        let n = self.users.len();
        for i in 0..n
            invariant
                n == self.users.len(),
                e@ == email@,
                forall|j: int| 0 <= j < i ==> self.users@[j].email@ != email@,
        {
            if self.users[i].email == e {
                proof {
                    assert(self.users@[i as int].email@ == email@);
                }
                return true;
            }
        }
        false
    }

    /// Looks an account up by id.
    #[verifier::loop_isolation(false)]
    pub fn get_user_by_id(&self, user_id: u32) -> (r: Option<&UserDB>)
        requires
            self.wf(),
        ensures
            r matches Some(u) ==> has_id(self.users(), user_id) && *u == user_with_id(
                self.users(),
                user_id,
            ),
            r is None ==> !has_id(self.users(), user_id),
    {
        let n = self.users.len();
        for i in 0..n
            invariant
                n == self.users.len(),
                forall|j: int| 0 <= j < i ==> self.users@[j].user_id != user_id,
        {
            if self.users[i].user_id == user_id {
                let found = &self.users[i];
                proof {
                    assert(self.users()[i as int] == *found);
                    let k = user_index(self.users(), user_id);
                    if k < i {
                        assert(self.users()[k].user_id != self.users()[i as int].user_id);
                    } else if i < k {
                        assert(self.users()[i as int].user_id != self.users()[k].user_id);
                    }
                }
                return Some(found);
            }
        }
        None
    }

    /// Looks an account up by email; with duplicates, the first in store
    /// order answers, as the backing query did.
    #[verifier::loop_isolation(false)]
    pub fn get_user_by_email(&self, email: &str) -> (r: Option<&UserDB>)
        ensures
            r matches Some(u) ==> first_with_email(self.users(), email@) == Some(*u),
            r is None ==> first_with_email(self.users(), email@) is None,
    {
        let e: String = email.to_owned();
        let n = self.users.len();
        for i in 0..n
            invariant
                n == self.users.len(),
                e@ == email@,
                forall|j: int| 0 <= j < i ==> self.users@[j].email@ != email@,
        {
            if self.users[i].email == e {
                let found = &self.users[i];
                proof {
                    lemma_first_email_skip(self.users(), email@, i as int);
                    assert(self.users().skip(i as int)[0] == self.users()[i as int]);
                }
                return Some(found);
            }
        }
        proof {
            lemma_first_email_skip(self.users(), email@, n as int);
            assert(self.users().skip(n as int) =~= Seq::<UserDB>::empty());
        }
        None
    }

    /// Looks an account up by first and last name; with duplicates, the
    /// first in store order answers.
    #[verifier::loop_isolation(false)]
    pub fn get_user_by_names(&self, first_name: &str, last_name: &str) -> (r: Option<&UserDB>)
        ensures
            r matches Some(u) ==> first_with_names(self.users(), first_name@, last_name@) == Some(
                *u,
            ),
            r is None ==> first_with_names(self.users(), first_name@, last_name@) is None,
    {
        let f: String = first_name.to_owned();
        let l: String = last_name.to_owned();
        let n = self.users.len();
        for i in 0..n
            invariant
                n == self.users.len(),
                f@ == first_name@,
                l@ == last_name@,
                forall|j: int|
                    0 <= j < i ==> !(self.users@[j].first_name@ == first_name@
                        && self.users@[j].last_name@ == last_name@),
        {
            if self.users[i].first_name == f && self.users[i].last_name == l {
                let found = &self.users[i];
                proof {
                    lemma_first_names_skip(self.users(), first_name@, last_name@, i as int);
                    assert(self.users().skip(i as int)[0] == self.users()[i as int]);
                }
                return Some(found);
            }
        }
        proof {
            lemma_first_names_skip(self.users(), first_name@, last_name@, n as int);
            assert(self.users().skip(n as int) =~= Seq::<UserDB>::empty());
        }
        None
    }

    /// Creates an account with the next id: unverified, not an admin. The
    /// password arrives already hashed; the repository never sees a plain
    /// credential. An exhausted id space is an internal error.
    pub fn create_user(
        &mut self,
        first_name: String,
        last_name: String,
        email: String,
        password_hash: String,
        gender: bool,
    ) -> (r: Result<u32, AuthError>)
        requires
            old(self).wf(),
        ensures
            final(self).wf(),
            r == Err::<u32, AuthError>(AuthError::InternalError) <==> old(self).next_id()
                == u32::MAX,
            r matches Err(e) ==> e == AuthError::InternalError,
            r matches Err(_) ==> final(self).users() == old(self).users() && final(self).next_id()
                == old(self).next_id() && final(self).archived() == old(self).archived(),
            r matches Ok(id) ==> id == old(self).next_id() && final(self).users() == old(self).users().push(
                (UserDB {
                    user_id: id,
                    first_name,
                    last_name,
                    email,
                    password: password_hash,
                    gender,
                    verified: false,
                    admin: false,
                }),
            ) && final(self).next_id() == old(self).next_id() + 1 && final(self).archived() == old(self).archived(),
    {
        if self.next_id == u32::MAX {
            return Err(AuthError::InternalError);
        }
        let id = self.next_id;
        let record = UserDB {
            user_id: id,
            first_name,
            last_name,
            email,
            password: password_hash,
            gender,
            verified: false,
            admin: false,
        };
        proof {
            assert forall|i: int, j: int|
                0 <= i < j < self.users@.push(record).len() implies self.users@.push(
                record,
            )[i].user_id != self.users@.push(record)[j].user_id by {
                if j < self.users@.len() {
                    assert(self.users@[i].user_id != self.users@[j].user_id);
                }
            }
        }
        self.users.push(record);
        self.next_id = id + 1;
        Ok(id)
    }

    /// Applies `change` to this id's account, leaving every other account
    /// and every other field alone.
    #[verifier::loop_isolation(false)]
    fn update_at(&mut self, user_id: u32, change: ProfileField) -> (r: Result<(), AuthError>)
        requires
            old(self).wf(),
        ensures
            final(self).wf(),
            r == Err::<(), AuthError>(AuthError::UserNotFound) <==> !has_id(
                old(self).users(),
                user_id,
            ),
            r matches Err(e) ==> e == AuthError::UserNotFound,
            r matches Err(_) ==> final(self).users() == old(self).users(),
            r is Ok ==> final(self).users() == old(self).users().update(
                user_index(old(self).users(), user_id),
                applied(user_with_id(old(self).users(), user_id), change),
            ),
            final(self).next_id() == old(self).next_id(),
            final(self).archived() == old(self).archived(),
    {
        let n = self.users.len();
        for i in 0..n
            invariant
                n == self.users.len(),
                self.users@ == old(self).users(),
                self.archived@ == old(self).archived(),
                self.next_id == old(self).next_id(),
                forall|j: int| 0 <= j < i ==> self.users@[j].user_id != user_id,
        {
            if self.users[i].user_id == user_id {
                proof {
                    let k = user_index(self.users(), user_id);
                    if k < i {
                        assert(self.users()[k].user_id != self.users()[i as int].user_id);
                    } else if i < k {
                        assert(self.users()[i as int].user_id != self.users()[k].user_id);
                    }
                }
                let old_rec = &self.users[i];
                let new_rec = match change {
                    ProfileField::FirstName(v) => UserDB {
                        user_id: old_rec.user_id,
                        first_name: v,
                        last_name: old_rec.last_name.clone(),
                        email: old_rec.email.clone(),
                        password: old_rec.password.clone(),
                        gender: old_rec.gender,
                        verified: old_rec.verified,
                        admin: old_rec.admin,
                    },
                    ProfileField::LastName(v) => UserDB {
                        user_id: old_rec.user_id,
                        first_name: old_rec.first_name.clone(),
                        last_name: v,
                        email: old_rec.email.clone(),
                        password: old_rec.password.clone(),
                        gender: old_rec.gender,
                        verified: old_rec.verified,
                        admin: old_rec.admin,
                    },
                    ProfileField::Gender(v) => UserDB {
                        user_id: old_rec.user_id,
                        first_name: old_rec.first_name.clone(),
                        last_name: old_rec.last_name.clone(),
                        email: old_rec.email.clone(),
                        password: old_rec.password.clone(),
                        gender: v,
                        verified: old_rec.verified,
                        admin: old_rec.admin,
                    },
                };
                self.users[i] = new_rec;
                proof {
                    assert forall|a: int, b: int|
                        0 <= a < b < self.users@.len() implies self.users@[a].user_id
                        != self.users@[b].user_id by {
                        assert(old(self).users()[a].user_id != old(self).users()[b].user_id);
                    }
                }
                return Ok(());
            }
        }
        Err(AuthError::UserNotFound)
    }

    /// Marks this id's account verified.
    pub fn update_user_verification_status(&mut self, user_id: u32) -> (r: Result<(), AuthError>)
        requires
            old(self).wf(),
        ensures
            final(self).wf(),
            r == Err::<(), AuthError>(AuthError::UserNotFound) <==> !has_id(
                old(self).users(),
                user_id,
            ),
            r matches Err(e) ==> e == AuthError::UserNotFound,
            r matches Err(_) ==> final(self).users() == old(self).users(),
            r is Ok ==> final(self).users() == old(self).users().update(
                user_index(old(self).users(), user_id),
                (UserDB { verified: true, ..user_with_id(old(self).users(), user_id) }),
            ),
            final(self).next_id() == old(self).next_id(),
            final(self).archived() == old(self).archived(),
    {
        self.update_flag(user_id, FlagChange::Verified)
    }

    /// Installs a new (already hashed) credential on this id's account.
    pub fn update_user_password(&mut self, user_id: u32, password_hash: String) -> (r: Result<
        (),
        AuthError,
    >)
        requires
            old(self).wf(),
        ensures
            final(self).wf(),
            r == Err::<(), AuthError>(AuthError::UserNotFound) <==> !has_id(
                old(self).users(),
                user_id,
            ),
            r matches Err(e) ==> e == AuthError::UserNotFound,
            r matches Err(_) ==> final(self).users() == old(self).users(),
            r is Ok ==> final(self).users() == old(self).users().update(
                user_index(old(self).users(), user_id),
                (UserDB { password: password_hash, ..user_with_id(old(self).users(), user_id) }),
            ),
            final(self).next_id() == old(self).next_id(),
            final(self).archived() == old(self).archived(),
    {
        self.update_flag(user_id, FlagChange::Password(password_hash))
    }

    /// Installs a new email on this id's account.
    pub fn update_user_email(&mut self, user_id: u32, email: String) -> (r: Result<(), AuthError>)
        requires
            old(self).wf(),
        ensures
            final(self).wf(),
            r == Err::<(), AuthError>(AuthError::UserNotFound) <==> !has_id(
                old(self).users(),
                user_id,
            ),
            r matches Err(e) ==> e == AuthError::UserNotFound,
            r matches Err(_) ==> final(self).users() == old(self).users(),
            r is Ok ==> final(self).users() == old(self).users().update(
                user_index(old(self).users(), user_id),
                (UserDB { email, ..user_with_id(old(self).users(), user_id) }),
            ),
            final(self).next_id() == old(self).next_id(),
            final(self).archived() == old(self).archived(),
    {
        self.update_flag(user_id, FlagChange::Email(email))
    }

    /// Applies a tagged profile change to this id's account.
    pub fn update_user_name_or_gender(&mut self, user_id: u32, change: ProfileField) -> (r: Result<
        (),
        AuthError,
    >)
        requires
            old(self).wf(),
        ensures
            final(self).wf(),
            r == Err::<(), AuthError>(AuthError::UserNotFound) <==> !has_id(
                old(self).users(),
                user_id,
            ),
            r matches Err(e) ==> e == AuthError::UserNotFound,
            r matches Err(_) ==> final(self).users() == old(self).users(),
            r is Ok ==> final(self).users() == old(self).users().update(
                user_index(old(self).users(), user_id),
                applied(user_with_id(old(self).users(), user_id), change),
            ),
            final(self).next_id() == old(self).next_id(),
            final(self).archived() == old(self).archived(),
    {
        self.update_at(user_id, change)
    }

    /// Archives this id's account and removes it from the live store: the
    /// soft delete.
    #[verifier::loop_isolation(false)]
    pub fn delete_user_db(&mut self, user_id: u32) -> (r: Result<(), AuthError>)
        requires
            old(self).wf(),
        ensures
            final(self).wf(),
            r == Err::<(), AuthError>(AuthError::UserNotFound) <==> !has_id(
                old(self).users(),
                user_id,
            ),
            r matches Err(e) ==> e == AuthError::UserNotFound,
            r matches Err(_) ==> final(self).users() == old(self).users() && final(self).archived()
                == old(self).archived(),
            r is Ok ==> final(self).users() == without_id(old(self).users(), user_id) && final(self).archived() == old(self).archived().push(user_with_id(old(self).users(), user_id)),
            final(self).next_id() == old(self).next_id(),
    {
        let n = self.users.len();
        let mut at: Option<usize> = None;
        for i in 0..n
            invariant
                n == self.users.len(),
                self.users@ == old(self).users(),
                at matches Some(k) ==> k < n && self.users@[k as int].user_id == user_id,
                at is None ==> forall|j: int| 0 <= j < i ==> self.users@[j].user_id != user_id,
        {
            if self.users[i].user_id == user_id {
                at = Some(i);
                break ;
            }
        }
        let i = match at {
            Some(i) => i,
            None => {
                return Err(AuthError::UserNotFound);
            },
        };
        proof {
            let k = user_index(self.users(), user_id);
            if k < i {
                assert(self.users()[k].user_id != self.users()[i as int].user_id);
            } else if i < k {
                assert(self.users()[i as int].user_id != self.users()[k].user_id);
            }
        }
        let rec = self.users[i].clone();
        self.archived.push(rec);
        let ghost orig = self.users@;
        let mut kept: Vec<UserDB> = Vec::new();
        for j in 0..n
            invariant
                n == orig.len(),
                self.users@ == orig,
                self.archived@ == old(self).archived().push(user_with_id(old(self).users(), user_id)),
                self.next_id == old(self).next_id(),
                kept@ == without_id(orig.subrange(0, j as int), user_id),
        {
            proof {
                let sub = orig.subrange(0, j + 1);
                assert(sub.drop_last() =~= orig.subrange(0, j as int));
                assert(sub.last() == orig[j as int]);
            }
            if self.users[j].user_id != user_id {
                let keep = self.users[j].clone();
                kept.push(keep);
            }
        }
        proof {
            assert(orig.subrange(0, n as int) =~= orig);
            lemma_without_id_wf(orig, user_id);
            lemma_without_id_gone(orig, user_id);
        }
        self.users = kept;
        proof {
            assert forall|a: int|
                0 <= a < self.users@.len() implies #[trigger] self.users@[a].user_id < self.next_id
                by {
                lemma_without_id_mem_index(orig, user_id, a);
            }
        }
        Ok(())
    }

    /// One shared walk for the flag- and string-field updates.
    #[verifier::loop_isolation(false)]
    fn update_flag(&mut self, user_id: u32, change: FlagChange) -> (r: Result<(), AuthError>)
        requires
            old(self).wf(),
        ensures
            final(self).wf(),
            r == Err::<(), AuthError>(AuthError::UserNotFound) <==> !has_id(
                old(self).users(),
                user_id,
            ),
            r matches Err(e) ==> e == AuthError::UserNotFound,
            r matches Err(_) ==> final(self).users() == old(self).users(),
            r is Ok ==> final(self).users() == old(self).users().update(
                user_index(old(self).users(), user_id),
                flag_applied(user_with_id(old(self).users(), user_id), change),
            ),
            final(self).next_id() == old(self).next_id(),
            final(self).archived() == old(self).archived(),
    {
        let n = self.users.len();
        for i in 0..n
            invariant
                n == self.users.len(),
                self.users@ == old(self).users(),
                self.archived@ == old(self).archived(),
                self.next_id == old(self).next_id(),
                forall|j: int| 0 <= j < i ==> self.users@[j].user_id != user_id,
        {
            if self.users[i].user_id == user_id {
                proof {
                    let k = user_index(self.users(), user_id);
                    if k < i {
                        assert(self.users()[k].user_id != self.users()[i as int].user_id);
                    } else if i < k {
                        assert(self.users()[i as int].user_id != self.users()[k].user_id);
                    }
                }
                let old_rec = &self.users[i];
                let new_rec = match change {
                    FlagChange::Verified => UserDB {
                        user_id: old_rec.user_id,
                        first_name: old_rec.first_name.clone(),
                        last_name: old_rec.last_name.clone(),
                        email: old_rec.email.clone(),
                        password: old_rec.password.clone(),
                        gender: old_rec.gender,
                        verified: true,
                        admin: old_rec.admin,
                    },
                    FlagChange::Password(v) => UserDB {
                        user_id: old_rec.user_id,
                        first_name: old_rec.first_name.clone(),
                        last_name: old_rec.last_name.clone(),
                        email: old_rec.email.clone(),
                        password: v,
                        gender: old_rec.gender,
                        verified: old_rec.verified,
                        admin: old_rec.admin,
                    },
                    FlagChange::Email(v) => UserDB {
                        user_id: old_rec.user_id,
                        first_name: old_rec.first_name.clone(),
                        last_name: old_rec.last_name.clone(),
                        email: v,
                        password: old_rec.password.clone(),
                        gender: old_rec.gender,
                        verified: old_rec.verified,
                        admin: old_rec.admin,
                    },
                };
                self.users[i] = new_rec;
                proof {
                    assert forall|a: int, b: int|
                        0 <= a < b < self.users@.len() implies self.users@[a].user_id
                        != self.users@[b].user_id by {
                        assert(old(self).users()[a].user_id != old(self).users()[b].user_id);
                    }
                }
                return Ok(());
            }
        }
        Err(AuthError::UserNotFound)
    }
}

/// Internal tag for the shared single-field update walk.
enum FlagChange {
    Verified,
    Password(String),
    Email(String),
}

/// The record as a tagged profile change leaves it.
pub open spec fn applied(u: UserDB, change: ProfileField) -> UserDB {
    match change {
        ProfileField::FirstName(v) => UserDB { first_name: v, ..u },
        ProfileField::LastName(v) => UserDB { last_name: v, ..u },
        ProfileField::Gender(v) => UserDB { gender: v, ..u },
    }
}

/// The record as an internal single-field change leaves it.
spec fn flag_applied(u: UserDB, change: FlagChange) -> UserDB {
    match change {
        FlagChange::Verified => UserDB { verified: true, ..u },
        FlagChange::Password(v) => UserDB { password: v, ..u },
        FlagChange::Email(v) => UserDB { email: v, ..u },
    }
}

/// Every record of the reduced store is a record of the original.
proof fn lemma_without_id_mem_index(s: Seq<UserDB>, id: u32, i: int)
    requires
        0 <= i < without_id(s, id).len(),
    ensures
        exists|j: int| 0 <= j < s.len() && s[j] == without_id(s, id)[i],
    decreases s.len(),
{
    if s.len() > 0 {
        if s.last().user_id == id {
            lemma_without_id_mem_index(s.drop_last(), id, i);
            let j = choose|j: int|
                0 <= j < s.drop_last().len() && s.drop_last()[j] == without_id(s, id)[i];
            assert(s[j] == without_id(s, id)[i]);
        } else {
            let w = without_id(s.drop_last(), id);
            if i < w.len() {
                lemma_without_id_mem_index(s.drop_last(), id, i);
                let j = choose|j: int|
                    0 <= j < s.drop_last().len() && s.drop_last()[j] == without_id(
                        s.drop_last(),
                        id,
                    )[i];
                assert(s[j] == without_id(s, id)[i]);
            } else {
                assert(without_id(s, id)[i] == s.last());
            }
        }
    }
}


/// Updating a record without changing its id preserves id presence.
pub proof fn lemma_update_same_id_has_id(s: Seq<UserDB>, idx: int, rec: UserDB, v: u32)
    requires
        0 <= idx < s.len(),
        rec.user_id == s[idx].user_id,
    ensures
        has_id(s.update(idx, rec), v) == has_id(s, v),
{
    let t = s.update(idx, rec);
    if has_id(s, v) {
        let i = choose|i: int| 0 <= i < s.len() && s[i].user_id == v;
        if i == idx {
            assert(t[idx].user_id == v);
        } else {
            assert(t[i].user_id == v);
        }
    }
    if has_id(t, v) {
        let i = choose|i: int| 0 <= i < t.len() && t[i].user_id == v;
        if i == idx {
            assert(s[idx].user_id == v);
        } else {
            assert(s[i].user_id == v);
        }
    }
}

/// Appending a record preserves the presence of every id.
pub proof fn lemma_push_keeps_has_id(s: Seq<UserDB>, rec: UserDB, v: u32)
    ensures
        has_id(s, v) ==> has_id(s.push(rec), v),
{
    if has_id(s, v) {
        let i = choose|i: int| 0 <= i < s.len() && s[i].user_id == v;
        assert(s.push(rec)[i].user_id == v);
    }
}

} // verus!
