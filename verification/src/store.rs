//! The relational store the core works against, modeled as in-memory tables,
//! and the session operations on its user table.
//!
//! Invariants (see [`Store::wf`]): user ids and usernames are unique; a user
//! holds at most one session identifier, non-empty and unique across users
//! (`session_id == None` means logged out); every rating, total-rate and
//! application row points at an existing user; row ids are unique and below
//! the table's next-id counter; total-rate levels stay in `0..=10`.

use vstd::prelude::*;

use crate::error::Error;
use crate::rating::{RateRow, TotalRateRow};
use crate::token::{is_session_id, UserToken};

verus! {

/// One user row.
pub struct User {
    pub id: u64,
    pub username: String,
    pub name: String,
    pub session_id: Option<String>,
    pub auto_apply: bool,
    pub is_teacher: bool,
    pub created_at: i64,
}

impl Clone for User {
    fn clone(&self) -> (r: Self)
        ensures
            r == *self,
    {
        User {
            id: self.id,
            username: self.username.clone(),
            name: self.name.clone(),
            session_id: self.session_id.clone(),
            auto_apply: self.auto_apply,
            is_teacher: self.is_teacher,
            created_at: self.created_at,
        }
    }
}

/// One attendance-intent row: the user applied on the day of `created_at`.
pub struct ApplicationRow {
    pub id: u64,
    pub user_id: u64,
    pub created_at: i64,
}

/// Reference data about one served meal; stored, never read by the core.
pub struct Meal {
    pub id: u64,
    pub name: String,
    pub date: i64,
}

/// The session identifier a user currently holds, as a sequence of
/// characters, or `None` when logged out.
pub open spec fn session_view(u: User) -> Option<Seq<char>> {
    match u.session_id {
        Some(s) => Some(s@),
        None => None,
    }
}

/// Two distinct user rows collide on no unique column.
pub open spec fn distinct_user_pair(a: User, b: User) -> bool {
    &&& a.id != b.id
    &&& a.username@ != b.username@
    &&& (a.session_id matches Some(sa) ==> (b.session_id matches Some(sb) ==> sa@ != sb@))
}

/// A user row is well formed: a held session identifier is non-empty.
pub open spec fn user_ok(u: User) -> bool {
    u.session_id matches Some(s) ==> s@.len() > 0
}

/// The user table is well formed.
pub open spec fn users_wf(users: Seq<User>) -> bool {
    &&& forall|i: int, j: int|
        0 <= i < j < users.len() ==> distinct_user_pair(#[trigger] users[i], #[trigger] users[j])
    &&& forall|i: int| 0 <= i < users.len() ==> user_ok(#[trigger] users[i])
}

/// Index of the first user with this username, or -1.
pub open spec fn idx_by_username(users: Seq<User>, username: Seq<char>) -> int
    decreases users.len(),
{
    if users.len() == 0 {
        -1
    } else if users[0].username@ == username {
        0
    } else {
        let r = idx_by_username(users.drop_first(), username);
        if r < 0 {
            -1
        } else {
            r + 1
        }
    }
}

/// Index of the first user with this id, or -1.
pub open spec fn idx_by_id(users: Seq<User>, id: u64) -> int
    decreases users.len(),
{
    if users.len() == 0 {
        -1
    } else if users[0].id == id {
        0
    } else {
        let r = idx_by_id(users.drop_first(), id);
        if r < 0 {
            -1
        } else {
            r + 1
        }
    }
}

/// Index of the first user holding this session identifier, or -1.
pub open spec fn idx_by_session(users: Seq<User>, sid: Seq<char>) -> int
    decreases users.len(),
{
    if users.len() == 0 {
        -1
    } else if session_view(users[0]) == Some(sid) {
        0
    } else {
        let r = idx_by_session(users.drop_first(), sid);
        if r < 0 {
            -1
        } else {
            r + 1
        }
    }
}

/// `idx_by_username` finds the first match, and -1 exactly when none exists.
pub proof fn lemma_idx_by_username_props(users: Seq<User>, username: Seq<char>)
    ensures
        ({
            let r = idx_by_username(users, username);
            &&& r >= 0 ==> 0 <= r < users.len() && users[r].username@ == username && (forall|j: int|
                0 <= j < r ==> (#[trigger] users[j]).username@ != username)
            &&& r < 0 ==> forall|j: int|
                0 <= j < users.len() ==> (#[trigger] users[j]).username@ != username
        }),
    decreases users.len(),
{
    if users.len() > 0 && users[0].username@ != username {
        lemma_idx_by_username_props(users.drop_first(), username);
        assert forall|j: int| 1 <= j < users.len() implies (#[trigger] users[j])
            == users.drop_first()[j - 1] by {}
    }
}

/// `idx_by_id` finds the first match, and -1 exactly when none exists.
pub proof fn lemma_idx_by_id_props(users: Seq<User>, id: u64)
    ensures
        ({
            let r = idx_by_id(users, id);
            &&& r >= 0 ==> 0 <= r < users.len() && users[r].id == id && (forall|j: int|
                0 <= j < r ==> (#[trigger] users[j]).id != id)
            &&& r < 0 ==> forall|j: int| 0 <= j < users.len() ==> (#[trigger] users[j]).id != id
        }),
    decreases users.len(),
{
    if users.len() > 0 && users[0].id != id {
        lemma_idx_by_id_props(users.drop_first(), id);
        assert forall|j: int| 1 <= j < users.len() implies (#[trigger] users[j])
            == users.drop_first()[j - 1] by {}
    }
}

/// `idx_by_session` finds the first match, and -1 exactly when none exists.
pub proof fn lemma_idx_by_session_props(users: Seq<User>, sid: Seq<char>)
    ensures
        ({
            let r = idx_by_session(users, sid);
            &&& r >= 0 ==> 0 <= r < users.len() && session_view(users[r]) == Some(sid) && (
            forall|j: int| 0 <= j < r ==> session_view(#[trigger] users[j]) != Some(sid))
            &&& r < 0 ==> forall|j: int|
                0 <= j < users.len() ==> session_view(#[trigger] users[j]) != Some(sid)
        }),
    decreases users.len(),
{
    if users.len() > 0 && session_view(users[0]) != Some(sid) {
        lemma_idx_by_session_props(users.drop_first(), sid);
        assert forall|j: int| 1 <= j < users.len() implies (#[trigger] users[j])
            == users.drop_first()[j - 1] by {}
    }
}

/// `idx_by_id` depends only on the ids of the rows.
pub proof fn lemma_idx_by_id_same_ids(a: Seq<User>, b: Seq<User>, id: u64)
    requires
        a.len() == b.len(),
        forall|k: int| 0 <= k < a.len() ==> (#[trigger] a[k]).id == b[k].id,
    ensures
        idx_by_id(a, id) == idx_by_id(b, id),
    decreases a.len(),
{
    if a.len() > 0 {
        assert(forall|k: int|
            0 <= k < a.drop_first().len() ==> (#[trigger] a.drop_first()[k]).id
                == b.drop_first()[k].id);
        lemma_idx_by_id_same_ids(a.drop_first(), b.drop_first(), id);
    }
}

/// `idx_by_username` depends only on the usernames of the rows.
pub proof fn lemma_idx_by_username_same_names(a: Seq<User>, b: Seq<User>, username: Seq<char>)
    requires
        a.len() == b.len(),
        forall|k: int| 0 <= k < a.len() ==> (#[trigger] a[k]).username@ == b[k].username@,
    ensures
        idx_by_username(a, username) == idx_by_username(b, username),
    decreases a.len(),
{
    if a.len() > 0 {
        assert(forall|k: int|
            0 <= k < a.drop_first().len() ==> (#[trigger] a.drop_first()[k]).username@
                == b.drop_first()[k].username@);
        lemma_idx_by_username_same_names(a.drop_first(), b.drop_first(), username);
    }
}

/// Some user row carries this id.
pub open spec fn user_id_exists(users: Seq<User>, id: u64) -> bool {
    exists|k: int| 0 <= k < users.len() && (#[trigger] users[k]).id == id
}

/// No user currently holds this session identifier.
pub open spec fn session_free(users: Seq<User>, sid: Seq<char>) -> bool {
    forall|j: int| 0 <= j < users.len() ==> session_view(#[trigger] users[j]) != Some(sid)
}

/// Some user other than the one at index `i` holds this session identifier.
pub open spec fn session_taken_by_other(users: Seq<User>, sid: Seq<char>, i: int) -> bool {
    exists|j: int|
        0 <= j < users.len() && j != i && session_view(#[trigger] users[j]) == Some(sid)
}

/// `b` is `a` with only its session identifier changed, to `session`.
pub open spec fn user_with_session(a: User, b: User, session: Option<Seq<char>>) -> bool {
    &&& b.id == a.id
    &&& b.username@ == a.username@
    &&& b.name@ == a.name@
    &&& b.auto_apply == a.auto_apply
    &&& b.is_teacher == a.is_teacher
    &&& b.created_at == a.created_at
    &&& session_view(b) == session
}

/// `new` is `old` with exactly the user at index `i` given session `session`.
pub open spec fn users_with_session_at(
    old_users: Seq<User>,
    new_users: Seq<User>,
    i: int,
    session: Option<Seq<char>>,
) -> bool {
    &&& new_users.len() == old_users.len()
    &&& forall|j: int| 0 <= j < old_users.len() && j != i ==> new_users[j] == #[trigger] old_users[j]
    &&& user_with_session(old_users[i], new_users[i], session)
}

/// What a login leaves behind: only the named user's session column may
/// change. `NotFound` when the username is absent; `AlreadyLoggedIn` with the
/// active identifier when a session is already held (login is not
/// idempotent); otherwise a fresh identifier, absent from every session
/// column beforehand, is installed and returned — or `StoreError` reports
/// that the generator's identifier was already in use, with nothing written.
pub open spec fn login_post(pre: Store, post: Store, r: Result<String, Error>, username: Seq<
    char,
>) -> bool {
    &&& post.rates@ == pre.rates@
    &&& post.total_rates@ == pre.total_rates@
    &&& post.applications@ == pre.applications@
    &&& post.meals@ == pre.meals@
    &&& post.next_rate_id == pre.next_rate_id
    &&& post.next_total_rate_id == pre.next_total_rate_id
    &&& post.next_application_id == pre.next_application_id
    &&& ({
        let users0 = pre.users@;
        let i = idx_by_username(users0, username);
        match r {
            Ok(sid) => {
                &&& i >= 0
                &&& session_view(users0[i]) is None
                &&& is_session_id(sid@)
                &&& session_free(users0, sid@)
                &&& users_with_session_at(users0, post.users@, i, Some(sid@))
            },
            Err(e) => {
                &&& post.users@ == users0
                &&& match e {
                    Error::NotFound => i < 0,
                    Error::AlreadyLoggedIn(s) => i >= 0 && session_view(users0[i]) == Some(s@),
                    Error::StoreError => i >= 0 && session_view(users0[i]) is None,
                    _ => false,
                }
            },
        }
    })
}

/// What a logout by session identifier leaves behind: the holding user's
/// session column is cleared and their username returned, or `NoSuchSession`
/// reports an empty or unrecognized identifier, with nothing written.
pub open spec fn logout_post(pre: Store, post: Store, r: Result<String, Error>, session_id: Seq<
    char,
>) -> bool {
    &&& post.rates@ == pre.rates@
    &&& post.total_rates@ == pre.total_rates@
    &&& post.applications@ == pre.applications@
    &&& post.meals@ == pre.meals@
    &&& post.next_rate_id == pre.next_rate_id
    &&& post.next_total_rate_id == pre.next_total_rate_id
    &&& post.next_application_id == pre.next_application_id
    &&& ({
        let users0 = pre.users@;
        let i = idx_by_session(users0, session_id);
        match r {
            Ok(name) => {
                &&& session_id.len() > 0
                &&& i >= 0
                &&& name@ == users0[i].username@
                &&& users_with_session_at(users0, post.users@, i, None)
            },
            Err(e) => {
                &&& e matches Error::NoSuchSession
                &&& (session_id.len() == 0 || i < 0)
                &&& post.users@ == users0
            },
        }
    })
}

/// The relational store: one in-memory table per entity, plus the next fresh
/// row id of each table the core inserts into.
pub struct Store {
    pub users: Vec<User>,
    pub rates: Vec<RateRow>,
    pub total_rates: Vec<TotalRateRow>,
    pub applications: Vec<ApplicationRow>,
    pub meals: Vec<Meal>,
    pub next_rate_id: u64,
    pub next_total_rate_id: u64,
    pub next_application_id: u64,
}

impl Store {
    /// Every row of every table is well formed; see the module doc.
    pub open spec fn wf(self) -> bool {
        &&& users_wf(self.users@)
        &&& forall|i: int|
            0 <= i < self.rates@.len() ==> user_id_exists(
                self.users@,
                (#[trigger] self.rates@[i]).user_id,
            ) && self.rates@[i].id < self.next_rate_id
        &&& forall|i: int, j: int|
            0 <= i < j < self.rates@.len() ==> (#[trigger] self.rates@[i]).id != (
            #[trigger] self.rates@[j]).id
        &&& forall|i: int|
            0 <= i < self.total_rates@.len() ==> user_id_exists(
                self.users@,
                (#[trigger] self.total_rates@[i]).user_id,
            ) && self.total_rates@[i].id < self.next_total_rate_id
                && self.total_rates@[i].rate_level <= 10
        &&& forall|i: int, j: int|
            0 <= i < j < self.total_rates@.len() ==> (#[trigger] self.total_rates@[i]).id != (
            #[trigger] self.total_rates@[j]).id
        &&& forall|i: int|
            0 <= i < self.applications@.len() ==> user_id_exists(
                self.users@,
                (#[trigger] self.applications@[i]).user_id,
            ) && self.applications@[i].id < self.next_application_id
        &&& forall|i: int, j: int|
            0 <= i < j < self.applications@.len() ==> (#[trigger] self.applications@[i]).id != (
            #[trigger] self.applications@[j]).id
    }

    /// An empty store.
    pub fn new() -> (r: Store)
        ensures
            r.wf(),
            r.users@.len() == 0,
            r.rates@.len() == 0,
            r.total_rates@.len() == 0,
            r.applications@.len() == 0,
            r.meals@.len() == 0,
    {
        Store {
            users: Vec::new(),
            rates: Vec::new(),
            total_rates: Vec::new(),
            applications: Vec::new(),
            meals: Vec::new(),
            next_rate_id: 0,
            next_total_rate_id: 0,
            next_application_id: 0,
        }
    }

    /// Seed one user row, logged out. Users are created out-of-band: there is
    /// no signup operation in the core. Refused (`false`, store unchanged)
    /// when the id or the username is already taken.
    pub fn add_user(
        &mut self,
        id: u64,
        username: String,
        name: String,
        auto_apply: bool,
        is_teacher: bool,
        created_at: i64,
    ) -> (r: bool)
        requires
            old(self).wf(),
        ensures
            final(self).wf(),
            r == (idx_by_id(old(self).users@, id) < 0 && idx_by_username(
                old(self).users@,
                username@,
            ) < 0),
            r ==> final(self).users@ == old(self).users@.push(
                User {
                    id,
                    username,
                    name,
                    session_id: None,
                    auto_apply,
                    is_teacher,
                    created_at,
                },
            ),
            !r ==> final(self).users@ == old(self).users@,
            final(self).rates@ == old(self).rates@,
            final(self).total_rates@ == old(self).total_rates@,
            final(self).applications@ == old(self).applications@,
            final(self).meals@ == old(self).meals@,
    {
        let id_taken = find_by_id(&self.users, id).is_some();
        let name_taken = find_by_username(&self.users, &username).is_some();
        proof {
            lemma_idx_by_id_props(self.users@, id);
            lemma_idx_by_username_props(self.users@, username@);
        }
        if id_taken || name_taken {
            false
        } else {
            let u = User { id, username, name, session_id: None, auto_apply, is_teacher, created_at };
            proof {
                let users0 = self.users@;
                assert forall|i: int, j: int| 0 <= i < j < users0.push(u).len() implies
                    distinct_user_pair(
                        #[trigger] users0.push(u)[i],
                        #[trigger] users0.push(u)[j],
                    ) by {
                    if j < users0.len() {
                        assert(distinct_user_pair(users0[i], users0[j]));
                    }
                }
                assert forall|k: int| 0 <= k < users0.len() implies user_id_exists(
                    users0.push(u),
                    (#[trigger] users0[k]).id,
                ) by {
                    assert(users0.push(u)[k].id == users0[k].id);
                }
            }
            self.users.push(u);
            true
        }
    }

    /// Direct key lookup by username.
    pub fn by_username(&self, username: &String) -> (r: Result<User, Error>)
        requires
            self.wf(),
        ensures
            ({
                let i = idx_by_username(self.users@, username@);
                match r {
                    Ok(u) => i >= 0 && u == self.users@[i],
                    Err(e) => i < 0 && e matches Error::NotFound,
                }
            }),
    {
        match find_by_username(&self.users, username) {
            Some(i) => Ok(self.users[i].clone()),
            None => Err(Error::NotFound),
        }
    }

    /// Direct key lookup by numeric id.
    pub fn by_id(&self, id: u64) -> (r: Result<User, Error>)
        requires
            self.wf(),
        ensures
            ({
                let i = idx_by_id(self.users@, id);
                match r {
                    Ok(u) => i >= 0 && u == self.users@[i],
                    Err(e) => i < 0 && e matches Error::NotFound,
                }
            }),
    {
        match find_by_id(&self.users, id) {
            Some(i) => Ok(self.users[i].clone()),
            None => Err(Error::NotFound),
        }
    }

    /// The authentication step of every privileged operation: the user
    /// holding this session identifier, failing when the identifier is empty
    /// or unrecognized.
    pub fn by_session_id(&self, session_id: &String) -> (r: Result<User, Error>)
        requires
            self.wf(),
        ensures
            ({
                let i = idx_by_session(self.users@, session_id@);
                match r {
                    Ok(u) => session_id@.len() > 0 && i >= 0 && u == self.users@[i],
                    Err(e) => (session_id@.len() == 0 || i < 0) && e matches Error::NoSuchSession,
                }
            }),
    {
        if session_id.as_str().is_empty() {
            return Err(Error::NoSuchSession);
        }
        match find_by_session(&self.users, session_id) {
            Some(i) => Ok(self.users[i].clone()),
            None => Err(Error::NoSuchSession),
        }
    }

    /// Write a user's session column: an empty identifier clears it, a
    /// non-empty one sets it. The store's unique-session constraint makes the
    /// write atomic and conditional: it is refused with `StoreError` when
    /// another user already holds the identifier.
    pub fn update_session(&mut self, user_id: u64, session_id: String) -> (r: Result<(), Error>)
        requires
            old(self).wf(),
        ensures
            final(self).wf(),
            final(self).rates@ == old(self).rates@,
            final(self).total_rates@ == old(self).total_rates@,
            final(self).applications@ == old(self).applications@,
            final(self).meals@ == old(self).meals@,
            final(self).next_rate_id == old(self).next_rate_id,
            final(self).next_total_rate_id == old(self).next_total_rate_id,
            final(self).next_application_id == old(self).next_application_id,
            ({
                let users0 = old(self).users@;
                let i = idx_by_id(users0, user_id);
                match r {
                    Ok(u) => {
                        &&& i >= 0
                        &&& !(session_id@.len() > 0 && session_taken_by_other(
                            users0,
                            session_id@,
                            i,
                        ))
                        &&& users_with_session_at(
                            users0,
                            final(self).users@,
                            i,
                            if session_id@.len() == 0 {
                                None
                            } else {
                                Some(session_id@)
                            },
                        )
                    },
                    Err(e) => {
                        &&& final(self).users@ == users0
                        &&& match e {
                            Error::NotFound => i < 0,
                            Error::StoreError => i >= 0 && session_id@.len() > 0
                                && session_taken_by_other(users0, session_id@, i),
                            _ => false,
                        }
                    },
                }
            }),
    {
        let i = match find_by_id(&self.users, user_id) {
            None => {
                return Err(Error::NotFound);
            },
            Some(i) => i,
        };
        let empty = session_id.as_str().is_empty();
        if !empty && session_held_by_other(&self.users, &session_id, i) {
            return Err(Error::StoreError);
        }
        let mut u = self.users[i].clone();
        if empty {
            u.session_id = None;
        } else {
            u.session_id = Some(session_id);
        }
        let ghost users0 = self.users@;
        let ghost unew = u;
        self.users.set(i, u);
        proof {
            let users1 = self.users@;
            assert forall|p: int, q: int| 0 <= p < q < users1.len() implies distinct_user_pair(
                #[trigger] users1[p],
                #[trigger] users1[q],
            ) by {
                assert(distinct_user_pair(users0[p], users0[q]));
                if p == i as int || q == i as int {
                    assert(unew.id == users0[i as int].id);
                    assert(unew.username@ == users0[i as int].username@);
                }
            }
            assert forall|k: int| 0 <= k < users1.len() implies user_ok(#[trigger] users1[k]) by {
                assert(user_ok(users0[k]));
            }
            assert forall|k: int|
                0 <= k < users0.len() implies (#[trigger] users0[k]).id == users1[k].id by {}
            assert forall|rid: u64| user_id_exists(users0, rid) implies user_id_exists(
                users1,
                rid,
            ) by {
                let w = choose|k: int| 0 <= k < users0.len() && (#[trigger] users0[k]).id == rid;
                assert(users1[w].id == rid);
            }
        }
        Ok(())
    }

    /// Look the user up by username; refuse when a session is already active
    /// (login is not idempotent); otherwise issue a fresh random session
    /// identifier, persist it, and return it. `StoreError` reports the one
    /// internal failure: the generator returned an identifier already in use.
    pub fn login(&mut self, username: &String) -> (r: Result<String, Error>)
        requires
            old(self).wf(),
        ensures
            final(self).wf(),
            login_post(*old(self), *final(self), r, username@),
    {
        let i = match find_by_username(&self.users, username) {
            None => {
                return Err(Error::NotFound);
            },
            Some(i) => i,
        };
        match &self.users[i].session_id {
            Some(s) => {
                return Err(Error::AlreadyLoggedIn(s.clone()));
            },
            None => {},
        }
        let sid = UserToken::new_session_id();
        if find_by_session(&self.users, &sid).is_some() {
            return Err(Error::StoreError);
        }
        proof {
            lemma_idx_by_session_props(self.users@, sid@);
        }
        let uid = self.users[i].id;
        proof {
            lemma_idx_by_id_props(self.users@, uid);
            let i2 = idx_by_id(self.users@, uid);
            if i2 != i as int {
                assert(distinct_user_pair(
                    self.users@[vstd::math::min(i2, i as int)],
                    self.users@[vstd::math::max(i2, i as int)],
                ));
            }
        }
        let res = self.update_session(uid, sid.clone());
        match res {
            Ok(u) => Ok(sid),
            Err(e) => {
                proof {
                    assert(false);
                }
                Err(e)
            },
        }
    }

    /// Issue a fresh random session identifier for the user with this id and
    /// persist it, replacing whatever the session column held. `StoreError`
    /// reports the one internal failure: the generator returned an identifier
    /// already in use.
    pub fn get_new_session(&mut self, user_id: u64) -> (r: Result<String, Error>)
        requires
            old(self).wf(),
        ensures
            final(self).wf(),
            final(self).rates@ == old(self).rates@,
            final(self).total_rates@ == old(self).total_rates@,
            final(self).applications@ == old(self).applications@,
            final(self).meals@ == old(self).meals@,
            final(self).next_rate_id == old(self).next_rate_id,
            final(self).next_total_rate_id == old(self).next_total_rate_id,
            final(self).next_application_id == old(self).next_application_id,
            ({
                let users0 = old(self).users@;
                let i = idx_by_id(users0, user_id);
                match r {
                    Ok(sid) => {
                        &&& i >= 0
                        &&& is_session_id(sid@)
                        &&& !session_taken_by_other(users0, sid@, i)
                        &&& users_with_session_at(users0, final(self).users@, i, Some(sid@))
                    },
                    Err(e) => {
                        &&& final(self).users@ == users0
                        &&& match e {
                            Error::NotFound => i < 0,
                            Error::StoreError => i >= 0,
                            _ => false,
                        }
                    },
                }
            }),
    {
        let sid = UserToken::new_session_id();
        match self.update_session(user_id, sid.clone()) {
            Ok(u) => Ok(sid),
            Err(e) => Err(e),
        }
    }

    /// Log out the user holding this session identifier, clearing the
    /// session column, and return the username. The clear itself is
    /// idempotent; a second call fails the lookup, since the identifier is
    /// gone.
    pub fn logout(&mut self, session_id: &String) -> (r: Result<String, Error>)
        requires
            old(self).wf(),
        ensures
            final(self).wf(),
            logout_post(*old(self), *final(self), r, session_id@),
    {
        if session_id.as_str().is_empty() {
            return Err(Error::NoSuchSession);
        }
        let i = match find_by_session(&self.users, session_id) {
            None => {
                return Err(Error::NoSuchSession);
            },
            Some(i) => i,
        };
        let uid = self.users[i].id;
        let name = self.users[i].username.clone();
        proof {
            lemma_idx_by_id_props(self.users@, uid);
            let i2 = idx_by_id(self.users@, uid);
            if i2 != i as int {
                assert(distinct_user_pair(
                    self.users@[vstd::math::min(i2, i as int)],
                    self.users@[vstd::math::max(i2, i as int)],
                ));
            }
        }
        let res = self.update_session(uid, String::new());
        match res {
            Ok(u) => Ok(name),
            Err(e) => {
                proof {
                    assert(false);
                }
                Err(Error::NoSuchSession)
            },
        }
    }

    /// Clear a user's session by id. Idempotent in effect: clearing a
    /// logged-out user re-clears.
    pub fn logout_user(&mut self, user_id: u64) -> (r: Result<(), Error>)
        requires
            old(self).wf(),
        ensures
            final(self).wf(),
            final(self).rates@ == old(self).rates@,
            final(self).total_rates@ == old(self).total_rates@,
            final(self).applications@ == old(self).applications@,
            final(self).meals@ == old(self).meals@,
            final(self).next_rate_id == old(self).next_rate_id,
            final(self).next_total_rate_id == old(self).next_total_rate_id,
            final(self).next_application_id == old(self).next_application_id,
            ({
                let users0 = old(self).users@;
                let i = idx_by_id(users0, user_id);
                match r {
                    Ok(u) => i >= 0 && users_with_session_at(users0, final(self).users@, i, None),
                    Err(e) => i < 0 && (e matches Error::NotFound) && final(self).users@ == users0,
                }
            }),
    {
        let res = self.update_session(user_id, String::new());
        match res {
            Ok(u) => Ok(()),
            Err(e) => {
                proof {
                    let users0 = old(self).users@;
                    let i = idx_by_id(users0, user_id);
                    assert(i < 0);
                }
                Err(Error::NotFound)
            },
        }
    }
}

/// Whether any user other than the one at index `skip` holds this session
/// identifier.
fn session_held_by_other(users: &Vec<User>, sid: &String, skip: usize) -> (r: bool)
    ensures
        r == session_taken_by_other(users@, sid@, skip as int),
{
    let n = users.len();
    let mut j: usize = 0;
    while j < n
        invariant
            n == users@.len(),
            0 <= j <= n,
            forall|k: int|
                0 <= k < j && k != skip ==> session_view(#[trigger] users@[k]) != Some(sid@),
        decreases n - j,
    {
        if j != skip {
            let held = match &users[j].session_id {
                Some(s) => *s == *sid,
                None => false,
            };
            if held {
                return true;
            }
        }
        j += 1;
    }
    false
}

/// Index of the first user with this username, if any.
pub(crate) fn find_by_username(users: &Vec<User>, username: &String) -> (r: Option<usize>)
    ensures
        match r {
            Some(i) => idx_by_username(users@, username@) == i && i < users@.len(),
            None => idx_by_username(users@, username@) < 0,
        },
{
    let n = users.len();
    let mut i: usize = 0;
    while i < n
        invariant
            n == users@.len(),
            0 <= i <= n,
            forall|j: int| 0 <= j < i ==> (#[trigger] users@[j]).username@ != username@,
        decreases n - i,
    {
        if users[i].username == *username {
            proof {
                lemma_idx_by_username_props(users@, username@);
            }
            return Some(i);
        }
        i += 1;
    }
    proof {
        lemma_idx_by_username_props(users@, username@);
    }
    None
}

/// Index of the first user with this id, if any.
pub(crate) fn find_by_id(users: &Vec<User>, id: u64) -> (r: Option<usize>)
    ensures
        match r {
            Some(i) => idx_by_id(users@, id) == i && i < users@.len(),
            None => idx_by_id(users@, id) < 0,
        },
{
    let n = users.len();
    let mut i: usize = 0;
    while i < n
        invariant
            n == users@.len(),
            0 <= i <= n,
            forall|j: int| 0 <= j < i ==> (#[trigger] users@[j]).id != id,
        decreases n - i,
    {
        if users[i].id == id {
            proof {
                lemma_idx_by_id_props(users@, id);
            }
            return Some(i);
        }
        i += 1;
    }
    proof {
        lemma_idx_by_id_props(users@, id);
    }
    None
}

/// Index of the first user holding this session identifier, if any.
pub(crate) fn find_by_session(users: &Vec<User>, sid: &String) -> (r: Option<usize>)
    ensures
        match r {
            Some(i) => idx_by_session(users@, sid@) == i && i < users@.len(),
            None => idx_by_session(users@, sid@) < 0,
        },
{
    let n = users.len();
    let mut i: usize = 0;
    while i < n
        invariant
            n == users@.len(),
            0 <= i <= n,
            forall|j: int| 0 <= j < i ==> session_view(#[trigger] users@[j]) != Some(sid@),
        decreases n - i,
    {
        let held = match &users[i].session_id {
            Some(s) => *s == *sid,
            None => false,
        };
        if held {
            proof {
                lemma_idx_by_session_props(users@, sid@);
            }
            return Some(i);
        }
        i += 1;
    }
    proof {
        lemma_idx_by_session_props(users@, sid@);
    }
    None
}

} // verus!
