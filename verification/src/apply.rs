//! The application registry: daily attendance-intent records.
//!
//! A record says "this user will eat on the day it was submitted". Submission
//! is accepted only for the current calendar date; the roster and the
//! has-applied check are scoped to the current day's window.

use vstd::prelude::*;

use crate::clock::{date_in_range, in_day_window};
use crate::error::Error;
use crate::store::{
    find_by_id, idx_by_id, idx_by_session, lemma_idx_by_id_props, lemma_idx_by_session_props,
    user_id_exists, ApplicationRow, Store, User,
};

verus! {

/// One application as handed out to a teacher: the row joined to its user's
/// name, with the time it was submitted.
pub struct Application {
    pub username: String,
    pub created_at: i64,
}

/// The row as handed out, joined to the name of the user it points at.
pub open spec fn joined_application(row: ApplicationRow, users: Seq<User>) -> Application {
    Application {
        username: users[idx_by_id(users, row.user_id)].username,
        created_at: row.created_at,
    }
}

/// The applications submitted in the day window of `date`, joined to
/// usernames, in store order.
pub open spec fn apps_listed(rows: Seq<ApplicationRow>, users: Seq<User>, date: i64) -> Seq<
    Application,
>
    decreases rows.len(),
{
    if rows.len() == 0 {
        Seq::empty()
    } else {
        let rest = apps_listed(rows.drop_last(), users, date);
        if in_day_window(rows.last().created_at, date) {
            rest.push(joined_application(rows.last(), users))
        } else {
            rest
        }
    }
}

/// Appending one row appends its joined form to the roster when it falls in
/// the window, and changes nothing otherwise.
pub proof fn lemma_apps_listed_push(
    rows: Seq<ApplicationRow>,
    r: ApplicationRow,
    users: Seq<User>,
    date: i64,
)
    ensures
        apps_listed(rows.push(r), users, date) == if in_day_window(r.created_at, date) {
            apps_listed(rows, users, date).push(joined_application(r, users))
        } else {
            apps_listed(rows, users, date)
        },
{
    assert(rows.push(r).drop_last() =~= rows);
    assert(rows.push(r).last() == r);
}

/// The user has at least one application in the day window of `date`.
pub open spec fn has_app_on(rows: Seq<ApplicationRow>, user_id: u64, date: i64) -> bool {
    exists|i: int|
        0 <= i < rows.len() && (#[trigger] rows[i]).user_id == user_id && in_day_window(
            rows[i].created_at,
            date,
        )
}

/// What one application submission leaves behind: one new row for the
/// authenticated user, stamped `now_ts`, with the next fresh id — or nothing,
/// with the error saying why: `NoSuchSession` for a failed authentication,
/// `DateChanged` whenever `send_date` differs from `today`, `StoreError` for
/// an exhausted id space.
pub open spec fn apply_post(
    pre: Store,
    post: Store,
    r: Result<(), Error>,
    session_id: Seq<char>,
    send_date: i64,
    today: i64,
    now_ts: i64,
) -> bool {
    &&& post.users@ == pre.users@
    &&& post.rates@ == pre.rates@
    &&& post.total_rates@ == pre.total_rates@
    &&& post.meals@ == pre.meals@
    &&& post.next_rate_id == pre.next_rate_id
    &&& post.next_total_rate_id == pre.next_total_rate_id
    &&& ({
        let users0 = pre.users@;
        let ai = idx_by_session(users0, session_id);
        match r {
            Ok(u) => {
                &&& session_id.len() > 0
                &&& ai >= 0
                &&& send_date == today
                &&& post.applications@ == pre.applications@.push(
                    ApplicationRow {
                        id: pre.next_application_id,
                        user_id: users0[ai].id,
                        created_at: now_ts,
                    },
                )
            },
            Err(e) => {
                &&& post.applications@ == pre.applications@
                &&& post.next_application_id == pre.next_application_id
                &&& match e {
                    Error::NoSuchSession => session_id.len() == 0 || ai < 0,
                    Error::DateChanged => ai >= 0 && send_date != today,
                    Error::StoreError => ai >= 0 && send_date == today && pre.next_application_id
                        == u64::MAX,
                    _ => false,
                }
            },
        }
    })
}

impl Store {
    /// Record the authenticated user's attendance intent for the current day,
    /// stamped `now_ts`. Refused with `DateChanged` unless the
    /// caller-supplied `send_date` equals the current date `today` — a strict
    /// equality check against stale client state, whatever the time of day.
    /// Duplicate applications on one day are all persisted.
    pub fn apply_on(&mut self, session_id: &String, send_date: i64, today: i64, now_ts: i64) -> (r:
        Result<(), Error>)
        requires
            old(self).wf(),
        ensures
            final(self).wf(),
            apply_post(*old(self), *final(self), r, session_id@, send_date, today, now_ts),
    {
        let actor = match self.by_session_id(session_id) {
            Ok(u) => u,
            Err(e) => {
                return Err(e);
            },
        };
        if send_date != today {
            return Err(Error::DateChanged);
        }
        if self.next_application_id == u64::MAX {
            return Err(Error::StoreError);
        }
        let row = ApplicationRow {
            id: self.next_application_id,
            user_id: actor.id,
            created_at: now_ts,
        };
        let ghost apps_before = self.applications@;
        self.applications.push(row);
        self.next_application_id = self.next_application_id + 1;
        proof {
            assert(user_id_exists(self.users@, actor.id)) by {
                lemma_idx_by_session_props(self.users@, session_id@);
                let ai = idx_by_session(self.users@, session_id@);
                assert(0 <= ai < self.users@.len());
                assert(self.users@[ai].id == actor.id);
            }
            assert forall|p: int| 0 <= p < self.applications@.len() implies user_id_exists(
                self.users@,
                (#[trigger] self.applications@[p]).user_id,
            ) && self.applications@[p].id < self.next_application_id by {
                if p < apps_before.len() {
                    assert(self.applications@[p] == apps_before[p]);
                }
            }
            assert forall|p: int, q: int| 0 <= p < q < self.applications@.len() implies (
            #[trigger] self.applications@[p]).id != (#[trigger] self.applications@[q]).id by {
                if q < apps_before.len() {
                    assert(self.applications@[p] == apps_before[p]);
                    assert(self.applications@[q] == apps_before[q]);
                } else {
                    assert(self.applications@[q] == row);
                    assert(self.applications@[p] == apps_before[p]);
                    assert(apps_before[p].id < row.id);
                }
            }
        }
        Ok(())
    }

    /// The day's applicant roster, for teachers only: every application in
    /// the day window of `today`, joined to usernames, in store order.
    pub fn list_applications_on(&self, session_id: &String, today: i64) -> (r: Result<
        Vec<Application>,
        Error,
    >)
        requires
            self.wf(),
            date_in_range(today),
        ensures
            ({
                let users0 = self.users@;
                let ai = idx_by_session(users0, session_id@);
                match r {
                    Ok(v) => {
                        &&& session_id@.len() > 0
                        &&& ai >= 0
                        &&& users0[ai].is_teacher
                        &&& v@ == apps_listed(self.applications@, users0, today)
                    },
                    Err(e) => match e {
                        Error::NoSuchSession => session_id@.len() == 0 || ai < 0,
                        Error::Unprivileged => ai >= 0 && !users0[ai].is_teacher,
                        _ => false,
                    },
                }
            }),
    {
        let actor = match self.by_session_id(session_id) {
            Ok(u) => u,
            Err(e) => {
                return Err(e);
            },
        };
        if !actor.is_teacher {
            return Err(Error::Unprivileged);
        }
        let (start, end) = crate::clock::day_window(today);
        let mut out: Vec<Application> = Vec::new();
        let n = self.applications.len();
        let mut i: usize = 0;
        proof {
            assert(self.applications@.take(0) =~= Seq::<ApplicationRow>::empty());
            assert(out@ =~= apps_listed(self.applications@.take(0), self.users@, today));
        }
        while i < n
            invariant
                self.wf(),
                date_in_range(today),
                start == today * 86400,
                end == today * 86400 + 86400,
                n == self.applications@.len(),
                0 <= i <= n,
                out@ == apps_listed(self.applications@.take(i as int), self.users@, today),
            decreases n - i,
        {
            let ghost prefix = self.applications@.take(i as int);
            let ghost row = self.applications@[i as int];
            proof {
                assert(self.applications@.take(i as int + 1) =~= prefix.push(row));
                lemma_apps_listed_push(prefix, row, self.users@, today);
            }
            let created = self.applications[i].created_at;
            if start <= created && created < end {
                proof {
                    assert(user_id_exists(self.users@, self.applications@[i as int].user_id));
                    lemma_idx_by_id_props(self.users@, self.applications@[i as int].user_id);
                }
                let uidx = match find_by_id(&self.users, self.applications[i].user_id) {
                    Some(k) => k,
                    None => {
                        proof {
                            assert(false);
                        }
                        0
                    },
                };
                let joined = Application {
                    username: self.users[uidx].username.clone(),
                    created_at: self.applications[i].created_at,
                };
                proof {
                    assert(joined == joined_application(row, self.users@));
                }
                out.push(joined);
            }
            i += 1;
        }
        proof {
            assert(self.applications@.take(n as int) =~= self.applications@);
        }
        Ok(out)
    }

    /// Whether the authenticated user has applied on the current day: true
    /// exactly when at least one of their applications falls in the day
    /// window of `today`.
    pub fn has_applied_on(&self, session_id: &String, today: i64) -> (r: Result<bool, Error>)
        requires
            self.wf(),
            date_in_range(today),
        ensures
            ({
                let users0 = self.users@;
                let ai = idx_by_session(users0, session_id@);
                match r {
                    Ok(b) => {
                        &&& session_id@.len() > 0
                        &&& ai >= 0
                        &&& b == has_app_on(self.applications@, users0[ai].id, today)
                    },
                    Err(e) => (e matches Error::NoSuchSession) && (session_id@.len() == 0 || ai
                        < 0),
                }
            }),
    {
        let actor = match self.by_session_id(session_id) {
            Ok(u) => u,
            Err(e) => {
                return Err(e);
            },
        };
        let (start, end) = crate::clock::day_window(today);
        let n = self.applications.len();
        let mut i: usize = 0;
        while i < n
            invariant
                n == self.applications@.len(),
                0 <= i <= n,
                start == today * 86400,
                end == today * 86400 + 86400,
                session_id@.len() > 0,
                idx_by_session(self.users@, session_id@) >= 0,
                actor == self.users@[idx_by_session(self.users@, session_id@)],
                forall|j: int|
                    0 <= j < i ==> !((#[trigger] self.applications@[j]).user_id == actor.id
                        && in_day_window(self.applications@[j].created_at, today)),
            decreases n - i,
        {
            let created = self.applications[i].created_at;
            if self.applications[i].user_id == actor.id && start <= created && created < end {
                proof {
                    lemma_idx_by_session_props(self.users@, session_id@);
                    let ai = idx_by_session(self.users@, session_id@);
                    assert(0 <= ai < self.users@.len());
                    assert(actor == self.users@[ai]);
                    assert((#[trigger] self.applications@[i as int]).user_id == self.users@[ai].id
                        && in_day_window(self.applications@[i as int].created_at, today));
                    assert(has_app_on(self.applications@, self.users@[ai].id, today));
                }
                return Ok(true);
            }
            i += 1;
        }
        proof {
            lemma_idx_by_session_props(self.users@, session_id@);
        }
        Ok(false)
    }
}

} // verus!
