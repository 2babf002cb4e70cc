//! The operation surface the boundary layer calls: one function per request
//! kind, each taking the request's parameter record and returning its
//! response record or an [`Error`].
//!
//! "Today" operations resolve the server's current local calendar date at the
//! instant of processing; their contracts hold for every value the clock can
//! hand back.

use vstd::prelude::*;

use crate::apply::{apply_post, apps_listed, has_app_on, Application};
use crate::auth::can_view_spec;
use crate::clock::{current_time, date_in_range};
use crate::error::Error;
use crate::rating::{
    first_total_on, is_daily_average, is_rank_of, rates_listed, submit_post, DailyAverage, Rate,
    RateReq,
};
use crate::store::{idx_by_session, idx_by_username, login_post, logout_post, Store};

verus! {

/// A login request: no password, the username alone.
pub struct LoginParam {
    pub username: String,
}

/// A successful login: the fresh session identifier.
pub struct LoginResponse {
    pub is_error: bool,
    pub session_id: String,
}

/// A logout request; the username is echoed back, the session identifier
/// names the session to end.
pub struct LogoutParam {
    pub username: String,
    pub session_id: String,
}

/// A successful logout: the request's username, echoed.
pub struct LogoutResponse {
    pub is_error: bool,
    pub username: String,
}

/// One rating submission: the per-food ratings, the overall daily
/// satisfaction score in `0..=10`, and the calendar date the client believes
/// it is.
pub struct RateParam {
    pub session_id: String,
    pub rates: Vec<RateReq>,
    pub total_rate: u8,
    pub send_date: i64,
}

/// A successful rating submission.
pub struct RateResponse {
    pub is_error: bool,
}

/// A ratings query: optionally narrowed to one food, optionally to a date
/// other than today.
pub struct GetRatesParam {
    pub session_id: String,
    pub food_name: Option<String>,
    pub date: Option<i64>,
}

/// The listed ratings and the day's average overall score (`None` when the
/// day has no overall scores).
pub struct GetRatesResponse {
    pub is_error: bool,
    pub rates: Vec<Rate>,
    pub total_avg_rate: Option<DailyAverage>,
}

/// A query for one user's ratings and overall score, optionally on a date
/// other than today.
pub struct GetUserRatesParam {
    pub session_id: String,
    pub username: String,
    pub date: Option<i64>,
}

/// One user's listed ratings and overall score for the day.
pub struct GetUserRatesResponse {
    pub is_error: bool,
    pub rates: Vec<Rate>,
    pub total_rate: u8,
}

/// A ranking request.
pub struct RankParam {
    pub session_id: String,
}

/// The day's food ranking: one entry per rated food with its score, in no
/// particular order.
pub struct RankResponse {
    pub is_error: bool,
    pub rank: Vec<(String, i128)>,
}

/// An attendance application: the intent flag is recorded as a row (the
/// stored record itself is the "yes"), and the calendar date the client
/// believes it is.
pub struct ApplyParam {
    pub session_id: String,
    pub apply: bool,
    pub send_date: i64,
}

/// A successful application.
pub struct ApplyResponse {
    pub is_error: bool,
}

/// A request for the day's applicant roster.
pub struct GetApplicationParam {
    pub session_id: String,
}

/// The day's applicant roster.
pub struct GetApplicationResponse {
    pub is_error: bool,
    pub applications: Vec<Application>,
}

/// A has-applied query for the authenticated user.
pub struct HasAppliedParam {
    pub session_id: String,
}

/// Whether the authenticated user has applied today.
pub struct HasAppliedResponse {
    pub is_error: bool,
    pub applied: bool,
}

/// A profile request.
pub struct UserParam {
    pub session_id: String,
    pub username: String,
}

/// A user row as handed out: everything but the session identifier.
pub struct UserInfo {
    pub username: String,
    pub name: String,
    pub auto_apply: bool,
    pub is_teacher: bool,
    pub created_at: i64,
}

/// The view of an optional owned string.
pub open spec fn opt_string_view(o: Option<String>) -> Option<Seq<char>> {
    match o {
        Some(s) => Some(s@),
        None => None,
    }
}

/// Log in: issue a session for the named user.
pub fn login(store: &mut Store, param: &LoginParam) -> (r: Result<LoginResponse, Error>)
    requires
        old(store).wf(),
    ensures
        final(store).wf(),
        match r {
            Ok(resp) => !resp.is_error && login_post(
                *old(store),
                *final(store),
                Ok(resp.session_id),
                param.username@,
            ),
            Err(e) => login_post(*old(store), *final(store), Err(e), param.username@),
        },
{
    match store.login(&param.username) {
        Ok(sid) => Ok(LoginResponse { is_error: false, session_id: sid }),
        Err(e) => Err(e),
    }
}

/// Log out the session named in the request; the response echoes the
/// request's username.
pub fn logout(store: &mut Store, param: &LogoutParam) -> (r: Result<LogoutResponse, Error>)
    requires
        old(store).wf(),
    ensures
        final(store).wf(),
        match r {
            Ok(resp) => !resp.is_error && resp.username@ == param.username@ && (exists|
                name: String,
            |
                #[trigger] logout_post(*old(store), *final(store), Ok(name), param.session_id@)),
            Err(e) => logout_post(*old(store), *final(store), Err(e), param.session_id@),
        },
{
    match store.logout(&param.session_id) {
        Ok(name) => {
            proof {
                assert(logout_post(*old(store), *store, Ok(name), param.session_id@));
            }
            Ok(LogoutResponse { is_error: false, username: param.username.clone() })
        },
        Err(e) => Err(e),
    }
}

/// Submit the authenticated user's ratings for today: refused with
/// `DateChanged` whenever the request's `send_date` differs from the server's
/// current calendar date at the instant of processing.
pub fn post_rate(store: &mut Store, param: &RateParam) -> (r: Result<RateResponse, Error>)
    requires
        old(store).wf(),
        param.total_rate <= 10,
    ensures
        final(store).wf(),
        (r matches Ok(resp) ==> !resp.is_error),
        exists|today: i64, ts: i64|
            date_in_range(today) && #[trigger] crate::clock::in_day_window(ts, today)
                && submit_post(
                *old(store),
                *final(store),
                match r {
                    Ok(resp) => Ok(()),
                    Err(e) => Err(e),
                },
                param.session_id@,
                param.rates@,
                param.total_rate,
                param.send_date,
                today,
                ts,
            ),
{
    let (today, now_ts) = current_time();
    let res = store.submit_rating_on(
        &param.session_id,
        &param.rates,
        param.total_rate,
        param.send_date,
        today,
        now_ts,
    );
    match res {
        Ok(u) => Ok(RateResponse { is_error: false }),
        Err(e) => Err(e),
    }
}

/// Record the authenticated user's attendance intent for today: refused with
/// `DateChanged` whenever the request's `send_date` differs from the server's
/// current calendar date at the instant of processing, whatever the time of
/// day.
pub fn apply(store: &mut Store, param: &ApplyParam) -> (r: Result<ApplyResponse, Error>)
    requires
        old(store).wf(),
    ensures
        final(store).wf(),
        (r matches Ok(resp) ==> !resp.is_error),
        exists|today: i64, ts: i64|
            date_in_range(today) && #[trigger] crate::clock::in_day_window(ts, today)
                && apply_post(
                *old(store),
                *final(store),
                match r {
                    Ok(resp) => Ok(()),
                    Err(e) => Err(e),
                },
                param.session_id@,
                param.send_date,
                today,
                ts,
            ),
{
    let (today, now_ts) = current_time();
    let res = store.apply_on(&param.session_id, param.send_date, today, now_ts);
    match res {
        Ok(u) => Ok(ApplyResponse { is_error: false }),
        Err(e) => Err(e),
    }
}

/// The day's food ranking for an authenticated caller.
pub fn rank(store: &Store, param: &RankParam) -> (r: Result<RankResponse, Error>)
    requires
        store.wf(),
    ensures
        ({
            let ai = idx_by_session(store.users@, param.session_id@);
            match r {
                Ok(resp) => {
                    &&& !resp.is_error
                    &&& param.session_id@.len() > 0
                    &&& ai >= 0
                    &&& exists|today: i64|
                        #[trigger] date_in_range(today) && is_rank_of(
                            store.rates@,
                            today,
                            resp.rank@,
                        )
                },
                Err(e) => (e matches Error::NoSuchSession) && (param.session_id@.len() == 0 || ai
                    < 0),
            }
        }),
{
    let actor = match store.by_session_id(&param.session_id) {
        Ok(u) => u,
        Err(e) => {
            return Err(e);
        },
    };
    let (today, _now_ts) = current_time();
    let rank = store.rank_for_day(today);
    Ok(RankResponse { is_error: false, rank })
}

/// The ratings on a date (today when none is given), optionally narrowed to
/// one food, with the same day's average overall score, for an authenticated
/// caller.
pub fn get_rates(store: &Store, param: &GetRatesParam) -> (r: Result<GetRatesResponse, Error>)
    requires
        store.wf(),
        param.date matches Some(d) ==> date_in_range(d),
    ensures
        ({
            let ai = idx_by_session(store.users@, param.session_id@);
            match r {
                Ok(resp) => {
                    &&& !resp.is_error
                    &&& param.session_id@.len() > 0
                    &&& ai >= 0
                    &&& exists|d: i64|
                        #[trigger] date_in_range(d) && (param.date matches Some(pd) ==> d == pd)
                            && resp.rates@ == rates_listed(
                            store.rates@,
                            store.users@,
                            d,
                            opt_string_view(param.food_name),
                            None,
                        ) && is_daily_average(store.total_rates@, d, resp.total_avg_rate)
                },
                Err(e) => (e matches Error::NoSuchSession) && (param.session_id@.len() == 0 || ai
                    < 0),
            }
        }),
{
    let actor = match store.by_session_id(&param.session_id) {
        Ok(u) => u,
        Err(e) => {
            return Err(e);
        },
    };
    let d = match param.date {
        Some(d) => d,
        None => current_time().0,
    };
    let rates = store.rates_on(d, param.food_name.as_ref(), None);
    let total_avg_rate = store.daily_average_on(d);
    Ok(GetRatesResponse { is_error: false, rates, total_avg_rate })
}

/// One user's ratings and overall score on a date (today when none is
/// given), behind the privilege gate: a non-teacher may only query
/// themselves.
pub fn get_user_rate(store: &Store, param: &GetUserRatesParam) -> (r: Result<
    GetUserRatesResponse,
    Error,
>)
    requires
        store.wf(),
        param.date matches Some(d) ==> date_in_range(d),
    ensures
        exists|d: i64|
            #[trigger] date_in_range(d) && (param.date matches Some(pd) ==> d == pd) && ({
                let users0 = store.users@;
                let ai = idx_by_session(users0, param.session_id@);
                let ti = idx_by_username(users0, param.username@);
                match r {
                    Ok(resp) => {
                        &&& !resp.is_error
                        &&& param.session_id@.len() > 0
                        &&& ai >= 0
                        &&& ti >= 0
                        &&& can_view_spec(users0[ai], users0[ti])
                        &&& resp.rates@ == rates_listed(
                            store.rates@,
                            users0,
                            d,
                            None,
                            Some(users0[ti].id),
                        )
                        &&& first_total_on(store.total_rates@, users0[ti].id, d) >= 0
                        &&& resp.total_rate == store.total_rates@[first_total_on(
                            store.total_rates@,
                            users0[ti].id,
                            d,
                        )].rate_level
                    },
                    Err(e) => match e {
                        Error::NoSuchSession => param.session_id@.len() == 0 || ai < 0,
                        Error::NotFound => ai >= 0 && (ti < 0 || (can_view_spec(
                            users0[ai],
                            users0[ti],
                        ) && first_total_on(store.total_rates@, users0[ti].id, d) < 0)),
                        Error::Unprivileged => ai >= 0 && ti >= 0 && !can_view_spec(
                            users0[ai],
                            users0[ti],
                        ),
                        _ => false,
                    },
                }
            }),
{
    let d = match param.date {
        Some(d) => d,
        None => current_time().0,
    };
    let rates = match store.ratings_for_user_on(&param.session_id, &param.username, d) {
        Ok(v) => v,
        Err(e) => {
            return Err(e);
        },
    };
    let total_rate = match store.total_rate_for_user_on(&param.session_id, &param.username, d) {
        Ok(v) => v,
        Err(e) => {
            return Err(e);
        },
    };
    Ok(GetUserRatesResponse { is_error: false, rates, total_rate })
}

/// Today's applicant roster, for teachers only.
pub fn get_applications(store: &Store, param: &GetApplicationParam) -> (r: Result<
    GetApplicationResponse,
    Error,
>)
    requires
        store.wf(),
    ensures
        ({
            let users0 = store.users@;
            let ai = idx_by_session(users0, param.session_id@);
            match r {
                Ok(resp) => {
                    &&& !resp.is_error
                    &&& param.session_id@.len() > 0
                    &&& ai >= 0
                    &&& users0[ai].is_teacher
                    &&& exists|today: i64|
                        #[trigger] date_in_range(today) && resp.applications@ == apps_listed(
                            store.applications@,
                            users0,
                            today,
                        )
                },
                Err(e) => match e {
                    Error::NoSuchSession => param.session_id@.len() == 0 || ai < 0,
                    Error::Unprivileged => ai >= 0 && !users0[ai].is_teacher,
                    _ => false,
                },
            }
        }),
{
    let (today, _now_ts) = current_time();
    match store.list_applications_on(&param.session_id, today) {
        Ok(applications) => Ok(GetApplicationResponse { is_error: false, applications }),
        Err(e) => Err(e),
    }
}

/// Whether the authenticated user has applied today.
pub fn has_applied(store: &Store, param: &HasAppliedParam) -> (r: Result<HasAppliedResponse, Error>)
    requires
        store.wf(),
    ensures
        ({
            let users0 = store.users@;
            let ai = idx_by_session(users0, param.session_id@);
            match r {
                Ok(resp) => {
                    &&& !resp.is_error
                    &&& param.session_id@.len() > 0
                    &&& ai >= 0
                    &&& exists|today: i64|
                        #[trigger] date_in_range(today) && resp.applied == has_app_on(
                            store.applications@,
                            users0[ai].id,
                            today,
                        )
                },
                Err(e) => (e matches Error::NoSuchSession) && (param.session_id@.len() == 0 || ai
                    < 0),
            }
        }),
{
    let (today, _now_ts) = current_time();
    match store.has_applied_on(&param.session_id, today) {
        Ok(applied) => Ok(HasAppliedResponse { is_error: false, applied }),
        Err(e) => Err(e),
    }
}

/// The authenticated user's own profile. A teacher, or a caller naming their
/// own username, gets the authenticated user's record; anyone else is
/// refused.
pub fn get_user(store: &Store, param: &UserParam) -> (r: Result<UserInfo, Error>)
    requires
        store.wf(),
    ensures
        ({
            let users0 = store.users@;
            let ai = idx_by_session(users0, param.session_id@);
            match r {
                Ok(info) => {
                    &&& param.session_id@.len() > 0
                    &&& ai >= 0
                    &&& (users0[ai].is_teacher || users0[ai].username@ == param.username@)
                    &&& info.username@ == users0[ai].username@
                    &&& info.name@ == users0[ai].name@
                    &&& info.auto_apply == users0[ai].auto_apply
                    &&& info.is_teacher == users0[ai].is_teacher
                    &&& info.created_at == users0[ai].created_at
                },
                Err(e) => match e {
                    Error::NoSuchSession => param.session_id@.len() == 0 || ai < 0,
                    Error::Unprivileged => ai >= 0 && !users0[ai].is_teacher && users0[ai].username@
                        != param.username@,
                    _ => false,
                },
            }
        }),
{
    let actor = match store.by_session_id(&param.session_id) {
        Ok(u) => u,
        Err(e) => {
            return Err(e);
        },
    };
    if actor.is_teacher || actor.username == param.username {
        Ok(
            UserInfo {
                username: actor.username,
                name: actor.name,
                auto_apply: actor.auto_apply,
                is_teacher: actor.is_teacher,
                created_at: actor.created_at,
            },
        )
    } else {
        Err(Error::Unprivileged)
    }
}

} // verus!
