//! The library's laws: properties that relate several operations, stated
//! over the same relations the operations' contracts use, and proved once
//! for every store and input.

use vstd::prelude::*;

use crate::error::Error;
use crate::rating::{
    food_on, is_rank_of, lemma_food_on_permutation, lemma_score_permutation, score_on,
    user_rates_post, Rate, RateRow,
};
use crate::store::{
    idx_by_session, idx_by_username, lemma_idx_by_session_props, lemma_idx_by_username_props,
    lemma_idx_by_username_same_names, login_post, logout_post, session_view, Store,
};

verus! {

/// After a successful login, a second login for the same username without an
/// intervening logout fails with `AlreadyLoggedIn`, carrying the session
/// identifier the first login issued: login is not idempotent.
pub proof fn lemma_relogin_fails(
    pre: Store,
    mid: Store,
    post: Store,
    sid: String,
    r2: Result<String, Error>,
    username: Seq<char>,
)
    requires
        pre.wf(),
        login_post(pre, mid, Ok(sid), username),
        login_post(mid, post, r2, username),
    ensures
        r2 matches Err(Error::AlreadyLoggedIn(s)) && s@ == sid@,
{
    lemma_idx_by_username_props(pre.users@, username);
    let i = idx_by_username(pre.users@, username);
    lemma_idx_by_username_same_names(pre.users@, mid.users@, username);
    assert(idx_by_username(mid.users@, username) == i);
    assert(session_view(mid.users@[i]) == Some(sid@));
}

/// A logout followed by a login for the logged-out user never fails the
/// lookup or the already-logged-in check, and an issued identifier differs
/// from every session identifier any *other* user held before the logout.
/// (That it also differs from the identifier the user themselves held before
/// holds only probabilistically, by the 128-bit random generation, and is not
/// claimed here.)
pub proof fn lemma_logout_then_login(
    pre: Store,
    mid: Store,
    post: Store,
    name: String,
    r2: Result<String, Error>,
    session_id: Seq<char>,
)
    requires
        pre.wf(),
        logout_post(pre, mid, Ok(name), session_id),
        login_post(mid, post, r2, name@),
    ensures
        !(r2 matches Err(Error::NotFound)),
        !(r2 matches Err(Error::AlreadyLoggedIn(_))),
        r2 matches Ok(sid2) ==> forall|j: int|
            0 <= j < pre.users@.len() && session_view(#[trigger] pre.users@[j]) != Some(session_id)
                ==> session_view(pre.users@[j]) != Some(sid2@),
{
    lemma_idx_by_session_props(pre.users@, session_id);
    let i0 = idx_by_session(pre.users@, session_id);
    assert(0 <= i0 < pre.users@.len());
    lemma_idx_by_username_props(pre.users@, name@);
    lemma_idx_by_username_same_names(pre.users@, mid.users@, name@);
    let i1 = idx_by_username(pre.users@, name@);
    assert(pre.users@[i0].username@ == name@);
    assert(0 <= i1 < pre.users@.len() && pre.users@[i1].username@ == name@);
    if i1 != i0 {
        assert(crate::store::distinct_user_pair(
            pre.users@[vstd::math::min(i0, i1)],
            pre.users@[vstd::math::max(i0, i1)],
        ));
    }
    assert(i1 == i0);
    assert(session_view(mid.users@[i0]) is None);
    if let Ok(sid2) = r2 {
        assert forall|j: int|
            0 <= j < pre.users@.len() && session_view(#[trigger] pre.users@[j]) != Some(
                session_id,
            ) implies session_view(pre.users@[j]) != Some(sid2@) by {
            if j == i0 {
                assert(session_view(pre.users@[i0]) == Some(session_id));
            } else {
                assert(mid.users@[j] == pre.users@[j]);
                assert(session_view(mid.users@[j]) != Some(sid2@));
            }
        }
    }
}

/// A non-teacher actor querying another user's ratings is always refused with
/// `Unprivileged`, whatever the store holds and whatever the date.
pub proof fn lemma_ratings_for_other_unprivileged(
    s: Store,
    r: Result<Vec<Rate>, Error>,
    session_id: Seq<char>,
    username: Seq<char>,
    date: i64,
)
    requires
        s.wf(),
        user_rates_post(s, r, session_id, username, date),
        idx_by_session(s.users@, session_id) >= 0,
        idx_by_username(s.users@, username) >= 0,
        !s.users@[idx_by_session(s.users@, session_id)].is_teacher,
        s.users@[idx_by_session(s.users@, session_id)].id != s.users@[idx_by_username(
            s.users@,
            username,
        )].id,
    ensures
        r matches Err(Error::Unprivileged),
{
    lemma_idx_by_session_props(s.users@, session_id);
    let ai = idx_by_session(s.users@, session_id);
    assert(crate::store::user_ok(s.users@[ai]));
    assert(session_id.len() > 0);
}

/// The ranking is order-independent: two stores whose rating rows are the
/// same multiset — any permutation of one another — give every food the same
/// window membership and the same score on every date.
pub proof fn lemma_rank_order_independent(rows1: Seq<RateRow>, rows2: Seq<RateRow>, date: i64)
    requires
        rows1.to_multiset() == rows2.to_multiset(),
    ensures
        forall|food: Seq<char>|
            #[trigger] score_on(rows1, date, food) == score_on(rows2, date, food),
        forall|food: Seq<char>| #[trigger] food_on(rows1, date, food) <==> food_on(
            rows2,
            date,
            food,
        ),
{
    assert forall|food: Seq<char>|
        #[trigger] score_on(rows1, date, food) == score_on(rows2, date, food) by {
        lemma_score_permutation(rows1, rows2, date, food);
    }
    assert forall|food: Seq<char>| #[trigger] food_on(rows1, date, food) <==> food_on(
        rows2,
        date,
        food,
    ) by {
        lemma_food_on_permutation(rows1, rows2, date, food);
    }
}

/// Some ranking entry carries exactly this food and score.
pub open spec fn entry_in(entries: Seq<(String, i128)>, food: Seq<char>, score: i128) -> bool {
    exists|q: int|
        0 <= q < entries.len() && (#[trigger] entries[q]).0@ == food && entries[q].1 == score
}

/// Consequently two rankings computed from permuted rows denote the same
/// mapping: each entry of the one has a matching entry in the other, same
/// food, same score.
pub proof fn lemma_rank_same_mapping(
    rows1: Seq<RateRow>,
    rows2: Seq<RateRow>,
    date: i64,
    entries1: Seq<(String, i128)>,
    entries2: Seq<(String, i128)>,
)
    requires
        rows1.to_multiset() == rows2.to_multiset(),
        is_rank_of(rows1, date, entries1),
        is_rank_of(rows2, date, entries2),
    ensures
        forall|p: int|
            0 <= p < entries1.len() ==> entry_in(
                entries2,
                (#[trigger] entries1[p]).0@,
                entries1[p].1,
            ),
        forall|p: int|
            0 <= p < entries2.len() ==> entry_in(
                entries1,
                (#[trigger] entries2[p]).0@,
                entries2[p].1,
            ),
{
    lemma_rank_order_independent(rows1, rows2, date);
    assert forall|p: int| 0 <= p < entries1.len() implies entry_in(
        entries2,
        (#[trigger] entries1[p]).0@,
        entries1[p].1,
    ) by {
        let food = entries1[p].0@;
        assert(food_on(rows1, date, food));
        assert(food_on(rows2, date, food));
        let q = choose|q: int| 0 <= q < entries2.len() && (#[trigger] entries2[q]).0@ == food;
        assert(entries2[q].1 as int == score_on(rows2, date, food));
        assert(score_on(rows2, date, food) == score_on(rows1, date, food));
        assert(entries2[q].1 == entries1[p].1);
    }
    assert forall|p: int| 0 <= p < entries2.len() implies entry_in(
        entries1,
        (#[trigger] entries2[p]).0@,
        entries2[p].1,
    ) by {
        let food = entries2[p].0@;
        assert(food_on(rows2, date, food));
        assert(food_on(rows1, date, food));
        let q = choose|q: int| 0 <= q < entries1.len() && (#[trigger] entries1[q]).0@ == food;
        assert(entries1[q].1 as int == score_on(rows1, date, food));
        assert(score_on(rows1, date, food) == score_on(rows2, date, food));
        assert(entries1[q].1 == entries2[p].1);
    }
}

} // verus!
