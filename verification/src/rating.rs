//! Per-food ratings, the overall daily satisfaction score, and their
//! date-windowed aggregation.

use vstd::prelude::*;

use crate::auth::{can_view, can_view_spec};
use crate::clock::{date_in_range, in_day_window};
use crate::error::Error;
use crate::store::{
    find_by_id, idx_by_id, idx_by_session, idx_by_username, lemma_idx_by_id_props,
    lemma_idx_by_session_props, user_id_exists, Store, User,
};

verus! {

/// How one food was rated. The numeric scoring is `Bad = -1`, `Soso = 1`,
/// `Good = 2`, applied uniformly on insert and aggregate paths.
#[derive(Clone, Copy, PartialEq, Eq, Structural)]
pub enum RateLevel {
    Bad,
    Soso,
    Good,
}

/// The numeric score a level contributes to a food's ranking.
pub open spec fn level_score(l: RateLevel) -> int {
    match l {
        RateLevel::Bad => -1,
        RateLevel::Soso => 1,
        RateLevel::Good => 2,
    }
}

impl RateLevel {
    /// The level's score as it is stored.
    pub fn score(&self) -> (r: i8)
        ensures
            r as int == level_score(*self),
    {
        match self {
            RateLevel::Bad => -1,
            RateLevel::Soso => 1,
            RateLevel::Good => 2,
        }
    }

    /// The level a stored score stands for; scores outside the numbering have
    /// no level.
    pub fn from_score(v: i8) -> (r: Option<RateLevel>)
        ensures
            match r {
                Some(l) => level_score(l) == v as int,
                None => v != -1 && v != 1 && v != 2,
            },
    {
        match v {
            -1 => Some(RateLevel::Bad),
            1 => Some(RateLevel::Soso),
            2 => Some(RateLevel::Good),
            _ => None,
        }
    }
}

/// One requested food rating inside a submission.
pub struct RateReq {
    pub food_name: String,
    pub level: RateLevel,
}

impl Clone for RateReq {
    fn clone(&self) -> (r: Self)
        ensures
            r == *self,
    {
        RateReq { food_name: self.food_name.clone(), level: self.level }
    }
}

/// One stored per-food rating row.
pub struct RateRow {
    pub id: u64,
    pub user_id: u64,
    pub food_name: String,
    pub rate_level: RateLevel,
    pub created_at: i64,
}

/// One stored overall daily satisfaction row; `rate_level` is in `0..=10`.
pub struct TotalRateRow {
    pub id: u64,
    pub user_id: u64,
    pub rate_level: u8,
    pub created_at: i64,
}

/// One rating as handed out: the stored row joined to its user's name.
pub struct Rate {
    pub username: String,
    pub food_name: String,
    pub rate_level: RateLevel,
    pub created_at: i64,
}

/// A food's total score over the rating rows that fall in the day window of
/// `date`: the sum of the scores of that food's rows.
pub open spec fn score_on(rows: Seq<RateRow>, date: i64, food: Seq<char>) -> int
    decreases rows.len(),
{
    if rows.len() == 0 {
        0
    } else {
        score_on(rows.drop_last(), date, food) + if in_day_window(rows.last().created_at, date)
            && rows.last().food_name@ == food {
            level_score(rows.last().rate_level)
        } else {
            0
        }
    }
}

/// Some rating row for this food falls in the day window of `date`.
pub open spec fn food_on(rows: Seq<RateRow>, date: i64, food: Seq<char>) -> bool {
    exists|i: int|
        0 <= i < rows.len() && in_day_window((#[trigger] rows[i]).created_at, date)
            && rows[i].food_name@ == food
}

/// Appending one row moves a food's score by that row's contribution.
pub proof fn lemma_score_push(rows: Seq<RateRow>, r: RateRow, date: i64, food: Seq<char>)
    ensures
        score_on(rows.push(r), date, food) == score_on(rows, date, food) + if in_day_window(
            r.created_at,
            date,
        ) && r.food_name@ == food {
            level_score(r.rate_level)
        } else {
            0
        },
{
    assert(rows.push(r).drop_last() =~= rows);
    assert(rows.push(r).last() == r);
}

/// A food's score is bounded by the number of rows.
pub proof fn lemma_score_bound(rows: Seq<RateRow>, date: i64, food: Seq<char>)
    ensures
        -(rows.len() as int) <= score_on(rows, date, food) <= 2 * rows.len(),
    decreases rows.len(),
{
    if rows.len() > 0 {
        lemma_score_bound(rows.drop_last(), date, food);
    }
}

/// Removing one row moves a food's score by that row's contribution.
pub proof fn lemma_score_remove(rows: Seq<RateRow>, j: int, date: i64, food: Seq<char>)
    requires
        0 <= j < rows.len(),
    ensures
        score_on(rows, date, food) == score_on(rows.remove(j), date, food) + if in_day_window(
            rows[j].created_at,
            date,
        ) && rows[j].food_name@ == food {
            level_score(rows[j].rate_level)
        } else {
            0
        },
    decreases rows.len(),
{
    if j == rows.len() - 1 {
        assert(rows.remove(j) =~= rows.drop_last());
    } else {
        lemma_score_remove(rows.drop_last(), j, date, food);
        assert(rows.remove(j).drop_last() =~= rows.drop_last().remove(j));
        assert(rows.remove(j).last() == rows.last());
        assert(rows.drop_last()[j] == rows[j]);
    }
}

/// Two sequences holding the same rows as a multiset give every food the same
/// score: the ranking is order-independent.
pub proof fn lemma_score_permutation(
    rows1: Seq<RateRow>,
    rows2: Seq<RateRow>,
    date: i64,
    food: Seq<char>,
)
    requires
        rows1.to_multiset() == rows2.to_multiset(),
    ensures
        score_on(rows1, date, food) == score_on(rows2, date, food),
    decreases rows1.len(),
{
    broadcast use vstd::seq_lib::group_to_multiset_ensures;

    if rows1.len() == 0 {
        vstd::seq_lib::to_multiset_len(rows1);
        vstd::seq_lib::to_multiset_len(rows2);
        assert(rows2.len() == 0);
    } else {
        let x = rows1.last();
        assert(rows1.contains(x));
        assert(rows2.to_multiset().count(x) > 0);
        assert(rows2.contains(x));
        let j = choose|j: int| 0 <= j < rows2.len() && rows2[j] == x;
        lemma_score_remove(rows2, j, date, food);
        assert(rows1.drop_last().push(x) =~= rows1);
        assert(rows1.to_multiset() =~= rows1.drop_last().to_multiset().insert(x));
        assert(rows1.drop_last().to_multiset() =~= rows1.to_multiset().remove(x));
        assert(rows2.remove(j).to_multiset() =~= rows2.to_multiset().remove(x));
        lemma_score_permutation(rows1.drop_last(), rows2.remove(j), date, food);
    }
}

/// Two sequences holding the same rows as a multiset mention the same foods
/// in the window.
pub proof fn lemma_food_on_permutation(
    rows1: Seq<RateRow>,
    rows2: Seq<RateRow>,
    date: i64,
    food: Seq<char>,
)
    requires
        rows1.to_multiset() == rows2.to_multiset(),
    ensures
        food_on(rows1, date, food) <==> food_on(rows2, date, food),
{
    broadcast use vstd::seq_lib::group_to_multiset_ensures;

    if food_on(rows1, date, food) {
        let w = choose|w: int|
            0 <= w < rows1.len() && in_day_window((#[trigger] rows1[w]).created_at, date)
                && rows1[w].food_name@ == food;
        assert(rows1.contains(rows1[w]));
        assert(rows2.to_multiset().count(rows1[w]) > 0);
        assert(rows2.contains(rows1[w]));
        let j = choose|j: int| 0 <= j < rows2.len() && rows2[j] == rows1[w];
        assert(in_day_window((#[trigger] rows2[j]).created_at, date) && rows2[j].food_name@
            == food);
    }
    if food_on(rows2, date, food) {
        let w = choose|w: int|
            0 <= w < rows2.len() && in_day_window((#[trigger] rows2[w]).created_at, date)
                && rows2[w].food_name@ == food;
        assert(rows2.contains(rows2[w]));
        assert(rows1.to_multiset().count(rows2[w]) > 0);
        assert(rows1.contains(rows2[w]));
        let j = choose|j: int| 0 <= j < rows1.len() && rows1[j] == rows2[w];
        assert(in_day_window((#[trigger] rows1[j]).created_at, date) && rows1[j].food_name@
            == food);
    }
}

/// A food no row in the window mentions scores zero.
pub proof fn lemma_score_absent(rows: Seq<RateRow>, date: i64, food: Seq<char>)
    requires
        !food_on(rows, date, food),
    ensures
        score_on(rows, date, food) == 0,
    decreases rows.len(),
{
    if rows.len() > 0 {
        assert forall|j: int| 0 <= j < rows.drop_last().len() implies !(in_day_window(
            (#[trigger] rows.drop_last()[j]).created_at,
            date,
        ) && rows.drop_last()[j].food_name@ == food) by {
            assert(rows.drop_last()[j] == rows[j]);
            assert(!(in_day_window(rows[j].created_at, date) && rows[j].food_name@ == food));
        }
        lemma_score_absent(rows.drop_last(), date, food);
        assert(!(in_day_window(rows.last().created_at, date) && rows.last().food_name@ == food));
    }
}

/// How many total-rate rows fall in the day window of `date`.
pub open spec fn total_count_on(rows: Seq<TotalRateRow>, date: i64) -> int
    decreases rows.len(),
{
    if rows.len() == 0 {
        0
    } else {
        total_count_on(rows.drop_last(), date) + if in_day_window(rows.last().created_at, date) {
            1int
        } else {
            0int
        }
    }
}

/// The sum of the total-rate levels that fall in the day window of `date`.
pub open spec fn total_sum_on(rows: Seq<TotalRateRow>, date: i64) -> int
    decreases rows.len(),
{
    if rows.len() == 0 {
        0
    } else {
        total_sum_on(rows.drop_last(), date) + if in_day_window(rows.last().created_at, date) {
            rows.last().rate_level as int
        } else {
            0int
        }
    }
}

/// Window count and sum are bounded by the rows: the count by their number,
/// the sum by ten per row when every level is in `0..=10`.
pub proof fn lemma_total_bounds(rows: Seq<TotalRateRow>, date: i64)
    requires
        forall|i: int| 0 <= i < rows.len() ==> (#[trigger] rows[i]).rate_level <= 10,
    ensures
        0 <= total_count_on(rows, date) <= rows.len(),
        0 <= total_sum_on(rows, date) <= 10 * rows.len(),
        total_count_on(rows, date) == 0 ==> total_sum_on(rows, date) == 0,
    decreases rows.len(),
{
    if rows.len() > 0 {
        assert(forall|i: int|
            0 <= i < rows.drop_last().len() ==> (#[trigger] rows.drop_last()[i]).rate_level <= 10);
        lemma_total_bounds(rows.drop_last(), date);
    }
}

/// Appending one total-rate row moves the window count and sum by that row's
/// contribution.
pub proof fn lemma_total_push(rows: Seq<TotalRateRow>, r: TotalRateRow, date: i64)
    ensures
        total_count_on(rows.push(r), date) == total_count_on(rows, date) + if in_day_window(
            r.created_at,
            date,
        ) {
            1int
        } else {
            0int
        },
        total_sum_on(rows.push(r), date) == total_sum_on(rows, date) + if in_day_window(
            r.created_at,
            date,
        ) {
            r.rate_level as int
        } else {
            0int
        },
{
    assert(rows.push(r).drop_last() =~= rows);
    assert(rows.push(r).last() == r);
}

/// The row as handed out, joined to the name of the user it points at.
pub open spec fn joined_rate(row: RateRow, users: Seq<User>) -> Rate {
    Rate {
        username: users[idx_by_id(users, row.user_id)].username,
        food_name: row.food_name,
        rate_level: row.rate_level,
        created_at: row.created_at,
    }
}

/// A rating row passes the listing filters: it falls in the day window, and
/// matches the food and user filters where given.
pub open spec fn rate_listed(row: RateRow, date: i64, food: Option<Seq<char>>, user: Option<
    u64,
>) -> bool {
    &&& in_day_window(row.created_at, date)
    &&& (food matches Some(f) ==> row.food_name@ == f)
    &&& (user matches Some(uid) ==> row.user_id == uid)
}

/// The ratings listed for a date, joined to usernames, in store order,
/// optionally narrowed to one food and to one user.
pub open spec fn rates_listed(
    rows: Seq<RateRow>,
    users: Seq<User>,
    date: i64,
    food: Option<Seq<char>>,
    user: Option<u64>,
) -> Seq<Rate>
    decreases rows.len(),
{
    if rows.len() == 0 {
        Seq::empty()
    } else {
        let rest = rates_listed(rows.drop_last(), users, date, food, user);
        if rate_listed(rows.last(), date, food, user) {
            rest.push(joined_rate(rows.last(), users))
        } else {
            rest
        }
    }
}

/// Appending one row appends its joined form to the listing when it passes
/// the filters, and changes nothing otherwise.
pub proof fn lemma_rates_listed_push(
    rows: Seq<RateRow>,
    r: RateRow,
    users: Seq<User>,
    date: i64,
    food: Option<Seq<char>>,
    user: Option<u64>,
)
    ensures
        rates_listed(rows.push(r), users, date, food, user) == if rate_listed(r, date, food, user) {
            rates_listed(rows, users, date, food, user).push(joined_rate(r, users))
        } else {
            rates_listed(rows, users, date, food, user)
        },
{
    assert(rows.push(r).drop_last() =~= rows);
    assert(rows.push(r).last() == r);
}

/// The view of an optional borrowed string.
pub open spec fn opt_str_view(o: Option<&String>) -> Option<Seq<char>> {
    match o {
        Some(s) => Some(s@),
        None => None,
    }
}

/// Index of the first total-rate row of this user in the day window of
/// `date`, or -1.
pub open spec fn first_total_on(rows: Seq<TotalRateRow>, user_id: u64, date: i64) -> int
    decreases rows.len(),
{
    if rows.len() == 0 {
        -1
    } else if in_day_window(rows[0].created_at, date) && rows[0].user_id == user_id {
        0
    } else {
        let r = first_total_on(rows.drop_first(), user_id, date);
        if r < 0 {
            -1
        } else {
            r + 1
        }
    }
}

/// `first_total_on` finds the first match, and -1 exactly when none exists.
pub proof fn lemma_first_total_props(rows: Seq<TotalRateRow>, user_id: u64, date: i64)
    ensures
        ({
            let r = first_total_on(rows, user_id, date);
            &&& r >= 0 ==> 0 <= r < rows.len() && in_day_window(rows[r].created_at, date)
                && rows[r].user_id == user_id && (forall|j: int|
                0 <= j < r ==> !(in_day_window((#[trigger] rows[j]).created_at, date)
                    && rows[j].user_id == user_id))
            &&& r < 0 ==> forall|j: int|
                0 <= j < rows.len() ==> !(in_day_window((#[trigger] rows[j]).created_at, date)
                    && rows[j].user_id == user_id)
        }),
    decreases rows.len(),
{
    if rows.len() > 0 && !(in_day_window(rows[0].created_at, date) && rows[0].user_id == user_id) {
        lemma_first_total_props(rows.drop_first(), user_id, date);
        assert forall|j: int| 1 <= j < rows.len() implies (#[trigger] rows[j])
            == rows.drop_first()[j - 1] by {}
    }
}

/// Index of the entry for this food in a ranking under construction, if any.
fn find_food(entries: &Vec<(String, i128)>, food: &String) -> (r: Option<usize>)
    ensures
        match r {
            Some(k) => k < entries@.len() && entries@[k as int].0@ == food@,
            None => forall|q: int| 0 <= q < entries@.len() ==> (#[trigger] entries@[q]).0@ != food@,
        },
{
    let n = entries.len();
    let mut k: usize = 0;
    while k < n
        invariant
            n == entries@.len(),
            0 <= k <= n,
            forall|q: int| 0 <= q < k ==> (#[trigger] entries@[q]).0@ != food@,
        decreases n - k,
    {
        if entries[k].0 == *food {
            return Some(k);
        }
        k += 1;
    }
    None
}

/// `entries` is the ranking of `rows` on `date`: one entry per food rated in
/// the day window, each carrying that food's score, in no particular order.
pub open spec fn is_rank_of(rows: Seq<RateRow>, date: i64, entries: Seq<(String, i128)>) -> bool {
    &&& forall|p: int, q: int|
        0 <= p < q < entries.len() ==> (#[trigger] entries[p]).0@ != (#[trigger] entries[q]).0@
    &&& forall|p: int|
        0 <= p < entries.len() ==> food_on(rows, date, (#[trigger] entries[p]).0@) && entries[p].1
            as int == score_on(rows, date, entries[p].0@)
    &&& forall|food: Seq<char>|
        #[trigger] food_on(rows, date, food) ==> exists|p: int|
            0 <= p < entries.len() && (#[trigger] entries[p]).0@ == food
}

/// `r` is the day's average of `rows` on `date`: `None` exactly when the
/// window holds no row, otherwise the window's exact sum and count.
pub open spec fn is_daily_average(rows: Seq<TotalRateRow>, date: i64, r: Option<
    DailyAverage,
>) -> bool {
    match r {
        None => total_count_on(rows, date) == 0,
        Some(a) => {
            &&& a.count > 0
            &&& a.count as int == total_count_on(rows, date)
            &&& a.sum as int == total_sum_on(rows, date)
        },
    }
}

impl Store {
    /// The day's food ranking: every food rated in the day window of `date`,
    /// each with the sum of its rows' scores. One entry per food; the order
    /// of the entries carries no meaning.
    pub fn rank_for_day(&self, date: i64) -> (r: Vec<(String, i128)>)
        requires
            self.wf(),
            date_in_range(date),
        ensures
            is_rank_of(self.rates@, date, r@),
    {
        let (start, end) = crate::clock::day_window(date);
        let mut out: Vec<(String, i128)> = Vec::new();
        let n = self.rates.len();
        let mut i: usize = 0;
        proof {
            assert(self.rates@.take(0) =~= Seq::<RateRow>::empty());
        }
        while i < n
            invariant
                self.wf(),
                date_in_range(date),
                start == date * 86400,
                end == date * 86400 + 86400,
                n == self.rates@.len(),
                0 <= i <= n,
                forall|p: int, q: int|
                    0 <= p < q < out@.len() ==> (#[trigger] out@[p]).0@ != (#[trigger] out@[q]).0@,
                forall|p: int|
                    0 <= p < out@.len() ==> food_on(
                        self.rates@.take(i as int),
                        date,
                        (#[trigger] out@[p]).0@,
                    ) && out@[p].1 as int == score_on(self.rates@.take(i as int), date, out@[p].0@),
                forall|food: Seq<char>|
                    #[trigger] food_on(self.rates@.take(i as int), date, food) ==> exists|p: int|
                        0 <= p < out@.len() && (#[trigger] out@[p]).0@ == food,
            decreases n - i,
        {
            let ghost prefix = self.rates@.take(i as int);
            let ghost row = self.rates@[i as int];
            proof {
                assert(self.rates@.take(i as int + 1) =~= prefix.push(row));
            }
            let created = self.rates[i].created_at;
            let in_win = start <= created && created < end;
            let ghost out0 = out@;
            if in_win {
                let delta = self.rates[i].rate_level.score();
                match find_food(&out, &self.rates[i].food_name) {
                    Some(k) => {
                        let name = out[k].0.clone();
                        let cur = out[k].1;
                        proof {
                            lemma_score_bound(prefix, date, out0[k as int].0@);
                        }
                        out.set(k, (name, cur + (delta as i128)));
                        proof {
                            assert forall|p: int| 0 <= p < out@.len() implies food_on(
                                prefix.push(row),
                                date,
                                (#[trigger] out@[p]).0@,
                            ) && out@[p].1 as int == score_on(
                                prefix.push(row),
                                date,
                                out@[p].0@,
                            ) by {
                                lemma_score_push(prefix, row, date, out@[p].0@);
                                if p == k as int {
                                    assert(out@[p].0@ == row.food_name@);
                                    assert(food_on(prefix.push(row), date, out@[p].0@)) by {
                                        assert(prefix.push(row)[prefix.len() as int] == row);
                                    }
                                } else {
                                    assert(out@[p] == out0[p]);
                                    assert(out@[p].0@ != row.food_name@);
                                    let w = choose|w: int|
                                        0 <= w < prefix.len() && in_day_window(
                                            (#[trigger] prefix[w]).created_at,
                                            date,
                                        ) && prefix[w].food_name@ == out@[p].0@;
                                    assert(prefix.push(row)[w] == prefix[w]);
                                }
                            }
                            assert forall|food: Seq<char>| #[trigger] food_on(
                                prefix.push(row),
                                date,
                                food,
                            ) implies exists|p: int|
                                0 <= p < out@.len() && (#[trigger] out@[p]).0@ == food by {
                                let w = choose|w: int|
                                    0 <= w < prefix.push(row).len() && in_day_window(
                                        (#[trigger] prefix.push(row)[w]).created_at,
                                        date,
                                    ) && prefix.push(row)[w].food_name@ == food;
                                if w < prefix.len() {
                                    assert(prefix[w] == prefix.push(row)[w]);
                                    assert(food_on(prefix, date, food));
                                    let p = choose|p: int|
                                        0 <= p < out0.len() && (#[trigger] out0[p]).0@ == food;
                                    assert(out@[p].0@ == food);
                                } else {
                                    assert(food == row.food_name@);
                                    assert(out@[k as int].0@ == food);
                                }
                            }
                        }
                    },
                    None => {
                        out.push((self.rates[i].food_name.clone(), delta as i128));
                        proof {
                            assert(!food_on(prefix, date, row.food_name@)) by {
                                if food_on(prefix, date, row.food_name@) {
                                    let p = choose|p: int|
                                        0 <= p < out0.len() && (#[trigger] out0[p]).0@
                                            == row.food_name@;
                                    assert(false);
                                }
                            }
                            lemma_score_absent(prefix, date, row.food_name@);
                            assert forall|p: int| 0 <= p < out@.len() implies food_on(
                                prefix.push(row),
                                date,
                                (#[trigger] out@[p]).0@,
                            ) && out@[p].1 as int == score_on(
                                prefix.push(row),
                                date,
                                out@[p].0@,
                            ) by {
                                lemma_score_push(prefix, row, date, out@[p].0@);
                                if p == out0.len() as int {
                                    assert(out@[p].0@ == row.food_name@);
                                    assert(food_on(prefix.push(row), date, out@[p].0@)) by {
                                        assert(prefix.push(row)[prefix.len() as int] == row);
                                    }
                                } else {
                                    assert(out@[p] == out0[p]);
                                    assert(out@[p].0@ != row.food_name@);
                                    let w = choose|w: int|
                                        0 <= w < prefix.len() && in_day_window(
                                            (#[trigger] prefix[w]).created_at,
                                            date,
                                        ) && prefix[w].food_name@ == out@[p].0@;
                                    assert(prefix.push(row)[w] == prefix[w]);
                                }
                            }
                            assert forall|food: Seq<char>| #[trigger] food_on(
                                prefix.push(row),
                                date,
                                food,
                            ) implies exists|p: int|
                                0 <= p < out@.len() && (#[trigger] out@[p]).0@ == food by {
                                let w = choose|w: int|
                                    0 <= w < prefix.push(row).len() && in_day_window(
                                        (#[trigger] prefix.push(row)[w]).created_at,
                                        date,
                                    ) && prefix.push(row)[w].food_name@ == food;
                                if w < prefix.len() {
                                    assert(prefix[w] == prefix.push(row)[w]);
                                    assert(food_on(prefix, date, food));
                                    let p = choose|p: int|
                                        0 <= p < out0.len() && (#[trigger] out0[p]).0@ == food;
                                    assert(out@[p].0@ == food);
                                } else {
                                    assert(food == row.food_name@);
                                    assert(out@[out0.len() as int].0@ == food);
                                }
                            }
                        }
                    },
                }
            } else {
                proof {
                    assert forall|p: int| 0 <= p < out@.len() implies food_on(
                        prefix.push(row),
                        date,
                        (#[trigger] out@[p]).0@,
                    ) && out@[p].1 as int == score_on(prefix.push(row), date, out@[p].0@) by {
                        lemma_score_push(prefix, row, date, out@[p].0@);
                        let w = choose|w: int|
                            0 <= w < prefix.len() && in_day_window(
                                (#[trigger] prefix[w]).created_at,
                                date,
                            ) && prefix[w].food_name@ == out@[p].0@;
                        assert(prefix.push(row)[w] == prefix[w]);
                    }
                    assert forall|food: Seq<char>| #[trigger] food_on(
                        prefix.push(row),
                        date,
                        food,
                    ) implies exists|p: int|
                        0 <= p < out@.len() && (#[trigger] out@[p]).0@ == food by {
                        let w = choose|w: int|
                            0 <= w < prefix.push(row).len() && in_day_window(
                                (#[trigger] prefix.push(row)[w]).created_at,
                                date,
                            ) && prefix.push(row)[w].food_name@ == food;
                        assert(prefix[w] == prefix.push(row)[w]);
                        assert(food_on(prefix, date, food));
                    }
                }
            }
            i += 1;
        }
        proof {
            assert(self.rates@.take(n as int) =~= self.rates@);
        }
        out
    }
}

/// The mean of the total-rate levels submitted on one day, as an exact
/// fraction. With no rows there is no average: the operations hand out an
/// explicit `None` instead.
pub struct DailyAverage {
    /// Sum of the levels in the window.
    pub sum: u128,
    /// Number of rows in the window; never zero.
    pub count: u64,
}

/// Index of the first total-rate row of this user in the day window, if any.
fn find_first_total(rows: &Vec<TotalRateRow>, user_id: u64, date: i64) -> (r: Option<usize>)
    requires
        date_in_range(date),
    ensures
        match r {
            Some(k) => first_total_on(rows@, user_id, date) == k && k < rows@.len(),
            None => first_total_on(rows@, user_id, date) < 0,
        },
{
    let (start, end) = crate::clock::day_window(date);
    let n = rows.len();
    let mut k: usize = 0;
    while k < n
        invariant
            n == rows@.len(),
            0 <= k <= n,
            start == date * 86400,
            end == date * 86400 + 86400,
            forall|j: int|
                0 <= j < k ==> !(in_day_window((#[trigger] rows@[j]).created_at, date)
                    && rows@[j].user_id == user_id),
        decreases n - k,
    {
        if start <= rows[k].created_at && rows[k].created_at < end && rows[k].user_id == user_id {
            proof {
                lemma_first_total_props(rows@, user_id, date);
            }
            return Some(k);
        }
        k += 1;
    }
    proof {
        lemma_first_total_props(rows@, user_id, date);
    }
    None
}

/// What a rating submission leaves behind: the authenticated user's per-food
/// rows and one total-rate row, inserted as one atomic unit and stamped
/// `now_ts`, with ids drawn from the tables' counters — or nothing, with the
/// error saying why: `NoSuchSession` for a failed authentication,
/// `DateChanged` whenever `send_date` differs from `today`, `StoreError` for
/// an exhausted id space.
pub open spec fn submit_post(
    pre: Store,
    post: Store,
    r: Result<(), Error>,
    session_id: Seq<char>,
    reqs: Seq<RateReq>,
    total_rate: u8,
    send_date: i64,
    today: i64,
    now_ts: i64,
) -> bool {
    &&& post.users@ == pre.users@
    &&& post.applications@ == pre.applications@
    &&& post.meals@ == pre.meals@
    &&& post.next_application_id == pre.next_application_id
    &&& ({
        let users0 = pre.users@;
        let ai = idx_by_session(users0, session_id);
        match r {
            Ok(u) => {
                &&& session_id.len() > 0
                &&& ai >= 0
                &&& send_date == today
                &&& post.rates@ == pre.rates@ + submitted_rows(
                    reqs,
                    users0[ai].id,
                    pre.next_rate_id,
                    now_ts,
                )
                &&& post.total_rates@ == pre.total_rates@.push(
                    TotalRateRow {
                        id: pre.next_total_rate_id,
                        user_id: users0[ai].id,
                        rate_level: total_rate,
                        created_at: now_ts,
                    },
                )
            },
            Err(e) => {
                &&& post.rates@ == pre.rates@
                &&& post.total_rates@ == pre.total_rates@
                &&& post.next_rate_id == pre.next_rate_id
                &&& post.next_total_rate_id == pre.next_total_rate_id
                &&& match e {
                    Error::NoSuchSession => session_id.len() == 0 || ai < 0,
                    Error::DateChanged => ai >= 0 && send_date != today,
                    Error::StoreError => {
                        &&& ai >= 0
                        &&& send_date == today
                        &&& (pre.next_rate_id as int + reqs.len() > u64::MAX as int
                            || pre.next_total_rate_id == u64::MAX)
                    },
                    _ => false,
                }
            },
        }
    })
}

/// The new rating rows one submission inserts: one per requested food rating,
/// with consecutive fresh ids, all stamped with the submission time.
pub open spec fn submitted_rows(reqs: Seq<RateReq>, user_id: u64, first_id: u64, ts: i64) -> Seq<
    RateRow,
> {
    Seq::new(
        reqs.len(),
        |k: int|
            RateRow {
                id: (first_id + k) as u64,
                user_id,
                food_name: reqs[k].food_name,
                rate_level: reqs[k].level,
                created_at: ts,
            },
    )
}

/// What a per-user ratings query returns: the target user's listed ratings
/// on the date when the actor authenticates and may view the target —
/// `Unprivileged` exactly when a non-teacher actor queries someone else.
pub open spec fn user_rates_post(
    s: Store,
    r: Result<Vec<Rate>, Error>,
    session_id: Seq<char>,
    username: Seq<char>,
    date: i64,
) -> bool {
    let users0 = s.users@;
    let ai = idx_by_session(users0, session_id);
    let ti = idx_by_username(users0, username);
    match r {
        Ok(v) => {
            &&& session_id.len() > 0
            &&& ai >= 0
            &&& ti >= 0
            &&& can_view_spec(users0[ai], users0[ti])
            &&& v@ == rates_listed(s.rates@, users0, date, None, Some(users0[ti].id))
        },
        Err(e) => match e {
            Error::NoSuchSession => session_id.len() == 0 || ai < 0,
            Error::NotFound => ai >= 0 && ti < 0,
            Error::Unprivileged => ai >= 0 && ti >= 0 && !can_view_spec(users0[ai], users0[ti]),
            _ => false,
        },
    }
}

impl Store {
    /// The arithmetic mean of the day's overall satisfaction scores, as an
    /// exact fraction, or `None` when the day has no rows: the undefined
    /// zero-row average is reported explicitly, never as a made-up number.
    pub fn daily_average_on(&self, date: i64) -> (r: Option<DailyAverage>)
        requires
            self.wf(),
            date_in_range(date),
        ensures
            is_daily_average(self.total_rates@, date, r),
    {
        let (start, end) = crate::clock::day_window(date);
        let n = self.total_rates.len();
        let mut sum: u128 = 0;
        let mut count: u64 = 0;
        let mut i: usize = 0;
        proof {
            assert(self.total_rates@.take(0) =~= Seq::<TotalRateRow>::empty());
        }
        while i < n
            invariant
                self.wf(),
                date_in_range(date),
                start == date * 86400,
                end == date * 86400 + 86400,
                n == self.total_rates@.len(),
                0 <= i <= n,
                count as int == total_count_on(self.total_rates@.take(i as int), date),
                sum as int == total_sum_on(self.total_rates@.take(i as int), date),
            decreases n - i,
        {
            let ghost prefix = self.total_rates@.take(i as int);
            let ghost row = self.total_rates@[i as int];
            proof {
                assert(self.total_rates@.take(i as int + 1) =~= prefix.push(row));
                assert forall|j: int| 0 <= j < prefix.len() implies (#[trigger] prefix[j]).rate_level
                    <= 10 by {
                    assert(prefix[j] == self.total_rates@[j]);
                }
                lemma_total_bounds(prefix, date);
                lemma_total_push(prefix, row, date);
            }
            let created = self.total_rates[i].created_at;
            if start <= created && created < end {
                sum = sum + (self.total_rates[i].rate_level as u128);
                count = count + 1;
            }
            i += 1;
        }
        proof {
            assert(self.total_rates@.take(n as int) =~= self.total_rates@);
        }
        if count == 0 {
            None
        } else {
            Some(DailyAverage { sum, count })
        }
    }

    /// The ratings stored in the day window of `date`, joined to usernames,
    /// in store order, optionally narrowed to one food and to one user.
    pub fn rates_on(&self, date: i64, food: Option<&String>, user: Option<u64>) -> (r: Vec<Rate>)
        requires
            self.wf(),
            date_in_range(date),
        ensures
            r@ == rates_listed(self.rates@, self.users@, date, opt_str_view(food), user),
    {
        let (start, end) = crate::clock::day_window(date);
        let ghost fv = opt_str_view(food);
        let mut out: Vec<Rate> = Vec::new();
        let n = self.rates.len();
        let mut i: usize = 0;
        proof {
            assert(self.rates@.take(0) =~= Seq::<RateRow>::empty());
            assert(out@ =~= rates_listed(self.rates@.take(0), self.users@, date, fv, user));
        }
        while i < n
            invariant
                self.wf(),
                date_in_range(date),
                start == date * 86400,
                end == date * 86400 + 86400,
                n == self.rates@.len(),
                0 <= i <= n,
                fv == opt_str_view(food),
                out@ == rates_listed(self.rates@.take(i as int), self.users@, date, fv, user),
            decreases n - i,
        {
            let ghost prefix = self.rates@.take(i as int);
            let ghost row = self.rates@[i as int];
            proof {
                assert(self.rates@.take(i as int + 1) =~= prefix.push(row));
                lemma_rates_listed_push(prefix, row, self.users@, date, fv, user);
            }
            let created = self.rates[i].created_at;
            let in_win = start <= created && created < end;
            let food_ok = match food {
                Some(f) => self.rates[i].food_name == *f,
                None => true,
            };
            let user_ok = match user {
                Some(uid) => self.rates[i].user_id == uid,
                None => true,
            };
            if in_win && food_ok && user_ok {
                proof {
                    assert(user_id_exists(self.users@, self.rates@[i as int].user_id));
                    lemma_idx_by_id_props(self.users@, self.rates@[i as int].user_id);
                }
                let uidx = match find_by_id(&self.users, self.rates[i].user_id) {
                    Some(k) => k,
                    None => {
                        proof {
                            assert(false);
                        }
                        0
                    },
                };
                let joined = Rate {
                    username: self.users[uidx].username.clone(),
                    food_name: self.rates[i].food_name.clone(),
                    rate_level: self.rates[i].rate_level,
                    created_at: self.rates[i].created_at,
                };
                proof {
                    assert(joined == joined_rate(row, self.users@));
                }
                out.push(joined);
            }
            i += 1;
        }
        proof {
            assert(self.rates@.take(n as int) =~= self.rates@);
        }
        out
    }

    /// One user's ratings on a date, fetched on behalf of an authenticated
    /// actor; refused with `Unprivileged` unless the actor is a teacher or is
    /// the target.
    pub fn ratings_for_user_on(&self, session_id: &String, username: &String, date: i64) -> (r:
        Result<Vec<Rate>, Error>)
        requires
            self.wf(),
            date_in_range(date),
        ensures
            user_rates_post(*self, r, session_id@, username@, date),
    {
        let actor = match self.by_session_id(session_id) {
            Ok(u) => u,
            Err(e) => {
                return Err(e);
            },
        };
        let target = match self.by_username(username) {
            Ok(u) => u,
            Err(e) => {
                return Err(e);
            },
        };
        if can_view(&actor, &target) {
            Ok(self.rates_on(date, None, Some(target.id)))
        } else {
            Err(Error::Unprivileged)
        }
    }

    /// One user's overall satisfaction score on a date: the first stored row
    /// in the window, behind the same privilege gate as the ratings.
    /// `NotFound` reports a missing target and a day without a row alike.
    pub fn total_rate_for_user_on(&self, session_id: &String, username: &String, date: i64) -> (r:
        Result<u8, Error>)
        requires
            self.wf(),
            date_in_range(date),
        ensures
            ({
                let users0 = self.users@;
                let ai = idx_by_session(users0, session_id@);
                let ti = idx_by_username(users0, username@);
                match r {
                    Ok(v) => {
                        &&& session_id@.len() > 0
                        &&& ai >= 0
                        &&& ti >= 0
                        &&& can_view_spec(users0[ai], users0[ti])
                        &&& first_total_on(self.total_rates@, users0[ti].id, date) >= 0
                        &&& v == self.total_rates@[first_total_on(
                            self.total_rates@,
                            users0[ti].id,
                            date,
                        )].rate_level
                    },
                    Err(e) => match e {
                        Error::NoSuchSession => session_id@.len() == 0 || ai < 0,
                        Error::NotFound => ai >= 0 && (ti < 0 || (can_view_spec(
                            users0[ai],
                            users0[ti],
                        ) && first_total_on(self.total_rates@, users0[ti].id, date) < 0)),
                        Error::Unprivileged => ai >= 0 && ti >= 0 && !can_view_spec(
                            users0[ai],
                            users0[ti],
                        ),
                        _ => false,
                    },
                }
            }),
    {
        let actor = match self.by_session_id(session_id) {
            Ok(u) => u,
            Err(e) => {
                return Err(e);
            },
        };
        let target = match self.by_username(username) {
            Ok(u) => u,
            Err(e) => {
                return Err(e);
            },
        };
        if !can_view(&actor, &target) {
            return Err(Error::Unprivileged);
        }
        match find_first_total(&self.total_rates, target.id, date) {
            Some(k) => Ok(self.total_rates[k].rate_level),
            None => Err(Error::NotFound),
        }
    }

    /// One submission: the authenticated user's per-food ratings and one
    /// overall satisfaction score, all stamped `now_ts`, inserted as one
    /// atomic unit. Refused with `DateChanged` unless the caller-supplied
    /// `send_date` equals the current date `today`; refused with `StoreError`
    /// when a table's id space is exhausted, with nothing written.
    pub fn submit_rating_on(
        &mut self,
        session_id: &String,
        reqs: &Vec<RateReq>,
        total_rate: u8,
        send_date: i64,
        today: i64,
        now_ts: i64,
    ) -> (r: Result<(), Error>)
        requires
            old(self).wf(),
            total_rate <= 10,
        ensures
            final(self).wf(),
            submit_post(
                *old(self),
                *final(self),
                r,
                session_id@,
                reqs@,
                total_rate,
                send_date,
                today,
                now_ts,
            ),
    {
        let actor = match self.by_session_id(session_id) {
            Ok(u) => u,
            Err(e) => {
                return Err(e);
            },
        };
        if send_date != today {
            return Err(Error::DateChanged);
        }
        let nreq = reqs.len();
        if self.next_rate_id > u64::MAX - (nreq as u64) || self.next_total_rate_id == u64::MAX {
            return Err(Error::StoreError);
        }
        let uid = actor.id;
        let ghost users0 = self.users@;
        let ghost rates0 = self.rates@;
        let ghost next0 = self.next_rate_id;
        proof {
            assert(user_id_exists(users0, uid)) by {
                lemma_idx_by_session_props(users0, session_id@);
                let ai = idx_by_session(users0, session_id@);
                assert(0 <= ai < users0.len());
                assert(users0[ai].id == uid);
            }
            assert(rates0.take(0) =~= Seq::<RateRow>::empty());
            assert(self.rates@ =~= rates0 + submitted_rows(reqs@.take(0), uid, next0, now_ts));
        }
        let mut k: usize = 0;
        while k < nreq
            invariant
                nreq == reqs@.len(),
                0 <= k <= nreq,
                next0 as int + nreq as int <= u64::MAX as int,
                self.next_rate_id as int == next0 as int + k as int,
                self.rates@ == rates0 + submitted_rows(reqs@.take(k as int), uid, next0, now_ts),
                self.users@ == old(self).users@,
                self.total_rates@ == old(self).total_rates@,
                self.applications@ == old(self).applications@,
                self.meals@ == old(self).meals@,
                self.next_total_rate_id == old(self).next_total_rate_id,
                self.next_application_id == old(self).next_application_id,
                user_id_exists(self.users@, uid),
                self.wf(),
            decreases nreq - k,
        {
            let row = RateRow {
                id: self.next_rate_id,
                user_id: uid,
                food_name: reqs[k].food_name.clone(),
                rate_level: reqs[k].level,
                created_at: now_ts,
            };
            let ghost rates_before = self.rates@;
            self.rates.push(row);
            self.next_rate_id = self.next_rate_id + 1;
            proof {
                assert(reqs@.take(k as int + 1) =~= reqs@.take(k as int).push(reqs@[k as int]));
                assert(submitted_rows(reqs@.take(k as int + 1), uid, next0, now_ts)
                    =~= submitted_rows(reqs@.take(k as int), uid, next0, now_ts).push(row));
                assert(self.rates@ =~= rates0 + submitted_rows(
                    reqs@.take(k as int + 1),
                    uid,
                    next0,
                    now_ts,
                ));
                assert forall|p: int| 0 <= p < self.rates@.len() implies user_id_exists(
                    self.users@,
                    (#[trigger] self.rates@[p]).user_id,
                ) && self.rates@[p].id < self.next_rate_id by {
                    if p < rates_before.len() {
                        assert(self.rates@[p] == rates_before[p]);
                    }
                }
                assert forall|p: int, q: int| 0 <= p < q < self.rates@.len() implies (
                #[trigger] self.rates@[p]).id != (#[trigger] self.rates@[q]).id by {
                    if q < rates_before.len() {
                        assert(self.rates@[p] == rates_before[p]);
                        assert(self.rates@[q] == rates_before[q]);
                    } else {
                        assert(self.rates@[q] == row);
                        assert(self.rates@[p] == rates_before[p]);
                        assert(rates_before[p].id < row.id);
                    }
                }
            }
            k += 1;
        }
        let trow = TotalRateRow {
            id: self.next_total_rate_id,
            user_id: uid,
            rate_level: total_rate,
            created_at: now_ts,
        };
        let ghost totals_before = self.total_rates@;
        self.total_rates.push(trow);
        self.next_total_rate_id = self.next_total_rate_id + 1;
        proof {
            assert(reqs@.take(nreq as int) =~= reqs@);
            assert forall|p: int| 0 <= p < self.total_rates@.len() implies user_id_exists(
                self.users@,
                (#[trigger] self.total_rates@[p]).user_id,
            ) && self.total_rates@[p].id < self.next_total_rate_id
                && self.total_rates@[p].rate_level <= 10 by {
                if p < totals_before.len() {
                    assert(self.total_rates@[p] == totals_before[p]);
                }
            }
            assert forall|p: int, q: int| 0 <= p < q < self.total_rates@.len() implies (
            #[trigger] self.total_rates@[p]).id != (#[trigger] self.total_rates@[q]).id by {
                if q < totals_before.len() {
                    assert(self.total_rates@[p] == totals_before[p]);
                    assert(self.total_rates@[q] == totals_before[q]);
                } else {
                    assert(self.total_rates@[q] == trow);
                    assert(self.total_rates@[p] == totals_before[p]);
                    assert(totals_before[p].id < trow.id);
                }
            }
        }
        Ok(())
    }
}

} // verus!
