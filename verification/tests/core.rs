use meal_rating::api;
use meal_rating::api::{
    ApplyParam, GetApplicationParam, GetRatesParam, GetUserRatesParam, HasAppliedParam, LoginParam,
    LogoutParam, RankParam, RateParam, UserParam,
};
use meal_rating::auth::can_view;
use meal_rating::clock::{current_time, day_window};
use meal_rating::error::Error;
use meal_rating::rating::{RateLevel, RateReq};
use meal_rating::store::Store;

fn seeded_store() -> Store {
    let mut store = Store::new();
    assert!(store.add_user(1, "alice".to_string(), "Alice".to_string(), false, false, 100));
    assert!(store.add_user(2, "bob".to_string(), "Bob".to_string(), false, true, 200));
    assert!(store.add_user(3, "carol".to_string(), "Carol".to_string(), true, false, 300));
    store
}

fn is_lower_hex(s: &str) -> bool {
    s.chars().all(|c| ('0'..='9').contains(&c) || ('a'..='f').contains(&c))
}

#[test]
fn login_issues_32_char_lower_hex_session() {
    let mut store = seeded_store();
    let sid = store.login(&"alice".to_string()).expect("login should succeed");
    assert_eq!(sid.len(), 32);
    assert!(is_lower_hex(&sid));
}

#[test]
fn login_unknown_user_not_found() {
    let mut store = seeded_store();
    let r = store.login(&"mallory".to_string());
    assert!(matches!(r, Err(Error::NotFound)));
}

#[test]
fn relogin_fails_with_already_logged_in() {
    let mut store = seeded_store();
    let sid = store.login(&"alice".to_string()).unwrap();
    match store.login(&"alice".to_string()) {
        Err(Error::AlreadyLoggedIn(existing)) => assert_eq!(existing, sid),
        other => panic!("expected AlreadyLoggedIn, got {:?}", other.map(|_| ()).is_ok()),
    }
}

#[test]
fn logout_then_login_succeeds_with_fresh_session() {
    let mut store = seeded_store();
    let sid1 = store.login(&"alice".to_string()).unwrap();
    let name = store.logout(&sid1).expect("logout should succeed");
    assert_eq!(name, "alice");
    let sid2 = store.login(&"alice".to_string()).expect("second login should succeed");
    assert_eq!(sid2.len(), 32);
    assert_ne!(sid1, sid2);
}

#[test]
fn logout_unknown_session_fails() {
    let mut store = seeded_store();
    assert!(matches!(store.logout(&"feedfacefeedfacefeedfacefeedface".to_string()), Err(Error::NoSuchSession)));
    assert!(matches!(store.logout(&String::new()), Err(Error::NoSuchSession)));
}

#[test]
fn logout_twice_second_fails_lookup() {
    let mut store = seeded_store();
    let sid = store.login(&"alice".to_string()).unwrap();
    assert!(store.logout(&sid).is_ok());
    assert!(matches!(store.logout(&sid), Err(Error::NoSuchSession)));
}

#[test]
fn logout_user_is_idempotent() {
    let mut store = seeded_store();
    let _sid = store.login(&"alice".to_string()).unwrap();
    assert!(store.logout_user(1).is_ok());
    assert!(store.logout_user(1).is_ok());
    assert!(matches!(store.logout_user(42), Err(Error::NotFound)));
    assert!(store.login(&"alice".to_string()).is_ok());
}

#[test]
fn get_new_session_replaces_the_old_one() {
    let mut store = seeded_store();
    let sid1 = store.login(&"alice".to_string()).unwrap();
    let sid2 = store.get_new_session(1).expect("reissue succeeds");
    assert_eq!(sid2.len(), 32);
    assert_ne!(sid1, sid2);
    assert!(matches!(store.by_session_id(&sid1), Err(Error::NoSuchSession)));
    assert_eq!(store.by_session_id(&sid2).unwrap().username, "alice");
    assert!(matches!(store.get_new_session(77), Err(Error::NotFound)));
}

#[test]
fn lookups_by_username_id_session() {
    let mut store = seeded_store();
    let u = store.by_username(&"bob".to_string()).unwrap();
    assert_eq!(u.id, 2);
    assert!(u.is_teacher);
    let u = store.by_id(3).unwrap();
    assert_eq!(u.username, "carol");
    assert!(u.auto_apply);
    assert!(matches!(store.by_username(&"mallory".to_string()), Err(Error::NotFound)));
    assert!(matches!(store.by_id(99), Err(Error::NotFound)));
    assert!(matches!(store.by_session_id(&String::new()), Err(Error::NoSuchSession)));
    let sid = store.login(&"alice".to_string()).unwrap();
    let u = store.by_session_id(&sid).unwrap();
    assert_eq!(u.id, 1);
}

#[test]
fn add_user_refuses_duplicates() {
    let mut store = seeded_store();
    assert!(!store.add_user(1, "dave".to_string(), "Dave".to_string(), false, false, 0));
    assert!(!store.add_user(9, "alice".to_string(), "Alias".to_string(), false, false, 0));
    assert!(store.add_user(9, "dave".to_string(), "Dave".to_string(), false, false, 0));
}

#[test]
fn update_session_unique_constraint_store_error() {
    let mut store = seeded_store();
    let sid = store.login(&"alice".to_string()).unwrap();
    let r = store.update_session(2, sid.clone());
    assert!(matches!(r, Err(Error::StoreError)));
    // the holder itself may rewrite its own identifier
    assert!(store.update_session(1, sid).is_ok());
}

#[test]
fn can_view_rules() {
    let store = seeded_store();
    let alice = store.by_username(&"alice".to_string()).unwrap();
    let bob = store.by_username(&"bob".to_string()).unwrap();
    let carol = store.by_username(&"carol".to_string()).unwrap();
    assert!(can_view(&bob, &alice)); // teacher sees anyone
    assert!(can_view(&alice, &alice)); // anyone sees themselves
    assert!(!can_view(&alice, &carol)); // a student does not see another
}

#[test]
fn day_window_is_half_open() {
    assert_eq!(day_window(0), (0, 86400));
    assert_eq!(day_window(19000), (19000 * 86400, 19001 * 86400));
    assert_eq!(day_window(-1), (-86400, 0));
}

#[test]
fn current_time_lies_in_its_day_window() {
    let (d, ts) = current_time();
    assert!(d > 700_000); // a real local date, well past year one
    assert!(d * 86400 <= ts && ts < (d + 1) * 86400);
}

#[test]
fn rate_level_scores() {
    assert_eq!(RateLevel::Bad.score(), -1);
    assert_eq!(RateLevel::Soso.score(), 1);
    assert_eq!(RateLevel::Good.score(), 2);
    assert!(matches!(RateLevel::from_score(-1), Some(RateLevel::Bad)));
    assert!(matches!(RateLevel::from_score(1), Some(RateLevel::Soso)));
    assert!(matches!(RateLevel::from_score(2), Some(RateLevel::Good)));
    assert!(RateLevel::from_score(0).is_none());
    assert!(RateLevel::from_score(3).is_none());
}

#[test]
fn error_tag_names() {
    assert_eq!(Error::NotFound.tag_name(), "NotFound");
    assert_eq!(Error::NoSuchSession.tag_name(), "NoSuchSession");
    assert_eq!(Error::AlreadyLoggedIn("x".to_string()).tag_name(), "AlreadyLoggedIn");
    assert_eq!(Error::Unprivileged.tag_name(), "Unprivileged");
    assert_eq!(Error::DateChanged.tag_name(), "DateChanged");
    assert_eq!(Error::StoreError.tag_name(), "StoreError");
    assert!(Error::DateChanged.is_client_error());
    assert!(!Error::StoreError.is_client_error());
}

#[test]
fn submit_rejects_changed_date() {
    let mut store = seeded_store();
    let sid = store.login(&"alice".to_string()).unwrap();
    let today = 19000;
    let reqs = vec![RateReq { food_name: "rice".to_string(), level: RateLevel::Good }];
    let r = store.submit_rating_on(&sid, &reqs, 5, 18999, today, today * 86400 + 100);
    assert!(matches!(r, Err(Error::DateChanged)));
    let r = store.submit_rating_on(&sid, &reqs, 5, 19001, today, today * 86400 + 100);
    assert!(matches!(r, Err(Error::DateChanged)));
    // nothing was written
    assert!(store.rank_for_day(today).is_empty());
    assert!(store.daily_average_on(today).is_none());
}

#[test]
fn apply_rejects_changed_date_whatever_the_time() {
    let mut store = seeded_store();
    let sid = store.login(&"alice".to_string()).unwrap();
    let today = 19000;
    for ts in [today * 86400, today * 86400 + 43200, (today + 1) * 86400 - 1] {
        let r = store.apply_on(&sid, today - 1, today, ts);
        assert!(matches!(r, Err(Error::DateChanged)));
        let r = store.apply_on(&sid, today + 1, today, ts);
        assert!(matches!(r, Err(Error::DateChanged)));
    }
    let r = store.apply_on(&sid, today, today, today * 86400 + 1);
    assert!(r.is_ok());
}

#[test]
fn submit_requires_session() {
    let mut store = seeded_store();
    let reqs = vec![RateReq { food_name: "rice".to_string(), level: RateLevel::Good }];
    let r = store.submit_rating_on(
        &"feedfacefeedfacefeedfacefeedface".to_string(),
        &reqs,
        5,
        19000,
        19000,
        19000 * 86400,
    );
    assert!(matches!(r, Err(Error::NoSuchSession)));
}

#[test]
fn daily_average_with_no_rows_is_none() {
    let store = seeded_store();
    assert!(store.daily_average_on(19000).is_none());
}

#[test]
fn daily_average_exact_fraction() {
    let mut store = seeded_store();
    let sid = store.login(&"alice".to_string()).unwrap();
    let today = 19000;
    let ts = today * 86400 + 60;
    store.submit_rating_on(&sid, &vec![], 7, today, today, ts).unwrap();
    store.submit_rating_on(&sid, &vec![], 9, today, today, ts + 1).unwrap();
    let avg = store.daily_average_on(today).expect("two rows give an average");
    assert_eq!(avg.sum, 16);
    assert_eq!(avg.count, 2);
    // rows on another day do not count
    assert!(store.daily_average_on(today + 1).is_none());
}

#[test]
fn ratings_for_other_user_unprivileged() {
    let mut store = seeded_store();
    let sid_alice = store.login(&"alice".to_string()).unwrap();
    let r = store.ratings_for_user_on(&sid_alice, &"carol".to_string(), 19000);
    assert!(matches!(r, Err(Error::Unprivileged)));
    let r = store.total_rate_for_user_on(&sid_alice, &"carol".to_string(), 19000);
    assert!(matches!(r, Err(Error::Unprivileged)));
}

#[test]
fn teacher_reads_any_user_ratings() {
    let mut store = seeded_store();
    let sid_alice = store.login(&"alice".to_string()).unwrap();
    let today = 19000;
    let ts = today * 86400 + 30;
    let reqs = vec![RateReq { food_name: "rice".to_string(), level: RateLevel::Soso }];
    store.submit_rating_on(&sid_alice, &reqs, 4, today, today, ts).unwrap();
    let sid_bob = store.login(&"bob".to_string()).unwrap();
    let rates = store.ratings_for_user_on(&sid_bob, &"alice".to_string(), today).unwrap();
    assert_eq!(rates.len(), 1);
    assert_eq!(rates[0].username, "alice");
    assert_eq!(rates[0].food_name, "rice");
    assert_eq!(rates[0].rate_level.score(), 1);
    let total = store.total_rate_for_user_on(&sid_bob, &"alice".to_string(), today).unwrap();
    assert_eq!(total, 4);
    // no row on another day
    let r = store.total_rate_for_user_on(&sid_bob, &"alice".to_string(), today + 1);
    assert!(matches!(r, Err(Error::NotFound)));
}

#[test]
fn rates_on_filters_by_food_and_user() {
    let mut store = seeded_store();
    let sid_a = store.login(&"alice".to_string()).unwrap();
    let sid_c = store.login(&"carol".to_string()).unwrap();
    let today = 19000;
    let ts = today * 86400 + 10;
    store
        .submit_rating_on(
            &sid_a,
            &vec![
                RateReq { food_name: "rice".to_string(), level: RateLevel::Good },
                RateReq { food_name: "soup".to_string(), level: RateLevel::Bad },
            ],
            7,
            today,
            today,
            ts,
        )
        .unwrap();
    store
        .submit_rating_on(
            &sid_c,
            &vec![RateReq { food_name: "rice".to_string(), level: RateLevel::Bad }],
            3,
            today,
            today,
            ts + 5,
        )
        .unwrap();
    let all = store.rates_on(today, None, None);
    assert_eq!(all.len(), 3);
    let rice = store.rates_on(today, Some(&"rice".to_string()), None);
    assert_eq!(rice.len(), 2);
    assert!(rice.iter().all(|r| r.food_name == "rice"));
    let alices = store.rates_on(today, None, Some(1));
    assert_eq!(alices.len(), 2);
    assert!(alices.iter().all(|r| r.username == "alice"));
    let none_tomorrow = store.rates_on(today + 1, None, None);
    assert!(none_tomorrow.is_empty());
}

#[test]
fn rank_is_order_independent() {
    let today = 19000;
    let ts = today * 86400 + 10;
    let menu = [
        ("rice", RateLevel::Good),
        ("soup", RateLevel::Bad),
        ("rice", RateLevel::Bad),
        ("stew", RateLevel::Soso),
    ];
    let build = |order: &[usize]| -> Vec<(String, i128)> {
        let mut store = seeded_store();
        let sid = store.login(&"alice".to_string()).unwrap();
        for &i in order {
            let (food, level) = &menu[i];
            store
                .submit_rating_on(
                    &sid,
                    &vec![RateReq { food_name: food.to_string(), level: *level }],
                    5,
                    today,
                    today,
                    ts,
                )
                .unwrap();
        }
        let mut rank = store.rank_for_day(today);
        rank.sort();
        rank
    };
    let a = build(&[0, 1, 2, 3]);
    let b = build(&[3, 2, 1, 0]);
    let c = build(&[2, 0, 3, 1]);
    assert_eq!(a, b);
    assert_eq!(a, c);
    assert_eq!(a, vec![
        ("rice".to_string(), 1),
        ("soup".to_string(), -1),
        ("stew".to_string(), 1),
    ]);
}

#[test]
fn has_applied_tracks_the_day() {
    let mut store = seeded_store();
    let sid = store.login(&"alice".to_string()).unwrap();
    let today = 19000;
    assert_eq!(store.has_applied_on(&sid, today).unwrap(), false);
    store.apply_on(&sid, today, today, today * 86400 + 7).unwrap();
    assert_eq!(store.has_applied_on(&sid, today).unwrap(), true);
    assert_eq!(store.has_applied_on(&sid, today + 1).unwrap(), false);
}

#[test]
fn applications_list_is_teacher_only() {
    let mut store = seeded_store();
    let sid_alice = store.login(&"alice".to_string()).unwrap();
    let today = 19000;
    store.apply_on(&sid_alice, today, today, today * 86400 + 7).unwrap();
    assert!(matches!(
        store.list_applications_on(&sid_alice, today),
        Err(Error::Unprivileged)
    ));
    let sid_bob = store.login(&"bob".to_string()).unwrap();
    let apps = store.list_applications_on(&sid_bob, today).unwrap();
    assert_eq!(apps.len(), 1);
    assert_eq!(apps[0].username, "alice");
    assert_eq!(apps[0].created_at, today * 86400 + 7);
    // windowed to the day
    assert!(store.list_applications_on(&sid_bob, today + 1).unwrap().is_empty());
}

#[test]
fn duplicate_applications_are_all_persisted() {
    let mut store = seeded_store();
    let sid = store.login(&"alice".to_string()).unwrap();
    let today = 19000;
    store.apply_on(&sid, today, today, today * 86400 + 1).unwrap();
    store.apply_on(&sid, today, today, today * 86400 + 2).unwrap();
    let sid_bob = store.login(&"bob".to_string()).unwrap();
    assert_eq!(store.list_applications_on(&sid_bob, today).unwrap().len(), 2);
}

#[test]
fn api_get_user_rules() {
    let mut store = seeded_store();
    let sid_alice = store.login(&"alice".to_string()).unwrap();
    let info = api::get_user(
        &store,
        &UserParam { session_id: sid_alice.clone(), username: "alice".to_string() },
    )
    .unwrap();
    assert_eq!(info.username, "alice");
    assert!(!info.is_teacher);
    let r = api::get_user(
        &store,
        &UserParam { session_id: sid_alice, username: "carol".to_string() },
    );
    assert!(matches!(r, Err(Error::Unprivileged)));
    let sid_bob = store.login(&"bob".to_string()).unwrap();
    let info = api::get_user(
        &store,
        &UserParam { session_id: sid_bob, username: "carol".to_string() },
    )
    .unwrap();
    // the original hands back the authenticated user's own record
    assert_eq!(info.username, "bob");
}

#[test]
fn api_login_logout_round_trip() {
    let mut store = seeded_store();
    let resp = api::login(&mut store, &LoginParam { username: "alice".to_string() }).unwrap();
    assert!(!resp.is_error);
    assert_eq!(resp.session_id.len(), 32);
    let out = api::logout(
        &mut store,
        &LogoutParam { username: "alice".to_string(), session_id: resp.session_id },
    )
    .unwrap();
    assert!(!out.is_error);
    assert_eq!(out.username, "alice");
}

#[test]
fn api_post_rate_and_apply_reject_stale_date() {
    // no real calendar day is negative, so these dates are always stale
    let mut store = seeded_store();
    let sid = store.login(&"alice".to_string()).unwrap();
    let r = api::post_rate(
        &mut store,
        &RateParam {
            session_id: sid.clone(),
            rates: vec![RateReq { food_name: "rice".to_string(), level: RateLevel::Good }],
            total_rate: 7,
            send_date: -5,
        },
    );
    assert!(matches!(r, Err(Error::DateChanged)));
    let r = api::apply(
        &mut store,
        &ApplyParam { session_id: sid, apply: true, send_date: -5 },
    );
    assert!(matches!(r, Err(Error::DateChanged)));
}

#[test]
fn api_today_flow() {
    let mut store = seeded_store();
    let sid = store.login(&"alice".to_string()).unwrap();
    let (d1, _) = current_time();
    let rate = api::post_rate(
        &mut store,
        &RateParam {
            session_id: sid.clone(),
            rates: vec![RateReq { food_name: "rice".to_string(), level: RateLevel::Good }],
            total_rate: 7,
            send_date: d1,
        },
    );
    let apply = api::apply(
        &mut store,
        &ApplyParam { session_id: sid.clone(), apply: true, send_date: d1 },
    );
    let (d2, _) = current_time();
    if d1 == d2 {
        // the calendar day did not flip mid-test
        assert!(rate.is_ok());
        assert!(apply.is_ok());
        let rank = api::rank(&store, &RankParam { session_id: sid.clone() }).unwrap();
        assert_eq!(rank.rank, vec![("rice".to_string(), 2)]);
        let rates = api::get_rates(
            &store,
            &GetRatesParam { session_id: sid.clone(), food_name: None, date: None },
        )
        .unwrap();
        assert_eq!(rates.rates.len(), 1);
        let avg = rates.total_avg_rate.unwrap();
        assert_eq!((avg.sum, avg.count), (7, 1));
        let mine = api::get_user_rate(
            &store,
            &GetUserRatesParam {
                session_id: sid.clone(),
                username: "alice".to_string(),
                date: None,
            },
        )
        .unwrap();
        assert_eq!(mine.total_rate, 7);
        assert_eq!(mine.rates.len(), 1);
        assert_eq!(
            api::has_applied(&store, &HasAppliedParam { session_id: sid }).unwrap().applied,
            true
        );
    }
}

#[test]
fn api_get_applications_requires_teacher() {
    let mut store = seeded_store();
    let sid = store.login(&"alice".to_string()).unwrap();
    let r = api::get_applications(&store, &GetApplicationParam { session_id: sid });
    assert!(matches!(r, Err(Error::Unprivileged)));
    let sid_bob = store.login(&"bob".to_string()).unwrap();
    let resp = api::get_applications(&store, &GetApplicationParam { session_id: sid_bob }).unwrap();
    assert!(resp.applications.is_empty());
}
