use meal_rating::error::Error;
use meal_rating::rating::{RateLevel, RateReq};
use meal_rating::store::Store;

fn school() -> Store {
    let mut store = Store::new();
    assert!(store.add_user(1, "alice".to_string(), "Alice".to_string(), false, false, 100));
    assert!(store.add_user(2, "bob".to_string(), "Bob".to_string(), false, true, 200));
    store
}

#[test]
fn scenario_student_submits_and_day_is_ranked() {
    let mut store = school();
    let today = 19345;
    let ts = today * 86400 + 12 * 3600;

    // alice (not a teacher) logs in
    let s1 = store.login(&"alice".to_string()).expect("alice logs in");

    // she submits two food ratings and an overall 7 with today's date
    let reqs = vec![
        RateReq { food_name: "rice".to_string(), level: RateLevel::Good },
        RateReq { food_name: "soup".to_string(), level: RateLevel::Bad },
    ];
    store.submit_rating_on(&s1, &reqs, 7, today, today, ts).expect("submission accepted");

    // both Rate rows and one TotalRate row are persisted for alice, dated today
    let sid_bob = store.login(&"bob".to_string()).unwrap();
    let rows = store.ratings_for_user_on(&sid_bob, &"alice".to_string(), today).unwrap();
    assert_eq!(rows.len(), 2);
    assert!(rows.iter().all(|r| r.username == "alice"));
    assert!(rows.iter().all(|r| today * 86400 <= r.created_at && r.created_at < (today + 1) * 86400));
    let total = store.total_rate_for_user_on(&sid_bob, &"alice".to_string(), today).unwrap();
    assert_eq!(total, 7);

    // the ranking under the Good=2 / Bad=-1 numbering
    let mut rank = store.rank_for_day(today);
    rank.sort();
    assert_eq!(rank, vec![("rice".to_string(), 2), ("soup".to_string(), -1)]);
}

#[test]
fn scenario_teacher_lists_todays_applicants() {
    let mut store = school();
    let today = 19345;

    // alice applies today through her own session
    let s1 = store.login(&"alice".to_string()).unwrap();
    store.apply_on(&s1, today, today, today * 86400 + 300).expect("application accepted");

    // teacher bob logs in and sees the roster, alice's entry included
    let s2 = store.login(&"bob".to_string()).expect("bob logs in");
    let apps = store.list_applications_on(&s2, today).unwrap();
    assert_eq!(apps.len(), 1);
    assert_eq!(apps[0].username, "alice");

    // a student asking for the roster is refused
    assert!(matches!(store.list_applications_on(&s1, today), Err(Error::Unprivileged)));
}

#[test]
fn scenario_second_login_while_session_active() {
    let mut store = school();
    let s1 = store.login(&"alice".to_string()).expect("first login succeeds");
    match store.login(&"alice".to_string()) {
        Err(Error::AlreadyLoggedIn(existing)) => assert_eq!(existing, s1),
        _ => panic!("second login must fail with AlreadyLoggedIn carrying the active id"),
    }
    // the active session still works
    assert_eq!(store.by_session_id(&s1).unwrap().username, "alice");
}
