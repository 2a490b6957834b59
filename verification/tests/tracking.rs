use georuggine::time::Timestamp;
use georuggine::tracking::{handle_new_track_point, report_fits_counter, Place, TrackSample, MAX_SEC};
use georuggine::user_status::{
    add_user_to_status_map, get_user_info, update_user_seconds, update_user_status, Info, StatusMap,
    UserStatus,
};

fn at(lat: u64, lon: u64, secs: i64) -> TrackSample {
    TrackSample { place: Place { lat: Some(lat), lon: Some(lon) }, at: Timestamp { secs, nanos: 0 } }
}

fn map_with(status: UserStatus, s: u64) -> StatusMap {
    let mut map = StatusMap::new();
    add_user_to_status_map(&mut map, "mario".to_string());
    update_user_status(&mut map, &"mario".to_string(), status);
    update_user_seconds(&mut map, &"mario".to_string(), s);
    map
}

fn info(map: &StatusMap) -> Info {
    get_user_info(map, &"mario".to_string()).unwrap()
}

#[test]
fn first_report_shows_user_moving() {
    let mut map = map_with(UserStatus::Sconnesso, 0);
    let changed = handle_new_track_point(&mut map, &"mario".to_string(), None, at(1, 1, 100)).unwrap();
    assert!(changed);
    assert_eq!(info(&map), Info { status: UserStatus::InMovimento, s: 0 });
}

#[test]
fn disconnected_or_problem_user_recovers_to_moving() {
    for status in [UserStatus::Sconnesso, UserStatus::Problema] {
        let mut map = map_with(status, 55);
        let changed =
            handle_new_track_point(&mut map, &"mario".to_string(), Some(at(1, 1, 0)), at(1, 1, 30)).unwrap();
        assert!(changed);
        assert_eq!(info(&map), Info { status: UserStatus::InMovimento, s: 0 });
    }
}

#[test]
fn moving_user_at_same_place_accumulates_seconds() {
    let mut map = map_with(UserStatus::InMovimento, 60);
    let changed =
        handle_new_track_point(&mut map, &"mario".to_string(), Some(at(1, 1, 0)), at(1, 1, 30)).unwrap();
    assert!(!changed);
    assert_eq!(info(&map), Info { status: UserStatus::InMovimento, s: 90 });
}

#[test]
fn moving_user_still_for_three_minutes_becomes_stopped() {
    let mut map = map_with(UserStatus::InMovimento, MAX_SEC);
    let changed =
        handle_new_track_point(&mut map, &"mario".to_string(), Some(at(1, 1, 0)), at(1, 1, 30)).unwrap();
    assert!(changed);
    assert_eq!(info(&map), Info { status: UserStatus::Fermo, s: MAX_SEC + 30 });
}

#[test]
fn three_minutes_counted_with_this_report_stop_the_user() {
    let mut map = map_with(UserStatus::InMovimento, 170);
    let changed =
        handle_new_track_point(&mut map, &"mario".to_string(), Some(at(1, 1, 0)), at(1, 1, 230)).unwrap();
    assert!(changed);
    assert_eq!(info(&map), Info { status: UserStatus::Fermo, s: 400 });
    // One second short of three minutes: still moving.
    let mut map = map_with(UserStatus::InMovimento, 170);
    handle_new_track_point(&mut map, &"mario".to_string(), Some(at(1, 1, 0)), at(1, 1, 9)).unwrap();
    assert_eq!(info(&map), Info { status: UserStatus::InMovimento, s: 179 });
}

#[test]
fn moving_user_at_new_place_resets_counter() {
    let mut map = map_with(UserStatus::InMovimento, 100);
    let changed =
        handle_new_track_point(&mut map, &"mario".to_string(), Some(at(1, 1, 0)), at(2, 1, 30)).unwrap();
    assert!(!changed);
    assert_eq!(info(&map), Info { status: UserStatus::InMovimento, s: 0 });
}

#[test]
fn stopped_user_moving_again_is_moving() {
    let mut map = map_with(UserStatus::Fermo, 400);
    let changed =
        handle_new_track_point(&mut map, &"mario".to_string(), Some(at(1, 1, 0)), at(1, 2, 30)).unwrap();
    assert!(changed);
    assert_eq!(info(&map), Info { status: UserStatus::InMovimento, s: 0 });
}

#[test]
fn stopped_user_still_keeps_counting() {
    let mut map = map_with(UserStatus::Fermo, 400);
    let changed =
        handle_new_track_point(&mut map, &"mario".to_string(), Some(at(1, 1, 0)), at(1, 1, 30)).unwrap();
    assert!(!changed);
    assert_eq!(info(&map), Info { status: UserStatus::Fermo, s: 430 });
}

#[test]
fn report_older_than_the_previous_counts_no_time() {
    let mut map = map_with(UserStatus::InMovimento, 10);
    handle_new_track_point(&mut map, &"mario".to_string(), Some(at(1, 1, 100)), at(1, 1, 50)).unwrap();
    assert_eq!(info(&map), Info { status: UserStatus::InMovimento, s: 10 });
}

#[test]
fn unknown_user_is_an_error_and_changes_nothing() {
    let mut map = StatusMap::new();
    let r = handle_new_track_point(&mut map, &"fantasma".to_string(), None, at(1, 1, 0));
    assert_eq!(
        r,
        Err("Informazioni sull'utente fantasma non trovate nella mappa degli stati.".to_string())
    );
    assert_eq!(map.len(), 0);
}

#[test]
fn three_minutes_at_one_place_end_stopped() {
    let mut map = map_with(UserStatus::InMovimento, 0);
    let mut last = at(5, 5, 0);
    let mut changes = Vec::new();
    for k in 1..=8 {
        let next = at(5, 5, 30 * k);
        changes.push(handle_new_track_point(&mut map, &"mario".to_string(), Some(last), next).unwrap());
        last = next;
    }
    assert_eq!(changes, vec![false, false, false, false, false, true, false, false]);
    assert_eq!(info(&map).status, UserStatus::Fermo);
}

#[test]
fn counter_overflow_is_detected() {
    let i = Info { status: UserStatus::Fermo, s: u64::MAX };
    assert!(!report_fits_counter(&i, &Some(at(1, 1, 0)), &at(1, 1, 1)));
    assert!(report_fits_counter(&i, &Some(at(1, 1, 5)), &at(1, 1, 1)));
    // Nothing is added when the place changes or the user was disconnected.
    assert!(report_fits_counter(&i, &Some(at(1, 2, 0)), &at(1, 1, 1)));
    let moving = Info { status: UserStatus::InMovimento, s: u64::MAX };
    assert!(!report_fits_counter(&moving, &Some(at(1, 1, 0)), &at(1, 1, 1)));
    let off = Info { status: UserStatus::Sconnesso, s: u64::MAX };
    assert!(report_fits_counter(&off, &Some(at(1, 1, 0)), &at(1, 1, 1)));
}
