use picture_vault::maintenance::IdQueue;
use picture_vault::maintenance::geocode_after_thumbnail;
use picture_vault::maintenance::thumbnail_round;
use picture_vault::maintenance::{
    add_id, geocode_booking, geocode_wait, is_place_element, make_thumbnail, stale_before, GEOCODE_INTERVAL,
};
use picture_vault::media::DAY_MILLIS;

#[test]
fn add_id_queues_the_id() {
    let (tx, rx) = two_lock_queue::unbounded::<u64>();
    let mut q = IdQueue::new(tx);
    assert_eq!(add_id(&mut q, 17), Ok(()));
    assert_eq!(add_id(&mut q, 18), Ok(()));
    assert_eq!(rx.recv().unwrap(), 17);
    assert_eq!(rx.recv().unwrap(), 18);
}

#[test]
fn add_id_without_receiver_hands_the_id_back() {
    let (tx, rx) = two_lock_queue::channel::<u64>(4);
    drop(rx);
    let mut q = IdQueue::new(tx);
    assert_eq!(add_id(&mut q, 23), Err(23));
}

#[test]
fn thumbnail_outcomes() {
    assert_eq!(make_thumbnail(None), Err(-2));
    assert_eq!(make_thumbnail(Some(Ok("x".to_string()))), Ok(0));
    assert_eq!(make_thumbnail(Some(Err(-1))), Err(-1));
}

#[test]
fn geocode_pacing() {
    assert_eq!(geocode_wait(1000, 2000), Some(GEOCODE_INTERVAL - 1000));
    assert_eq!(geocode_wait(1000, 6000), None);
    assert_eq!(geocode_wait(1000, 7000), None);
    assert_eq!(geocode_booking(500), 2500);
}

#[test]
fn stale_time_is_one_day_back() {
    assert_eq!(stale_before(DAY_MILLIS + 5), 5);
}

#[test]
fn place_elements() {
    for n in ["suburb", "city", "county", "town", "village", "state", "neighbourhood", "country", "state_district"] {
        assert!(is_place_element(n.as_bytes()));
    }
    assert!(!is_place_element(b"road"));
    assert!(!is_place_element(b"cit"));
    assert!(!is_place_element(b""));
}

#[test]
fn thumbnails_every_other_round() {
    assert_eq!(thumbnail_round(true), (true, false));
    assert_eq!(thumbnail_round(false), (false, true));
}

#[test]
fn lookups_are_seven_seconds_apart() {
    let first = 1_000_000u64;
    let booked = geocode_booking(first);
    for now in [first, first + 3000, first + 6999, first + 7000, first + 9000] {
        let ready = now + geocode_wait(booked, now).unwrap_or(0);
        assert!(ready >= first + 7000);
    }
}

#[test]
fn places_only_after_thumbnail() {
    assert!(geocode_after_thumbnail(Ok(0)));
    assert!(!geocode_after_thumbnail(Err(-1)));
}
