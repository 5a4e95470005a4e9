use rs_google_photos_sync::clock::Timestamp;

fn at(millis: i64) -> Timestamp {
    Timestamp { millis }
}

#[test]
fn the_clock_shows_a_time_of_this_age() {
    let first = Timestamp::now();
    let second = Timestamp::now();
    assert!(first.millis > 1_700_000_000_000);
    assert!(second.millis - first.millis < 60_000);
}

#[test]
fn one_instant_is_later_than_another_by_more_than_an_interval() {
    assert!(at(5001).later_by_more_than(&at(0), 5000));
    assert!(!at(5000).later_by_more_than(&at(0), 5000));
    assert!(!at(0).later_by_more_than(&at(5001), 5000));
    assert!(at(0).later_by_more_than(&at(5001), -6000));
    assert!(at(i64::MAX).later_by_more_than(&at(i64::MIN), i64::MAX));
    assert!(!at(i64::MIN).later_by_more_than(&at(i64::MAX), i64::MIN));
}

#[test]
fn whole_seconds_are_rounded_towards_the_past() {
    assert_eq!(at(0).unix_seconds(), 0);
    assert_eq!(at(1999).unix_seconds(), 1);
    assert_eq!(at(2000).unix_seconds(), 2);
    assert_eq!(at(-1).unix_seconds(), -1);
    assert_eq!(at(-1000).unix_seconds(), -1);
    assert_eq!(at(-1001).unix_seconds(), -2);
}
