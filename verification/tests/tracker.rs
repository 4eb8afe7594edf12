use chrono::{DateTime, Duration};
use pdf_viewer::routes::stats::{
    Moment, ReadCategory, ReadingEvent, ReadingStatistics, DAY_NANOS, MONTH_NANOS,
    NANOS_PER_SECOND, WEEK_NANOS,
};

const T: Moment = Moment { secs: 1_700_000_000, nanos: 250 };

fn counts(s: &ReadingStatistics) -> (usize, usize, usize) {
    (s.last_day(), s.last_week(), s.last_month())
}

fn after(days: u32, secs: u32, nanos: u32) -> (usize, usize, usize, usize) {
    let mut s = ReadingStatistics::new();
    s.increment_at(T);
    s.update_at(T.later(days, secs, nanos).unwrap());
    (s.last_day(), s.last_week(), s.last_month(), s.events().len())
}

#[test]
fn constants_are_exact() {
    assert_eq!(NANOS_PER_SECOND, 1_000_000_000);
    assert_eq!(DAY_NANOS, 24 * 60 * 60 * NANOS_PER_SECOND);
    assert_eq!(WEEK_NANOS, 7 * DAY_NANOS);
    assert_eq!(MONTH_NANOS, 28 * DAY_NANOS);
}

#[test]
fn new_tracker_counts_nothing() {
    let s = ReadingStatistics::new();
    assert_eq!(counts(&s), (0, 0, 0));
    assert!(s.events().is_empty());
}

#[test]
fn event_refreshed_at_once_is_of_the_day() {
    let mut s = ReadingStatistics::new();
    s.increment_at(T);
    s.update_at(T);
    assert_eq!(counts(&s), (1, 0, 0));
    assert_eq!(s.events(), vec![ReadingEvent { time: T, validity: ReadCategory::Day }]);
}

#[test]
fn event_after_eight_days_is_of_the_month() {
    let mut s = ReadingStatistics::new();
    s.increment_at(T);
    s.update_at(T);
    s.update_at(T.later(8, 0, 0).unwrap());
    assert_eq!(s.last_day(), 0);
    assert_eq!(s.last_week(), 0);
    assert_eq!(s.last_month(), 1);
    assert_eq!(after(6, 0, 0), (0, 1, 0, 1));
}

#[test]
fn event_after_twenty_nine_days_is_gone() {
    let mut s = ReadingStatistics::new();
    s.increment_at(T);
    s.update_at(T);
    s.update_at(T.later(29, 0, 0).unwrap());
    assert_eq!(counts(&s), (0, 0, 0));
    assert!(s.events().is_empty());
}

#[test]
fn bucket_edges_are_exact() {
    assert_eq!(after(0, 0, 0), (1, 0, 0, 1));
    assert_eq!(after(0, 86_399, 999_999_999), (1, 0, 0, 1));
    assert_eq!(after(1, 0, 0), (0, 1, 0, 1));
    assert_eq!(after(6, 86_399, 999_999_999), (0, 1, 0, 1));
    assert_eq!(after(7, 0, 0), (0, 0, 1, 1));
    assert_eq!(after(27, 86_399, 999_999_999), (0, 0, 1, 1));
    assert_eq!(after(28, 0, 0), (0, 0, 0, 0));
    assert_eq!(after(400, 0, 0), (0, 0, 0, 0));
}

#[test]
fn event_from_the_future_is_of_the_day() {
    let mut s = ReadingStatistics::new();
    s.increment_at(T.later(40, 0, 0).unwrap());
    s.update_at(T);
    assert_eq!(counts(&s), (1, 0, 0));
}

#[test]
fn refresh_keeps_order_and_drops_only_the_expired() {
    let mut s = ReadingStatistics::new();
    let old = Moment::new(T.secs - 30 * 86_400, 0);
    let month = Moment::new(T.secs - 10 * 86_400, 0);
    let week = Moment::new(T.secs - 2 * 86_400, 0);
    s.increment_at(month);
    s.increment_at(old);
    s.increment_at(T);
    s.increment_at(week);
    s.increment_at(old);
    assert_eq!(counts(&s), (5, 0, 0));
    s.update_at(T);
    assert_eq!(
        s.events(),
        vec![
            ReadingEvent { time: month, validity: ReadCategory::Month },
            ReadingEvent { time: T, validity: ReadCategory::Day },
            ReadingEvent { time: week, validity: ReadCategory::Week },
        ]
    );
    assert_eq!(counts(&s), (1, 1, 1));
    assert_eq!(s.count(ReadCategory::More), 0);
}

#[test]
fn counts_go_by_the_stored_bucket() {
    let s = ReadingStatistics::from_events(vec![
        ReadingEvent { time: T, validity: ReadCategory::Month },
        ReadingEvent { time: T, validity: ReadCategory::More },
        ReadingEvent { time: T, validity: ReadCategory::Month },
        ReadingEvent { time: T, validity: ReadCategory::Week },
    ]);
    assert_eq!(counts(&s), (0, 1, 2));
    assert_eq!(s.count(ReadCategory::More), 1);
    assert_eq!(s.clone().events(), s.events());
}

#[test]
fn event_update_sorts_by_age() {
    let mut e = ReadingEvent::at(T);
    assert_eq!(e, ReadingEvent { time: T, validity: ReadCategory::Day });
    e.update(&Moment::new(T.secs + 86_400, 249));
    assert_eq!(e.validity, ReadCategory::Day);
    e.update(&Moment::new(T.secs + 86_400, 250));
    assert_eq!(e.validity, ReadCategory::Week);
    e.update(&Moment::new(T.secs + 7 * 86_400, 250));
    assert_eq!(e.validity, ReadCategory::Month);
    e.update(&Moment::new(T.secs + 28 * 86_400, 250));
    assert_eq!(e.validity, ReadCategory::More);
    e.update(&Moment::new(i64::MIN, 0));
    assert_eq!(e.validity, ReadCategory::Day);
    e.update(&Moment::new(i64::MAX, u32::MAX));
    assert_eq!(e.validity, ReadCategory::More);
    assert_eq!(e.time, T);
}

#[test]
fn later_adds_and_carries() {
    assert_eq!(Moment::new(10, 5).later(0, 0, 0), Some(Moment::new(10, 5)));
    assert_eq!(Moment::new(10, 5).later(1, 2, 3), Some(Moment::new(86_412, 8)));
    assert_eq!(
        Moment::new(10, 999_999_999).later(0, 0, 1),
        Some(Moment::new(11, 0))
    );
    assert_eq!(Moment::new(i64::MAX, 0).later(0, 1, 0), None);
    assert_eq!(Moment::new(i64::MAX, 999_999_999).later(0, 0, 1), None);
    assert_eq!(
        Moment::new(i64::MAX, 0).later(0, 0, 999_999_999),
        Some(Moment::new(i64::MAX, 999_999_999))
    );
}

#[test]
fn clock_events_are_fresh() {
    let mut s = ReadingStatistics::new();
    s.increment();
    s.increment();
    let events = s.events();
    assert_eq!(events.len(), 2);
    assert_eq!(events[0].validity, ReadCategory::Day);
    assert!(events[0].time.secs > 1_600_000_000);
    assert!(events[0].time.nanos < 2_000_000_000);
    assert!(events[0].time.secs <= events[1].time.secs);
    s.update();
    assert_eq!(counts(&s), (2, 0, 0));
    assert_eq!(ReadingEvent::default().validity, ReadCategory::Day);
}

#[test]
fn clock_refresh_drops_old_events() {
    let mut s = ReadingStatistics::from_events(vec![
        ReadingEvent { time: Moment::new(0, 0), validity: ReadCategory::Day },
    ]);
    s.increment();
    s.update();
    assert_eq!(s.events().len(), 1);
    assert_eq!(counts(&s), (1, 0, 0));
}

fn bucket_by_chrono(created: Moment, now: Moment) -> ReadCategory {
    let a = DateTime::from_timestamp(created.secs, created.nanos).unwrap();
    let b = DateTime::from_timestamp(now.secs, now.nanos).unwrap();
    let since = b - a;
    if since < Duration::days(1) {
        ReadCategory::Day
    } else if since < Duration::weeks(1) {
        ReadCategory::Week
    } else if since < Duration::weeks(4) {
        ReadCategory::Month
    } else {
        ReadCategory::More
    }
}

#[test]
fn age_is_what_chrono_subtracts() {
    let midnight: i64 = 1_700_000_000 - 1_700_000_000 % 86_400;
    let mut moments = Vec::new();
    for day in [0i64, 1, 2, 7, 8, 28, 29] {
        for second in [0i64, 1, 59, 43_199, 86_398, 86_399] {
            for nanos in [0u32, 1, 999_999_999, 1_000_000_000, 1_500_000_000, 1_999_999_999] {
                if nanos >= 1_000_000_000 && second % 60 != 59 {
                    continue;
                }
                moments.push(Moment::new(midnight + day * 86_400 + second, nanos));
            }
        }
    }
    let mut leap_pairs = 0;
    for created in &moments {
        for now in &moments {
            let mut e = ReadingEvent::at(*created);
            e.update(now);
            assert_eq!(e.validity, bucket_by_chrono(*created, *now), "{created:?} {now:?}");
            if created.nanos >= 1_000_000_000 || now.nanos >= 1_000_000_000 {
                leap_pairs += 1;
            }
        }
    }
    assert!(leap_pairs > 1000);
}

#[test]
fn leap_second_counts_at_the_edge_of_a_day() {
    let midnight: i64 = 1_700_000_000 - 1_700_000_000 % 86_400;
    let inside = Moment::new(midnight + 59, 1_500_000_000);
    let mut e = ReadingEvent::at(inside);
    e.update(&Moment::new(midnight + 86_400 + 59, 500_000_000));
    assert_eq!(e.validity, ReadCategory::Day);
    e.update(&Moment::new(midnight + 86_400 + 59, 999_999_999));
    assert_eq!(e.validity, ReadCategory::Day);
    e.update(&Moment::new(midnight + 86_400 + 60, 0));
    assert_eq!(e.validity, ReadCategory::Week);
    let mut plain = ReadingEvent::at(Moment::new(midnight + 59, 500_000_000));
    plain.update(&Moment::new(midnight + 86_400 + 59, 499_999_999));
    assert_eq!(plain.validity, ReadCategory::Day);
    plain.update(&Moment::new(midnight + 86_400 + 59, 500_000_000));
    assert_eq!(plain.validity, ReadCategory::Week);
}
