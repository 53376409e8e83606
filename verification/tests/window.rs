use space_weather::instant::Instant;
use space_weather::bulletin::RecordMessage;
use space_weather::product::ID;
use space_weather::records::{filter_records, Record};

const NOW: i64 = 1759147208;

fn utc(secs: i64, nanos: u32) -> Instant {
    Instant { secs, nanos, offset: 0 }
}

fn record(sn: u64, issued: Instant) -> Record {
    Record {
        issue_datetime: issued,
        message: RecordMessage {
            space_weather_access_code: "WATA10".to_string(),
            sn,
            issue_time: issued,
            message: String::new(),
        },
        product_id: ID::Message("WATA10".to_string()),
    }
}

fn serials(records: &[Record]) -> Vec<u64> {
    records.iter().map(|r| r.message.sn).collect()
}

#[test]
fn two_day_window() {
    let records = vec![
        record(1, utc(NOW - 3600, 0)),
        record(2, utc(NOW - 86_400 - 3600, 0)),
        record(3, utc(NOW - 3 * 86_400, 0)),
    ];
    let kept = filter_records(records.clone(), Some(2), utc(NOW, 0));
    assert_eq!(kept, records[..2].to_vec());
}

#[test]
fn window_keeps_the_order() {
    let records = vec![
        record(3, utc(NOW - 3 * 86_400, 0)),
        record(2, utc(NOW - 10, 0)),
        record(4, utc(NOW - 5 * 86_400, 0)),
        record(1, utc(NOW - 20, 0)),
    ];
    assert_eq!(serials(&filter_records(records, Some(1), utc(NOW, 0))), vec![2, 1]);
}

#[test]
fn window_bound_is_strict() {
    let records = vec![
        record(1, utc(NOW - 2 * 86_400, 500)),
        record(2, utc(NOW - 2 * 86_400, 501)),
        record(3, utc(NOW - 2 * 86_400 + 1, 0)),
        record(4, utc(NOW - 2 * 86_400 - 1, 999_999_999)),
    ];
    assert_eq!(serials(&filter_records(records, Some(2), utc(NOW, 500))), vec![2, 3]);
}

#[test]
fn window_of_no_days() {
    let records = vec![record(1, utc(NOW, 0)), record(2, utc(NOW, 1)), record(3, utc(NOW + 1, 0))];
    assert_eq!(serials(&filter_records(records, Some(0), utc(NOW, 0))), vec![2, 3]);
}

#[test]
fn window_compares_instants_not_wall_clocks() {
    let ahead = Instant { secs: NOW - 86_400 + 1, nanos: 0, offset: -36_000 };
    let behind = Instant { secs: NOW - 86_400 - 1, nanos: 0, offset: 36_000 };
    let records = vec![record(1, ahead), record(2, behind)];
    assert_eq!(serials(&filter_records(records, Some(1), utc(NOW, 0))), vec![1]);
}

#[test]
fn unbounded_window_keeps_all() {
    let records = vec![record(1, utc(NOW, 0)), record(2, utc(0, 0)), record(3, utc(i64::MIN, 0))];
    assert_eq!(filter_records(records.clone(), None, utc(NOW, 0)), records);
}

#[test]
fn window_at_the_ends_of_the_range() {
    let records = vec![record(1, utc(i64::MIN, 0)), record(2, utc(i64::MAX, 0))];
    assert_eq!(serials(&filter_records(records.clone(), Some(255), utc(i64::MIN, 0))), vec![1, 2]);
    assert_eq!(serials(&filter_records(records, Some(255), utc(i64::MAX, 0))), vec![2]);
}

#[test]
fn window_over_nothing() {
    assert_eq!(filter_records(Vec::new(), Some(2), utc(NOW, 0)), Vec::new());
    assert_eq!(filter_records(Vec::new(), None, utc(NOW, 0)), Vec::new());
}

#[test]
fn window_agrees_with_calendar_days() {
    let now = chrono::DateTime::from_timestamp(NOW, 123_456_789).unwrap();
    for days in [0u8, 1, 2, 30, 255] {
        let cutoff = now - chrono::Days::new(u64::from(days));
        for (delta, nanos) in [(-1i64, 999_999_999u32), (0, 123_456_788), (0, 123_456_789), (0, 123_456_790), (1, 0)] {
            let secs = NOW - 86_400 * i64::from(days) + delta;
            let issued = chrono::DateTime::from_timestamp(secs, nanos).unwrap();
            let kept = filter_records(vec![record(1, utc(secs, nanos))], Some(days), utc(NOW, 123_456_789));
            assert_eq!(kept.len() == 1, issued > cutoff);
        }
    }
}
