use traccar_lib::devices::{Device, DeviceConfig};
use traccar_lib::mode::report_once::{history_query, history_reports, history_window, DeviceHistory, Sighting};
use traccar_lib::reporter::Observation;
use traccar_lib::time::{Timestamp, MAX_TIMESTAMP_SECS, MIN_TIMESTAMP_SECS};
use traccar_lib::{Position, Reporter};

fn device(id: u32) -> Device {
    Device { id, name: format!("d{id}"), position_id: Some(1) }
}

fn sighting(secs: i64) -> Sighting {
    let mut position = Position::default();
    position.fix_time = Timestamp { secs, nanos: 0 };
    Sighting { position, observation: Observation { seconds_ago: 3, measures: vec![] } }
}

#[test]
fn hidden_devices_are_left_out() {
    let mut r = Reporter::new();
    r.config_set(
        2,
        DeviceConfig { hidden: Some(true), display_name: None, report_timeout_seconds: None, predict_update_interval_seconds: None },
    );
    r.config_set(
        3,
        DeviceConfig { hidden: Some(false), display_name: None, report_timeout_seconds: None, predict_update_interval_seconds: Some(10) },
    );
    let entries = vec![
        DeviceHistory { device: device(1), sightings: Some(vec![sighting(1), sighting(2)]) },
        DeviceHistory { device: device(2), sightings: Some(vec![sighting(1)]) },
        DeviceHistory { device: device(3), sightings: Some(vec![sighting(59)]) },
        DeviceHistory { device: device(4), sightings: None },
    ];
    let out = history_reports(&r, &entries);
    assert_eq!(out.iter().map(|e| e.0).collect::<Vec<_>>(), vec![1, 3, 4]);
    assert_eq!(out[0].1.as_ref().unwrap().len(), 2);
    assert_eq!(out[1].1.as_ref().unwrap()[0].next_update_expected, Some(Timestamp { secs: 69, nanos: 0 }));
    assert!(out[2].1.is_none());
}

#[test]
fn leap_second_fix_plus_interval() {
    let mut r = Reporter::new();
    r.config_set(
        1,
        DeviceConfig { hidden: None, display_name: None, report_timeout_seconds: None, predict_update_interval_seconds: Some(10) },
    );
    let mut position = Position::default();
    position.fix_time = Timestamp { secs: 59, nanos: 1_500_000_000 };
    let report = r.report_device(&device(1), &position, &Observation { seconds_ago: 0, measures: vec![] });
    assert_eq!(report.next_update_expected, Some(Timestamp { secs: 69, nanos: 500_000_000 }));
}

#[test]
fn history_window_spans_the_day_before() {
    let now = Timestamp { secs: 2 * 86_400 + 30, nanos: 5 };
    let (from, to) = history_window(now).unwrap();
    assert_eq!(from, Timestamp { secs: 86_400 + 30, nanos: 5 });
    assert_eq!(to, now);
    assert!(history_window(Timestamp { secs: MIN_TIMESTAMP_SECS + 10, nanos: 0 }).is_none());
    assert!(history_window(Timestamp { secs: MAX_TIMESTAMP_SECS + 1, nanos: 0 }).is_none());
}

#[test]
fn history_query_names_device_and_window() {
    let window = history_window(Timestamp { secs: 2 * 86_400, nanos: 0 }).unwrap();
    let query = history_query(42, window);
    assert_eq!(
        query,
        vec![
            ("deviceId".to_owned(), "42".to_owned()),
            ("from".to_owned(), "1970-01-02T00:00:00Z".to_owned()),
            ("to".to_owned(), "1970-01-03T00:00:00Z".to_owned()),
        ]
    );
    let leap = Timestamp { secs: 86_400 + 59, nanos: 1_500_000_000 };
    let (from, _) = history_window(leap).unwrap();
    let query = history_query(1, (from, leap));
    assert_eq!(query[1].1, "1970-01-01T00:00:60Z");
    assert_eq!(query[2].1, "1970-01-02T00:00:60Z");
}
