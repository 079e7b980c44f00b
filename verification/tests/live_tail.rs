use traccar_lib::mode::live_tail::{select_most_recent_position, secure_socket_url, socket_url, Tail, TAIL_CAPACITY};
use traccar_lib::time::Timestamp;
use traccar_lib::Position;

fn position(id: u32, device_id: u32, secs: i64) -> Position {
    Position {
        id,
        latitude: 0,
        longitude: 0,
        altitude: 0,
        fix_time: Timestamp { secs, nanos: 0 },
        geofence_ids: vec![],
        device_id,
    }
}

#[test]
fn first_position_of_followed_device_is_reported() {
    let mut tail = Tail::new(7);
    assert!(tail.most_recent().is_none());
    assert!(tail.apply_update(&[position(1, 7, 100)]));
    assert_eq!(tail.most_recent().unwrap().id, 1);
}

#[test]
fn other_devices_are_ignored() {
    let mut tail = Tail::new(7);
    assert!(!tail.apply_update(&[position(1, 8, 100), position(2, 9, 200)]));
    assert!(tail.most_recent().is_none());
}

#[test]
fn no_news_is_not_reported_again() {
    let mut tail = Tail::new(7);
    assert!(tail.apply_update(&[position(1, 7, 100)]));
    assert!(!tail.apply_update(&[]));
    assert!(!tail.apply_update(&[position(5, 8, 500)]));
    assert!(!tail.apply_update(&[position(1, 7, 100)]));
}

#[test]
fn newer_position_is_reported_older_is_not() {
    let mut tail = Tail::new(7);
    assert!(tail.apply_update(&[position(1, 7, 100)]));
    assert!(!tail.apply_update(&[position(2, 7, 50)]));
    assert_eq!(tail.most_recent().unwrap().id, 1);
    assert!(tail.apply_update(&[position(3, 7, 150)]));
    assert_eq!(tail.most_recent().unwrap().id, 3);
}

#[test]
fn ties_go_to_the_last_kept_position() {
    let mut tail = Tail::new(7);
    // pushed to the front one after the other: [2, 1]
    assert!(tail.apply_update(&[position(1, 7, 100), position(2, 7, 100)]));
    assert_eq!(tail.most_recent().unwrap().id, 1);
}

#[test]
fn at_most_capacity_positions_are_kept() {
    let mut tail = Tail::new(7);
    let batch: Vec<Position> = (0..20).map(|i| position(i, 7, 1000 - i64::from(i))).collect();
    assert!(tail.apply_update(&batch));
    // The oldest arrivals (ids 0..4, the newest fixes) were dropped.
    assert_eq!(TAIL_CAPACITY, 16);
    assert_eq!(tail.most_recent().unwrap().id, 4);
}

#[test]
fn reported_position_dropped_from_queue_reports_again() {
    let mut tail = Tail::new(7);
    assert!(tail.apply_update(&[position(100, 7, 10_000)]));
    let batch: Vec<Position> = (0..16).map(|i| position(i, 7, i64::from(i))).collect();
    // Position 100 leaves the queue: the newest remaining is reported.
    assert!(tail.apply_update(&batch));
    assert_eq!(tail.most_recent().unwrap().id, 15);
}

#[test]
fn select_prefers_later_then_second() {
    let a = position(1, 7, 10);
    let b = position(2, 7, 20);
    assert_eq!(select_most_recent_position(&a, &b).id, 2);
    assert_eq!(select_most_recent_position(&b, &a).id, 2);
    let c = position(3, 7, 20);
    assert_eq!(select_most_recent_position(&b, &c).id, 3);
    let later_nanos = Position { fix_time: Timestamp { secs: 20, nanos: 1 }, ..position(4, 7, 0) };
    assert_eq!(select_most_recent_position(&later_nanos, &b).id, 4);
}

#[test]
fn socket_url_joins_host_and_token() {
    assert_eq!(socket_url("https://demo.example", "abc"), "https://demo.example/api/socket?token=abc");
}

#[test]
fn secure_socket_url_switches_to_wss() {
    assert_eq!(
        secure_socket_url("https://demo.example", "abc").unwrap(),
        "wss://demo.example/api/socket?token=abc"
    );
    assert_eq!(
        secure_socket_url("http://demo.example:8082", "t").unwrap(),
        "wss://demo.example:8082/api/socket?token=t"
    );
    assert!(secure_socket_url("not a host", "t").is_none());
}
