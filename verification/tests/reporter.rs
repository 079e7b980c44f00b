use traccar_lib::devices::{Device, DeviceConfig};
use traccar_lib::report::{Coordinate, ReportPosition};
use traccar_lib::reporter::{total_order_key_of, LandmarkMeasure, Observation};
use traccar_lib::time::Timestamp;
use traccar_lib::{GeoFenceResponse, Landmark, Position, Reporter};

fn device() -> Device {
    Device { id: 0, name: "Device".to_owned(), position_id: Some(1) }
}

fn at_epoch_in(fences: Vec<u32>) -> Position {
    let mut p = Position::default();
    p.geofence_ids = fences;
    p
}

fn measure(distance: f64, bearing: f64) -> LandmarkMeasure {
    LandmarkMeasure {
        distance: distance.to_bits(),
        rounded_distance: distance.round().to_bits(),
        bearing: bearing.to_bits(),
    }
}

fn fence(id: u32, name: &str) -> GeoFenceResponse {
    GeoFenceResponse { id, name: name.to_owned(), description: None }
}

fn landmark(name: &str) -> Landmark {
    Landmark { name: name.to_owned(), position: Coordinate { x: 1.0f64.to_bits(), y: 1.0f64.to_bits() } }
}

#[test]
fn known_geofences_are_reported_by_name() {
    let mut r = Reporter::new();
    r.geofences_set(&[fence(2, "Geofence 1"), fence(3, "Other")]);
    let obs = Observation { seconds_ago: 1, measures: vec![] };
    let report = r.report_device(&device(), &at_epoch_in(vec![9, 2]), &obs);
    assert_eq!(report.name, "Device");
    assert_eq!(report.position.geofences(), &["Geofence 1".to_owned()]);
    assert_eq!(report.seconds_ago, 1);
    assert_eq!(report.in_timeout, None);
    assert_eq!(report.next_update_expected, None);
}

#[test]
fn closest_landmark_first_among_ties() {
    let mut r = Reporter::new();
    r.landmarks_set(&[landmark("Far"), landmark("Near"), landmark("AlsoNear")]);
    let obs = Observation { seconds_ago: 1, measures: vec![measure(5000.0, 10.0), measure(1200.4, 225.0), measure(1200.4, 90.0)] };
    let report = r.report_device(&device(), &at_epoch_in(vec![2]), &obs);
    match report.position {
        ReportPosition::RelativeTo { distance, bearing, name } => {
            assert_eq!(name, "Near");
            assert_eq!(f64::from_bits(distance), 1200.0);
            assert_eq!(f64::from_bits(bearing), 225.0);
        }
        _ => panic!("expected a position relative to a landmark"),
    }
}

#[test]
fn bare_position_without_landmarks_or_fences() {
    let r = Reporter::new();
    let mut p = at_epoch_in(vec![2]);
    p.longitude = 4.5f64.to_bits();
    p.latitude = 49.5f64.to_bits();
    let report = r.report_device(&device(), &p, &Observation { seconds_ago: 1, measures: vec![] });
    match report.position {
        ReportPosition::BarePosition(c) => {
            assert_eq!(f64::from_bits(c.x), 4.5);
            assert_eq!(f64::from_bits(c.y), 49.5);
        }
        _ => panic!("expected a bare position"),
    }
}

#[test]
fn device_preferences_apply() {
    let mut r = Reporter::new();
    r.config_set(
        0,
        DeviceConfig {
            hidden: None,
            display_name: Some("My car".to_owned()),
            report_timeout_seconds: Some(60),
            predict_update_interval_seconds: Some(120),
        },
    );
    let mut p = at_epoch_in(vec![]);
    p.fix_time = Timestamp { secs: 1_000, nanos: 7 };
    let report = r.report_device(&device(), &p, &Observation { seconds_ago: 59, measures: vec![] });
    assert_eq!(report.name, "My car");
    assert_eq!(report.in_timeout, Some(true));
    assert_eq!(report.next_update_expected, Some(Timestamp { secs: 1_120, nanos: 7 }));
    let late = r.report_device(&device(), &p, &Observation { seconds_ago: 60, measures: vec![] });
    assert_eq!(late.in_timeout, Some(false));
}

#[test]
fn total_order_key_orders_like_total_cmp() {
    let values = [f64::NEG_INFINITY, -2.5, -0.0, 0.0, 1.0, 157_000.0, f64::INFINITY, f64::NAN];
    for a in values {
        for b in values {
            let keys = total_order_key_of(a.to_bits()).cmp(&total_order_key_of(b.to_bits()));
            assert_eq!(keys, a.total_cmp(&b), "{a} {b}");
        }
    }
    assert_eq!(total_order_key_of(0), 0);
    assert_eq!(total_order_key_of(0x8000_0000_0000_0000), -1);
}

// The three report texts below are built from the report the library makes;
// the distance, direction, coordinates and age are written outside the
// library, so their texts are handed in as written.

#[test]
fn test_report_geofence() {
    let mut r = Reporter::new();
    r.geofences_set(&[fence(2, "Geofence 1")]);
    let obs = Observation { seconds_ago: 1, measures: vec![] };
    let report = r.report_device(&device(), &at_epoch_in(vec![2]), &obs);
    let position = report.position.describe("", "");
    assert_eq!(report.describe_with_age(&position, " 1 seconds ago"), "Device was in Geofence 1 1 seconds ago");
}

#[test]
fn test_report_relative() {
    let mut r = Reporter::new();
    r.landmarks_set(&[landmark("Landmark")]);
    let obs = Observation { seconds_ago: 1, measures: vec![measure(157_249.4, 224.9)] };
    let report = r.report_device(&device(), &at_epoch_in(vec![2]), &obs);
    let position = report.position.describe("157km", "SW");
    assert_eq!(report.describe_with_age(&position, " 1 seconds ago"), "Device was 157km SW of Landmark 1 seconds ago");
}

#[test]
fn test_report_bare() {
    let r = Reporter::new();
    let obs = Observation { seconds_ago: 1, measures: vec![] };
    let report = r.report_device(&device(), &at_epoch_in(vec![2]), &obs);
    let position = report.position.describe("0", "0");
    assert_eq!(report.describe_with_age(&position, " 1 seconds ago"), "Device was at 0,0 1 seconds ago");
}
