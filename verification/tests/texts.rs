use traccar_lib::mode::report_once::unavailable_line;
use traccar_lib::report::{age_suffix, age_text, join_with_commas, Coordinate, ReportPosition};
use traccar_lib::Report;

#[test]
fn geofence_report_text() {
    let report = Report::new(
        "Device".to_owned(),
        ReportPosition::InGeofences(vec!["Geofence 1".to_owned()]),
        None,
        1,
        None,
    );
    let position = report.position.describe("", "");
    assert_eq!(position, "Geofence 1");
    assert_eq!(report.describe_with_age(&position, " 1s ago"), "Device was in Geofence 1 1s ago");
    assert_eq!(report.describe(&position), "Device was in Geofence 1 1s ago");
}

#[test]
fn relative_and_bare_texts() {
    let rel = Report::new(
        "Device".to_owned(),
        ReportPosition::RelativeTo { distance: 157_000f64.to_bits(), bearing: 225f64.to_bits(), name: "Landmark".to_owned() },
        None,
        1,
        None,
    );
    let text = rel.position.describe("157km", "SW");
    assert_eq!(text, "157km SW of Landmark");
    assert_eq!(rel.describe_with_age(&text, " 1s ago"), "Device was 157km SW of Landmark 1s ago");
    let bare = Report::new("Device".to_owned(), ReportPosition::BarePosition(Coordinate { x: 0, y: 0 }), None, 1, None);
    let text = bare.position.describe("0", "0");
    assert_eq!(text, "0,0");
    assert_eq!(bare.describe_with_age(&text, " 1s ago"), "Device was at 0,0 1s ago");
}

#[test]
fn age_texts_with_and_without_colors() {
    assert_eq!(age_suffix("1s", None), " 1s ago");
    assert_eq!(age_suffix("1s", Some(true)), " \x1b[32m1s\x1b[39m ago");
    assert_eq!(age_suffix("1s", Some(false)), " \x1b[31m1s\x1b[39m ago");
    assert_eq!(age_text(1, None), " 1s ago");
    assert_eq!(age_text(3690, Some(true)), " \x1b[32m1h 1min 30s\x1b[39m ago");
    assert_eq!(age_text(604_800, None), " 1 week ago");
}

#[test]
fn fences_joined_with_commas() {
    assert_eq!(join_with_commas(&[]), "");
    assert_eq!(join_with_commas(&["a".to_owned()]), "a");
    assert_eq!(join_with_commas(&["a".to_owned(), "b".to_owned(), "c".to_owned()]), "a,b,c");
}

#[test]
fn unavailable_device_line() {
    assert_eq!(unavailable_line(0), "Device #0 unavailable");
    assert_eq!(unavailable_line(4_294_967_295), "Device #4294967295 unavailable");
}
