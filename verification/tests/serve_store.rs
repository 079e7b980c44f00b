use traccar_lib::mode::serve::{
    geofence_movements_from_report, movement_notification, refresh_delay, ReportStore, DEFAULT_REFRESH_SECS,
};
use traccar_lib::report::{Coordinate, ReportPosition};
use traccar_lib::time::{Span, Timestamp};
use traccar_lib::Report;

fn fenced(name: &str, fences: &[&str]) -> Report {
    Report::new(
        name.to_owned(),
        ReportPosition::InGeofences(fences.iter().map(|f| f.to_string()).collect()),
        None,
        0,
        None,
    )
}

fn bare(name: &str) -> Report {
    Report::new(name.to_owned(), ReportPosition::BarePosition(Coordinate { x: 0, y: 0 }), None, 0, None)
}

fn notifications(report_a: &Report, report_b: &Report) -> Vec<(String, String)> {
    geofence_movements_from_report(report_a, report_b)
        .iter()
        .map(|m| {
            let (title, body) = movement_notification(m);
            (title.to_owned(), body)
        })
        .collect()
}

#[test]
fn entering_and_leaving_fences() {
    let got = notifications(&fenced("Car", &["Home", "Work"]), &fenced("Car", &["Work", "Gym", "Shop"]));
    assert_eq!(
        got,
        vec![
            ("Geofence entered".to_owned(), "Car has entered Gym".to_owned()),
            ("Geofence entered".to_owned(), "Car has entered Shop".to_owned()),
            ("Geofence exited".to_owned(), "Car has left Home".to_owned()),
        ]
    );
}

#[test]
fn same_fences_no_movement() {
    assert!(notifications(&fenced("Car", &["Home"]), &fenced("Car", &["Home"])).is_empty());
    assert!(notifications(&bare("Car"), &bare("Car")).is_empty());
}

#[test]
fn leaving_all_fences_for_a_bare_position() {
    let got = notifications(&fenced("Car", &["Home"]), &bare("Car"));
    assert_eq!(got, vec![("Geofence exited".to_owned(), "Car has left Home".to_owned())]);
}

#[test]
fn swapped_reports_swap_movements() {
    let got = notifications(&fenced("Car", &["Work", "Gym", "Shop"]), &fenced("Car", &["Home", "Work"]));
    assert_eq!(
        got,
        vec![
            ("Geofence entered".to_owned(), "Car has entered Home".to_owned()),
            ("Geofence exited".to_owned(), "Car has left Gym".to_owned()),
            ("Geofence exited".to_owned(), "Car has left Shop".to_owned()),
        ]
    );
}

#[test]
fn store_reads_back_the_last_of_many_adds() {
    let mut store = ReportStore::new();
    store.add_report(7, fenced("Car", &["A"]));
    store.add_report(8, fenced("Bike", &["B"]));
    store.add_report(7, fenced("Car", &["C"]));
    store.add_report(9, fenced("Boat", &[]));
    store.add_report(7, fenced("Car", &["D", "E"]));
    let (_, report) = store.get_by_id(7).unwrap();
    assert_eq!(report.position.geofences(), &["D".to_owned(), "E".to_owned()]);
    let (_, report) = store.get_by_id(8).unwrap();
    assert_eq!(report.position.geofences(), &["B".to_owned()]);
    assert!(store.get_by_id(10).is_none());
}

#[test]
fn store_reads_back_what_was_added() {
    let mut store = ReportStore::new();
    assert!(store.get_by_id(1).is_none());
    assert!(store.add_report(1, fenced("Car", &["Home"])).is_empty());
    assert!(store.add_report(2, fenced("Bike", &[])).is_empty());
    let movements = store.add_report(1, fenced("Car", &["Work"]));
    assert_eq!(movements.len(), 2);
    let (id, report) = store.get_by_id(1).unwrap();
    assert_eq!(id, 1);
    assert_eq!(report.position.geofences(), &["Work".to_owned()]);
    let (id, report) = store.get_by_id(2).unwrap();
    assert_eq!(id, 2);
    assert_eq!(report.name, "Bike");
    assert!(store.get_by_id(3).is_none());
}

fn expecting(t: Option<Timestamp>) -> Report {
    Report::new("Car".to_owned(), ReportPosition::InGeofences(vec![]), None, 0, t)
}

#[test]
fn refresh_waits_for_earliest_expected_fix_plus_margin() {
    let now = Timestamp { secs: 1000, nanos: 0 };
    let reports = vec![
        expecting(Some(Timestamp { secs: 1100, nanos: 0 })),
        expecting(None),
        expecting(Some(Timestamp { secs: 1020, nanos: 500 })),
    ];
    assert_eq!(refresh_delay(&reports, now), Span { secs: 25, nanos: 500 });
}

#[test]
fn refresh_defaults_without_expectation_or_when_late() {
    let now = Timestamp { secs: 1000, nanos: 0 };
    assert_eq!(refresh_delay(&vec![expecting(None)], now), Span { secs: DEFAULT_REFRESH_SECS, nanos: 0 });
    assert_eq!(refresh_delay(&vec![], now), Span { secs: 30, nanos: 0 });
    let late = vec![expecting(Some(Timestamp { secs: 900, nanos: 0 }))];
    assert_eq!(refresh_delay(&late, now), Span { secs: 30, nanos: 0 });
    let exact = vec![expecting(Some(Timestamp { secs: 995, nanos: 0 }))];
    assert_eq!(refresh_delay(&exact, now), Span { secs: 0, nanos: 0 });
}
