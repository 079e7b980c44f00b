use vstd::prelude::*;
use vstd::string::*;

use crate::devices::Device;
use crate::positions::Position;
use crate::report::Report;
use crate::reporter::{config_of, next_fix_in_range, report_of, Observation, Reporter, ReporterView};
use crate::report::ReportView;
use crate::time::{checked_sub_days, Timestamp, MIN_TIMESTAMP_SECS};

verus! {

/// The character of a decimal digit.
pub open spec fn digit_char(d: int) -> char {
    (48 + d) as char
}

/// The decimal writing of a number.
pub open spec fn decimal(n: nat) -> Seq<char>
    decreases n,
{
    if n < 10 {
        seq![digit_char(n as int)]
    } else {
        decimal(n / 10) + seq![digit_char((n % 10) as int)]
    }
}

/// Writes a number in decimal with the standard library (`u32::to_string`),
/// which writes its decimal digits without sign or padding.
#[verifier::external_body]
fn decimal_text(n: u32) -> (r: String)
    ensures
        r@ == decimal(n as nat),
{
    n.to_string()
}

/// How chrono writes an instant in RFC 3339 with whole seconds and "Z" for
/// UTC (`to_rfc3339_opts(SecondsFormat::Secs, true)`), such as
/// "2024-05-01T12:00:00Z".
pub uninterp spec fn rfc3339_seconds(secs: i64, nanos: u32) -> Seq<char>;

/// Writes a valid instant in RFC 3339 with whole seconds and "Z", with
/// chrono; the text is named, not described.
#[verifier::external_body]
fn rfc3339_text(t: Timestamp) -> (r: String)
    requires
        t.is_valid(),
    ensures
        r@ == rfc3339_seconds(t.secs, t.nanos),
{
    match chrono::DateTime::from_timestamp(t.secs, t.nanos) {
        Some(d) => d.to_rfc3339_opts(chrono::SecondsFormat::Secs, true),
        None => String::new(),
    }
}

/// How many days back the position history reaches.
pub const HISTORY_DAYS: u32 = 1;

/// The span of the position history: from the same time one day before
/// `now` to `now`. There is none when `now` is not a valid date-time or the
/// day before lies outside the supported range.
pub fn history_window(now: Timestamp) -> (r: Option<(Timestamp, Timestamp)>)
    ensures
        r is Some <==> now.is_valid() && now.secs - 86_400 >= MIN_TIMESTAMP_SECS,
        r matches Some(w) ==> w == (Timestamp { secs: (now.secs - 86_400) as i64, nanos: now.nanos }, now),
        r matches Some(w) ==> w.0.is_valid() && w.1.is_valid(),
{
    match checked_sub_days(now, HISTORY_DAYS) {
        Some(start) => Some((start, now)),
        None => None,
    }
}

/// The query of the request for the positions of a device within a
/// window: the device's id in decimal, and both ends in RFC 3339.
pub fn history_query(device_id: u32, window: (Timestamp, Timestamp)) -> (r: Vec<(String, String)>)
    requires
        window.0.is_valid(),
        window.1.is_valid(),
    ensures
        r@.len() == 3,
        r@[0].0@ == "deviceId"@,
        r@[0].1@ == decimal(device_id as nat),
        r@[1].0@ == "from"@,
        r@[1].1@ == rfc3339_seconds(window.0.secs, window.0.nanos),
        r@[2].0@ == "to"@,
        r@[2].1@ == rfc3339_seconds(window.1.secs, window.1.nanos),
{
    let mut r: Vec<(String, String)> = Vec::new();
    r.push((String::from_str("deviceId"), decimal_text(device_id)));
    r.push((String::from_str("from"), rfc3339_text(window.0)));
    r.push((String::from_str("to"), rfc3339_text(window.1)));
    proof {
        reveal_strlit("deviceId");
        reveal_strlit("from");
        reveal_strlit("to");
    }
    r
}

/// The line printed for a device whose position could not be had.
pub fn unavailable_line(device_id: u32) -> (r: String)
    ensures
        r@ == "Device #"@ + decimal(device_id as nat) + " unavailable"@,
{
    String::from_str("Device #").concat(decimal_text(device_id).as_str()).concat(" unavailable")
}

/// A position fix of a device together with what was computed from it.
#[derive(Debug)]
pub struct Sighting {
    pub position: Position,
    pub observation: Observation,
}

/// A device and its recent positions, when they could be had.
#[derive(Debug)]
pub struct DeviceHistory {
    pub device: Device,
    pub sightings: Option<Vec<Sighting>>,
}

/// Whether a device is configured as hidden.
pub open spec fn is_hidden(r: ReporterView, id: u32) -> bool {
    config_of(r, id) matches Some(c) && c.hidden == Some(true)
}

/// The reports on the sightings of a device, in order.
pub open spec fn sighting_reports(r: ReporterView, device: Device, sightings: Seq<Sighting>) -> Seq<ReportView> {
    sightings.map_values(|s: Sighting| report_of(r, device, s.position@, s.observation.seconds_ago, s.observation.measures@))
}

/// The history of each device that is not hidden: its id and the reports
/// on its sightings, or nothing when they could not be had.
pub open spec fn history_spec(r: ReporterView, entries: Seq<DeviceHistory>) -> Seq<(u32, Option<Seq<ReportView>>)>
    decreases entries.len(),
{
    if entries.len() == 0 {
        Seq::empty()
    } else {
        let rest = history_spec(r, entries.drop_last());
        let e = entries.last();
        if is_hidden(r, e.device.id) {
            rest
        } else {
            rest.push((e.device.id, match e.sightings {
                Some(s) => Some(sighting_reports(r, e.device, s@)),
                None => None,
            }))
        }
    }
}

/// The history lists exactly the devices whose configuration does not set
/// `hidden` to true: a device with no configuration, or with `hidden` unset
/// or false, has its entry (its id, and the reports on its sightings when
/// they could be had), and every entry listed is such a device's.
pub proof fn law_history_lists_devices_not_hidden(r: ReporterView, entries: Seq<DeviceHistory>)
    ensures
        forall|i: int| 0 <= i < entries.len()
            && !(r.device_config.contains_key((#[trigger] entries[i]).device.id)
                && r.device_config[entries[i].device.id].hidden == Some(true))
            ==> exists|k: int| 0 <= k < history_spec(r, entries).len()
                && (#[trigger] history_spec(r, entries)[k]) == (entries[i].device.id, match entries[i].sightings {
                    Some(s) => Some(sighting_reports(r, entries[i].device, s@)),
                    None => None,
                }),
        forall|k: int| 0 <= k < history_spec(r, entries).len() ==> exists|i: int| 0 <= i < entries.len()
            && !(r.device_config.contains_key((#[trigger] entries[i]).device.id)
                && r.device_config[entries[i].device.id].hidden == Some(true))
            && (#[trigger] history_spec(r, entries)[k]) == (entries[i].device.id, match entries[i].sightings {
                Some(s) => Some(sighting_reports(r, entries[i].device, s@)),
                None => None,
            }),
    decreases entries.len(),
{
    if entries.len() > 0 {
        let init = entries.drop_last();
        law_history_lists_devices_not_hidden(r, init);
        let n = entries.len() - 1;
        let rest = history_spec(r, init);
        let h = history_spec(r, entries);
        assert(entries.last() == entries[n]);
        assert forall|i: int| 0 <= i < init.len() implies #[trigger] init[i] == entries[i] by {}
        assert forall|k: int| 0 <= k < rest.len() implies #[trigger] h[k] == rest[k] by {}
        assert forall|i: int| 0 <= i < entries.len()
            && !(r.device_config.contains_key((#[trigger] entries[i]).device.id)
                && r.device_config[entries[i].device.id].hidden == Some(true))
            implies exists|k: int| 0 <= k < h.len()
                && (#[trigger] h[k]) == (entries[i].device.id, match entries[i].sightings {
                    Some(s) => Some(sighting_reports(r, entries[i].device, s@)),
                    None => None,
                }) by {
            if i < n {
                assert(init[i] == entries[i]);
                let k = choose|k: int| 0 <= k < rest.len()
                    && (#[trigger] rest[k]) == (init[i].device.id, match init[i].sightings {
                        Some(s) => Some(sighting_reports(r, init[i].device, s@)),
                        None => None,
                    });
                assert(h[k] == rest[k]);
            } else {
                assert(h[rest.len() as int] == h.last());
            }
        }
        assert forall|k: int| 0 <= k < h.len() implies exists|i: int| 0 <= i < entries.len()
            && !(r.device_config.contains_key((#[trigger] entries[i]).device.id)
                && r.device_config[entries[i].device.id].hidden == Some(true))
            && (#[trigger] h[k]) == (entries[i].device.id, match entries[i].sightings {
                Some(s) => Some(sighting_reports(r, entries[i].device, s@)),
                None => None,
            }) by {
            if k < rest.len() {
                assert(h[k] == rest[k]);
                let i = choose|i: int| 0 <= i < init.len()
                    && !(r.device_config.contains_key((#[trigger] init[i]).device.id)
                        && r.device_config[init[i].device.id].hidden == Some(true))
                    && (#[trigger] rest[k]) == (init[i].device.id, match init[i].sightings {
                        Some(s) => Some(sighting_reports(r, init[i].device, s@)),
                        None => None,
                    });
                assert(init[i] == entries[i]);
            } else {
                assert(entries[n] == entries.last());
            }
        }
    }
}

/// The mathematical value of a list of device histories.
pub open spec fn history_views(h: Seq<(u32, Option<Vec<Report>>)>) -> Seq<(u32, Option<Seq<ReportView>>)> {
    h.map_values(|e: (u32, Option<Vec<Report>>)| (e.0, match e.1 {
        Some(v) => Some(v@.map_values(|x: Report| x@)),
        None => None,
    }))
}

/// Every sighting can be reported: it has a measure per landmark and its
/// next fix time can be computed.
pub open spec fn sightings_reportable(r: ReporterView, entries: Seq<DeviceHistory>) -> bool {
    forall|i: int| 0 <= i < entries.len() ==> ((#[trigger] entries[i]).sightings matches Some(s) ==> forall|j: int|
        0 <= j < s@.len() ==> (#[trigger] s@[j]).observation.measures@.len() == r.landmarks.len()
            && next_fix_in_range(r, entries[i].device, s@[j].position@))
}

fn reports_for(reporter: &Reporter, device: &Device, sightings: &Vec<Sighting>) -> (r: Vec<Report>)
    requires
        forall|j: int| 0 <= j < sightings@.len() ==> (#[trigger] sightings@[j]).observation.measures@.len() == reporter@.landmarks.len()
            && next_fix_in_range(reporter@, *device, sightings@[j].position@),
    ensures
        r@.map_values(|x: Report| x@) == sighting_reports(reporter@, *device, sightings@),
{
    let mut out: Vec<Report> = Vec::new();
    let mut j: usize = 0;
    while j < sightings.len()
        invariant
            j <= sightings@.len(),
            out@.len() == j,
            forall|j: int| 0 <= j < sightings@.len() ==> (#[trigger] sightings@[j]).observation.measures@.len() == reporter@.landmarks.len()
                && next_fix_in_range(reporter@, *device, sightings@[j].position@),
            forall|k: int| 0 <= k < j ==> #[trigger] out@[k]@ == sighting_reports(reporter@, *device, sightings@)[k],
        decreases sightings@.len() - j,
    {
        let s = &sightings[j];
        out.push(reporter.report_device(device, &s.position, &s.observation));
        j += 1;
    }
    assert(out@.map_values(|x: Report| x@) =~= sighting_reports(reporter@, *device, sightings@));
    out
}

/// The reports on the recent positions of every device that is not hidden.
pub fn history_reports(reporter: &Reporter, entries: &Vec<DeviceHistory>) -> (r: Vec<(u32, Option<Vec<Report>>)>)
    requires
        sightings_reportable(reporter@, entries@),
    ensures
        history_views(r@) == history_spec(reporter@, entries@),
{
    let mut out: Vec<(u32, Option<Vec<Report>>)> = Vec::new();
    let mut i: usize = 0;
    while i < entries.len()
        invariant
            i <= entries@.len(),
            sightings_reportable(reporter@, entries@),
            history_views(out@) == history_spec(reporter@, entries@.take(i as int)),
        decreases entries@.len() - i,
    {
        assert(entries@.take(i + 1).drop_last() =~= entries@.take(i as int));
        assert(entries@.take(i + 1).last() == entries@[i as int]);
        let entry = &entries[i];
        let hidden = match reporter.device_config(entry.device.id) {
            Some(c) => match c.hidden {
                Some(h) => h,
                None => false,
            },
            None => false,
        };
        if !hidden {
            let reports = match &entry.sightings {
                Some(s) => Some(reports_for(reporter, &entry.device, s)),
                None => None,
            };
            let ghost before = out@;
            out.push((entry.device.id, reports));
            assert(history_views(out@) =~= history_views(before).push(history_views(out@).last()));
        }
        i += 1;
    }
    assert(entries@.take(entries@.len() as int) =~= entries@);
    out
}

} // verus!
