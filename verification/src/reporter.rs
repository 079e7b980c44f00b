use std::collections::HashMap;

use vstd::prelude::*;

use crate::devices::{Device, DeviceConfig};
use crate::geofences::GeoFenceResponse;
use crate::positions::{Position, PositionView};
use crate::report::{texts, Coordinate, Report, ReportPosition, ReportPositionView, ReportView};
use crate::time::{checked_add_seconds, MAX_TIMESTAMP_SECS};

use crate::lookup::{first_index_of, lemma_first_index_of};

verus! {

/// A named reference point.
#[derive(Debug)]
pub struct Landmark {
    pub name: String,
    pub position: Coordinate,
}

impl Clone for Landmark {
    fn clone(&self) -> (r: Self)
        ensures
            r == *self,
    {
        Landmark { name: self.name.clone(), position: self.position }
    }
}

/// What the geodesic computation gives for one landmark and a device
/// position, as bit patterns of `f64` values: the distance in meters, that
/// distance rounded to whole meters, and the bearing from the landmark to the
/// device in degrees.
#[derive(Clone, Copy, Debug, PartialEq, Eq, Structural)]
pub struct LandmarkMeasure {
    pub distance: u64,
    pub rounded_distance: u64,
    pub bearing: u64,
}

/// What is computed from a position fix before it is reported: how many
/// seconds ago it was taken (rounded), and its measures to each landmark of
/// the reporter, in the reporter's landmark order.
#[derive(Debug)]
pub struct Observation {
    pub seconds_ago: u32,
    pub measures: Vec<LandmarkMeasure>,
}

/// The key by which `f64::total_cmp` orders values, as its documentation
/// defines it on the bit patterns: non-negative values keep their bits,
/// negative ones have all but the sign bit flipped.
pub open spec fn total_order_key(bits: u64) -> int {
    if bits < 0x8000_0000_0000_0000u64 { bits as int } else { 0x7FFF_FFFF_FFFF_FFFF - bits }
}

/// The total-order key of an `f64` given by its bit pattern.
pub fn total_order_key_of(bits: u64) -> (k: i64)
    ensures
        k == total_order_key(bits),
{
    if bits < 0x8000_0000_0000_0000u64 {
        bits as i64
    } else {
        let low = bits - 0x8000_0000_0000_0000u64;
        -1 - (low as i64)
    }
}

/// The index of the closest landmark: the first one among those at the
/// smallest distance.
pub open spec fn closest_index(ms: Seq<LandmarkMeasure>) -> int
    decreases ms.len(),
{
    if ms.len() <= 1 {
        0
    } else {
        let i = closest_index(ms.drop_last());
        if total_order_key(ms.last().distance) < total_order_key(ms[i].distance) { ms.len() - 1 } else { i }
    }
}

/// The index of the first geofence with the given id, if any.
pub open spec fn first_fence_index(fences: Seq<GeoFenceResponse>, id: u32) -> Option<int> {
    first_index_of(fences.map_values(|e: GeoFenceResponse| e.id), id)
}

/// The names of the known geofences among the given ids, in the order of
/// the ids; unknown ids are skipped.
pub open spec fn fence_names(ids: Seq<u32>, fences: Seq<GeoFenceResponse>) -> Seq<Seq<char>>
    decreases ids.len(),
{
    if ids.len() == 0 {
        Seq::empty()
    } else {
        let rest = fence_names(ids.drop_last(), fences);
        match first_fence_index(fences, ids.last()) {
            Some(i) => rest.push(fences[i].name@),
            None => rest,
        }
    }
}

/// The mathematical state of a [`Reporter`].
pub struct ReporterView {
    pub landmarks: Seq<Landmark>,
    pub geofences: Seq<GeoFenceResponse>,
    pub device_config: Map<u32, DeviceConfig>,
}

/// Holds reference points, geofences and device preferences, and describes
/// positions with this context.
#[derive(Debug)]
pub struct Reporter {
    landmarks: Vec<Landmark>,
    geofences: Vec<GeoFenceResponse>,
    device_config: HashMap<u32, DeviceConfig>,
}

impl View for Reporter {
    type V = ReporterView;

    closed spec fn view(&self) -> ReporterView {
        ReporterView {
            landmarks: self.landmarks@,
            geofences: self.geofences@,
            device_config: self.device_config@,
        }
    }
}

/// The preferences configured for a device, if any.
pub open spec fn config_of(r: ReporterView, id: u32) -> Option<DeviceConfig> {
    if r.device_config.contains_key(id) { Some(r.device_config[id]) } else { None }
}

/// The name under which a device is reported: its configured display name,
/// or else its own name.
pub open spec fn display_name_of(r: ReporterView, device: Device) -> Seq<char> {
    match config_of(r, device.id) {
        Some(c) => match c.display_name {
            Some(n) => n@,
            None => device.name@,
        },
        None => device.name@,
    }
}

/// Whether the fix counts as on time: only when a timeout is configured,
/// and then when it is younger than the timeout.
pub open spec fn in_timeout_of(r: ReporterView, device: Device, seconds_ago: u32) -> Option<bool> {
    match config_of(r, device.id) {
        Some(c) => match c.report_timeout_seconds {
            Some(t) => Some(seconds_ago < t),
            None => None,
        },
        None => None,
    }
}

/// When the next fix is expected: the fix time plus the configured update
/// interval, if one is configured.
pub open spec fn expected_next_fix_of(r: ReporterView, device: Device, position: PositionView) -> Option<crate::time::Timestamp> {
    match config_of(r, device.id) {
        Some(c) => match c.predict_update_interval_seconds {
            Some(s) => Some(position.fix_time.plus_seconds(s as int)),
            None => None,
        },
        None => None,
    }
}

/// Where the device is reported: in the known geofences it lies in, else
/// relative to the closest landmark, else at its bare coordinate.
pub open spec fn report_position_of(r: ReporterView, position: PositionView, measures: Seq<LandmarkMeasure>) -> ReportPositionView {
    let fences = fence_names(position.geofence_ids, r.geofences);
    if fences.len() > 0 {
        ReportPositionView::InGeofences(fences)
    } else if r.landmarks.len() == 0 {
        ReportPositionView::BarePosition(Coordinate { x: position.longitude, y: position.latitude })
    } else {
        let i = closest_index(measures);
        ReportPositionView::RelativeTo {
            distance: measures[i].rounded_distance,
            bearing: measures[i].bearing,
            name: r.landmarks[i].name@,
        }
    }
}

/// The report on a device at a position.
pub open spec fn report_of(r: ReporterView, device: Device, position: PositionView, seconds_ago: u32, measures: Seq<LandmarkMeasure>) -> ReportView {
    ReportView {
        name: display_name_of(r, device),
        position: report_position_of(r, position, measures),
        in_timeout: in_timeout_of(r, device, seconds_ago),
        seconds_ago,
        next_update_expected: expected_next_fix_of(r, device, position),
    }
}

/// The expected time of the next fix can be computed: when an update
/// interval is configured, the fix time is a valid date-time and adding the
/// interval stays in range.
pub open spec fn next_fix_in_range(r: ReporterView, device: Device, position: PositionView) -> bool {
    match config_of(r, device.id) {
        Some(c) => match c.predict_update_interval_seconds {
            Some(s) => position.fix_time.is_valid() && position.fix_time.secs + s <= MAX_TIMESTAMP_SECS,
            None => true,
        },
        None => true,
    }
}

proof fn lemma_closest_index_bounds(ms: Seq<LandmarkMeasure>)
    requires
        ms.len() > 0,
    ensures
        0 <= closest_index(ms) < ms.len(),
    decreases ms.len(),
{
    if ms.len() > 1 {
        lemma_closest_index_bounds(ms.drop_last());
    }
}

/// The landmark a report is relative to is a closest one: no landmark is
/// nearer, and every landmark listed before it is strictly farther.
pub proof fn law_reported_landmark_is_closest(ms: Seq<LandmarkMeasure>)
    requires
        ms.len() > 0,
    ensures
        0 <= closest_index(ms) < ms.len(),
        forall|j: int| 0 <= j < ms.len() ==> total_order_key(ms[closest_index(ms)].distance) <= total_order_key(#[trigger] ms[j].distance),
        forall|j: int| 0 <= j < closest_index(ms) ==> total_order_key(ms[closest_index(ms)].distance) < total_order_key(#[trigger] ms[j].distance),
    decreases ms.len(),
{
    if ms.len() > 1 {
        let init = ms.drop_last();
        law_reported_landmark_is_closest(init);
        assert forall|j: int| 0 <= j < init.len() implies #[trigger] init[j] == ms[j] by {}
        let i = closest_index(init);
        let n = ms.len() - 1;
        assert(ms[i] == init[i]);
        assert(ms.last() == ms[n]);
        let c = closest_index(ms);
        assert forall|j: int| 0 <= j < ms.len() implies total_order_key(ms[c].distance) <= total_order_key(#[trigger] ms[j].distance) by {
            if j < n {
                assert(init[j] == ms[j]);
            }
        }
        assert forall|j: int| 0 <= j < c implies total_order_key(ms[c].distance) < total_order_key(#[trigger] ms[j].distance) by {
            if j < n {
                assert(init[j] == ms[j]);
            }
        }
    }
}

/// A report follows the device's configuration. The device is reported
/// under the display name its configuration gives, and under its own name in
/// every other case: with no configuration, or with a configuration that
/// sets no display name. The fix is on time or late only when a report
/// timeout is configured, and then on time exactly when it is younger than
/// the timeout. A next fix is expected only when an update interval is
/// configured, that interval after the fix time. The age is the one given.
pub proof fn law_report_follows_device_config(r: ReporterView, device: Device, position: PositionView, seconds_ago: u32, measures: Seq<LandmarkMeasure>)
    ensures
        ({
            let report = report_of(r, device, position, seconds_ago, measures);
            let configured = r.device_config.contains_key(device.id);
            let c = r.device_config[device.id];
            &&& (configured && c.display_name is Some) ==> report.name == c.display_name->0@
            &&& !(configured && c.display_name is Some) ==> report.name == device.name@
            &&& (configured && c.report_timeout_seconds is Some)
                ==> report.in_timeout == Some(seconds_ago < c.report_timeout_seconds->0)
            &&& !(configured && c.report_timeout_seconds is Some) ==> report.in_timeout is None
            &&& (configured && c.predict_update_interval_seconds is Some)
                ==> report.next_update_expected == Some(position.fix_time.plus_seconds(c.predict_update_interval_seconds->0 as int))
            &&& !(configured && c.predict_update_interval_seconds is Some) ==> report.next_update_expected is None
            &&& report.seconds_ago == seconds_ago
        }),
{
}

/// The key orders bit patterns as `f64::total_cmp` orders the values they
/// stand for: among values with the sign bit clear, a larger pattern is a
/// larger value; among values with the sign bit set, a larger pattern is a
/// smaller value; every value with the sign bit set comes before every value
/// with it clear. In particular no two different patterns share a key.
pub proof fn law_total_order_key_follows_total_cmp(a: u64, b: u64)
    ensures
        a < 0x8000_0000_0000_0000u64 && b < 0x8000_0000_0000_0000u64
            ==> (total_order_key(a) < total_order_key(b) <==> a < b),
        a >= 0x8000_0000_0000_0000u64 && b >= 0x8000_0000_0000_0000u64
            ==> (total_order_key(a) < total_order_key(b) <==> a > b),
        a >= 0x8000_0000_0000_0000u64 && b < 0x8000_0000_0000_0000u64
            ==> total_order_key(a) < total_order_key(b),
        total_order_key(a) == total_order_key(b) <==> a == b,
{
}

/// Among landmarks at non-negative distances (sign bit clear, the case of
/// every measured distance), the reported one has the smallest distance,
/// and every landmark listed before it is strictly farther.
pub proof fn law_reported_landmark_is_nearest(ms: Seq<LandmarkMeasure>)
    requires
        ms.len() > 0,
        forall|j: int| 0 <= j < ms.len() ==> (#[trigger] ms[j]).distance < 0x8000_0000_0000_0000u64,
    ensures
        forall|j: int| 0 <= j < ms.len() ==> ms[closest_index(ms)].distance <= (#[trigger] ms[j]).distance,
        forall|j: int| 0 <= j < closest_index(ms) ==> ms[closest_index(ms)].distance < (#[trigger] ms[j]).distance,
{
    law_reported_landmark_is_closest(ms);
    let c = closest_index(ms);
    assert forall|j: int| 0 <= j < ms.len() implies ms[c].distance <= (#[trigger] ms[j]).distance by {
        law_total_order_key_follows_total_cmp(ms[j].distance, ms[c].distance);
    }
    assert forall|j: int| 0 <= j < c implies ms[c].distance < (#[trigger] ms[j]).distance by {
        law_total_order_key_follows_total_cmp(ms[c].distance, ms[j].distance);
    }
}

/// A device inside a known geofence is reported by its geofences, and each
/// known geofence it is in is named in the report.
pub proof fn law_known_geofences_are_reported(r: ReporterView, position: PositionView, measures: Seq<LandmarkMeasure>, k: int)
    requires
        0 <= k < position.geofence_ids.len(),
        first_fence_index(r.geofences, position.geofence_ids[k]) is Some,
    ensures
        ({
            let i = first_fence_index(r.geofences, position.geofence_ids[k])->0;
            report_position_of(r, position, measures) == ReportPositionView::InGeofences(fence_names(position.geofence_ids, r.geofences))
                && fence_names(position.geofence_ids, r.geofences).contains(r.geofences[i].name@)
        }),
{
    lemma_fence_names_contains(position.geofence_ids, r.geofences, k);
}

proof fn lemma_fence_names_contains(ids: Seq<u32>, fences: Seq<GeoFenceResponse>, k: int)
    requires
        0 <= k < ids.len(),
        first_fence_index(fences, ids[k]) is Some,
    ensures
        fence_names(ids, fences).contains(fences[first_fence_index(fences, ids[k])->0].name@),
    decreases ids.len(),
{
    let i = first_fence_index(fences, ids[k])->0;
    let rest = fence_names(ids.drop_last(), fences);
    if k == ids.len() - 1 {
        assert(ids.last() == ids[k]);
        assert(fence_names(ids, fences) == rest.push(fences[i].name@));
        assert(fence_names(ids, fences)[rest.len() as int] == fences[i].name@);
    } else {
        assert(ids.drop_last()[k] == ids[k]);
        lemma_fence_names_contains(ids.drop_last(), fences, k);
        let m = choose|m: int| 0 <= m < rest.len() && rest[m] == fences[i].name@;
        match first_fence_index(fences, ids.last()) {
            Some(j) => assert(fence_names(ids, fences)[m] == fences[i].name@),
            None => {},
        }
    }
}

proof fn lemma_first_fence_index(fences: Seq<GeoFenceResponse>, id: u32)
    ensures
        match first_fence_index(fences, id) {
            Some(i) => 0 <= i < fences.len() && fences[i].id == id
                && forall|k: int| 0 <= k < i ==> #[trigger] fences[k].id != id,
            None => forall|k: int| 0 <= k < fences.len() ==> #[trigger] fences[k].id != id,
        },
{
    let keys = fences.map_values(|e: GeoFenceResponse| e.id);
    lemma_first_index_of(keys, id);
    assert forall|k: int| 0 <= k < fences.len() implies #[trigger] fences[k].id == keys[k] by {}
}

impl Reporter {
    /// A reporter with no landmarks, no geofences and no device preferences.
    pub fn new() -> (r: Self)
        ensures
            r@.landmarks == Seq::<Landmark>::empty(),
            r@.geofences == Seq::<GeoFenceResponse>::empty(),
            r@.device_config == Map::<u32, DeviceConfig>::empty(),
    {
        Self { landmarks: Vec::new(), geofences: Vec::new(), device_config: HashMap::new() }
    }

    /// Replaces the landmarks.
    pub fn landmarks_set(&mut self, slice: &[Landmark])
        ensures
            final(self)@.landmarks == slice@,
            final(self)@.geofences == old(self)@.geofences,
            final(self)@.device_config == old(self)@.device_config,
    {
        self.landmarks.clear();
        self.landmarks.extend_from_slice(slice);
        assert(self.landmarks@ =~= slice@);
    }

    /// Replaces the geofences.
    pub fn geofences_set(&mut self, slice: &[GeoFenceResponse])
        ensures
            final(self)@.geofences == slice@,
            final(self)@.landmarks == old(self)@.landmarks,
            final(self)@.device_config == old(self)@.device_config,
    {
        self.geofences.clear();
        self.geofences.extend_from_slice(slice);
        assert(self.geofences@ =~= slice@);
    }

    /// Sets the preferences of a device.
    pub fn config_set(&mut self, device_id: u32, config: DeviceConfig)
        ensures
            final(self)@.device_config == old(self)@.device_config.insert(device_id, config),
            final(self)@.landmarks == old(self)@.landmarks,
            final(self)@.geofences == old(self)@.geofences,
    {
        self.device_config.insert(device_id, config);
    }

    /// The index of the first geofence with the given id.
    fn fence_index(&self, id: u32) -> (r: Option<usize>)
        ensures
            r matches Some(k) ==> k < self@.geofences.len() && first_fence_index(self@.geofences, id) == Some(k as int),
            r is None ==> first_fence_index(self@.geofences, id) is None,
    {
        let mut j: usize = 0;
        while j < self.geofences.len()
            invariant
                j <= self.geofences@.len(),
                forall|k: int| 0 <= k < j ==> #[trigger] self@.geofences[k].id != id,
            decreases self.geofences@.len() - j,
        {
            if self.geofences[j].id == id {
                proof { lemma_first_fence_index(self@.geofences, id); }
                return Some(j);
            }
            j += 1;
        }
        proof { lemma_first_fence_index(self@.geofences, id); }
        None
    }

    /// The landmarks, in order.
    pub fn landmarks(&self) -> (r: &[Landmark])
        ensures
            r@ == self@.landmarks,
    {
        self.landmarks.as_slice()
    }

    /// The preferences of a device, if it has any.
    pub fn device_config(&self, id: u32) -> (r: Option<&DeviceConfig>)
        ensures
            match r {
                Some(c) => config_of(self@, id) == Some(*c),
                None => config_of(self@, id) is None,
            },
    {
        self.device_config.get(&id)
    }

    /// The names of the known geofences among the given ids.
    fn fence_names_of(&self, ids: &Vec<u32>) -> (names: Vec<String>)
        ensures
            texts(names@) == fence_names(ids@, self@.geofences),
    {
        let mut names: Vec<String> = Vec::new();
        let mut i: usize = 0;
        while i < ids.len()
            invariant
                i <= ids@.len(),
                texts(names@) == fence_names(ids@.take(i as int), self@.geofences),
            decreases ids@.len() - i,
        {
            assert(ids@.take(i + 1).drop_last() =~= ids@.take(i as int));
            assert(ids@.take(i + 1).last() == ids@[i as int]);
            let id = ids[i];
            let found = self.fence_index(id);
            match found {
                Some(k) => {
                    let ghost before = names@;
                    names.push(self.geofences[k].name.clone());
                    assert(texts(names@) =~= texts(before).push(self@.geofences[k as int].name@));
                },
                None => {},
            }
            i += 1;
        }
        assert(ids@.take(ids@.len() as int) =~= ids@);
        names
    }

    /// The index of the closest landmark among the measures.
    fn closest_landmark(measures: &Vec<LandmarkMeasure>) -> (i: usize)
        requires
            measures@.len() > 0,
        ensures
            i == closest_index(measures@),
    {
        let mut best: usize = 0;
        let mut best_key = total_order_key_of(measures[0].distance);
        let mut k: usize = 1;
        while k < measures.len()
            invariant
                1 <= k <= measures@.len(),
                best == closest_index(measures@.take(k as int)),
                best < k,
                best_key == total_order_key(measures@[best as int].distance),
            decreases measures@.len() - k,
        {
            assert(measures@.take(k + 1).drop_last() =~= measures@.take(k as int));
            let key = total_order_key_of(measures[k].distance);
            if key < best_key {
                best = k;
                best_key = key;
            }
            k += 1;
        }
        assert(measures@.take(measures@.len() as int) =~= measures@);
        best
    }

    /// Describes a device at a position, given what was computed from the
    /// fix: its age and its measures to each landmark.
    pub fn report_device(&self, device: &Device, position: &Position, observation: &Observation) -> (report: Report)
        requires
            observation.measures@.len() == self@.landmarks.len(),
            next_fix_in_range(self@, *device, position@),
        ensures
            report@ == report_of(self@, *device, position@, observation.seconds_ago, observation.measures@),
    {
        let device_config = self.device_config.get(&device.id);
        let seconds_ago = observation.seconds_ago;
        let name: String = match device_config {
            Some(c) => match &c.display_name {
                Some(n) => n.clone(),
                None => device.name.clone(),
            },
            None => device.name.clone(),
        };
        let expected_next_fix_time = match device_config {
            Some(c) => match c.predict_update_interval_seconds {
                Some(seconds) => checked_add_seconds(position.fix_time, seconds),
                None => None,
            },
            None => None,
        };
        let in_timeout = match device_config {
            Some(c) => match c.report_timeout_seconds {
                Some(timeout_seconds) => Some(seconds_ago < timeout_seconds),
                None => None,
            },
            None => None,
        };
        let fences = self.fence_names_of(&position.geofence_ids);
        if fences.len() > 0 {
            return Report::new(name, ReportPosition::InGeofences(fences), in_timeout, seconds_ago, expected_next_fix_time);
        }
        let position_report = if self.landmarks.len() == 0 {
            ReportPosition::BarePosition(Coordinate { x: position.longitude, y: position.latitude })
        } else {
            let i = Self::closest_landmark(&observation.measures);
            proof { lemma_closest_index_bounds(observation.measures@); }
            let measure = observation.measures[i];
            ReportPosition::RelativeTo {
                distance: measure.rounded_distance,
                bearing: measure.bearing,
                name: self.landmarks[i].name.clone(),
            }
        };
        Report::new(name, position_report, in_timeout, seconds_ago, expected_next_fix_time)
    }
}

impl Default for Reporter {
    fn default() -> (r: Self)
        ensures
            r@.landmarks == Seq::<Landmark>::empty(),
            r@.geofences == Seq::<GeoFenceResponse>::empty(),
            r@.device_config == Map::<u32, DeviceConfig>::empty(),
    {
        Self::new()
    }
}

} // verus!
