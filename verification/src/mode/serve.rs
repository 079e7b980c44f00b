use vstd::prelude::*;

use vstd::string::*;

use crate::report::{fences_of, texts, Report, ReportView};
use crate::time::{span_between, checked_add_seconds, Span, Timestamp, MAX_TIMESTAMP_SECS};

use crate::lookup::{first_index_of, lemma_first_index_of};

verus! {

/// Whether a device entered or left a geofence.
#[derive(Clone, Copy, Debug, PartialEq, Eq, Structural)]
pub enum GeoFenceAction {
    Exited,
    Entered,
}

/// A device entering or leaving a geofence.
#[derive(Debug)]
pub struct GeoFenceMovement {
    device_name: String,
    geofence_name: String,
    action: GeoFenceAction,
}

/// The mathematical value of a [`GeoFenceMovement`].
pub struct GeoFenceMovementView {
    pub device_name: Seq<char>,
    pub geofence_name: Seq<char>,
    pub action: GeoFenceAction,
}

impl View for GeoFenceMovement {
    type V = GeoFenceMovementView;

    closed spec fn view(&self) -> GeoFenceMovementView {
        GeoFenceMovementView {
            device_name: self.device_name@,
            geofence_name: self.geofence_name@,
            action: self.action,
        }
    }
}

/// The views of a sequence of movements.
pub open spec fn movement_views(v: Seq<GeoFenceMovement>) -> Seq<GeoFenceMovementView> {
    v.map_values(|m: GeoFenceMovement| m@)
}

/// The fences of `fences`, in order, that `other` does not hold.
pub open spec fn fences_not_in(fences: Seq<Seq<char>>, other: Seq<Seq<char>>) -> Seq<Seq<char>>
    decreases fences.len(),
{
    if fences.len() == 0 {
        Seq::empty()
    } else {
        let rest = fences_not_in(fences.drop_last(), other);
        if other.contains(fences.last()) { rest } else { rest.push(fences.last()) }
    }
}

/// One movement per fence, all of the named device and the given kind.
pub open spec fn movements_for(device: Seq<char>, fences: Seq<Seq<char>>, action: GeoFenceAction) -> Seq<GeoFenceMovementView> {
    fences.map_values(|f: Seq<char>| GeoFenceMovementView { device_name: device, geofence_name: f, action })
}

/// The movements from one report of a device to the next: the geofences
/// entered (in the new report's order), then those left (in the old
/// report's order).
pub open spec fn movements_between(old: ReportView, new: ReportView) -> Seq<GeoFenceMovementView> {
    let before = fences_of(old.position);
    let after = fences_of(new.position);
    movements_for(old.name, fences_not_in(after, before), GeoFenceAction::Entered)
        + movements_for(old.name, fences_not_in(before, after), GeoFenceAction::Exited)
}

proof fn lemma_fences_not_in(fences: Seq<Seq<char>>, other: Seq<Seq<char>>)
    ensures
        forall|k: int| 0 <= k < fences_not_in(fences, other).len() ==>
            fences.contains(#[trigger] fences_not_in(fences, other)[k]) && !other.contains(fences_not_in(fences, other)[k]),
        forall|f: Seq<char>| #[trigger] fences.contains(f) && !other.contains(f) ==> fences_not_in(fences, other).contains(f),
    decreases fences.len(),
{
    if fences.len() > 0 {
        let init = fences.drop_last();
        lemma_fences_not_in(init, other);
        let rest = fences_not_in(init, other);
        assert forall|f: Seq<char>| #[trigger] init.contains(f) implies fences.contains(f) by {
            let k = choose|k: int| 0 <= k < init.len() && init[k] == f;
            assert(fences[k] == f);
        }
        assert forall|f: Seq<char>| #[trigger] fences.contains(f) && !other.contains(f) implies fences_not_in(fences, other).contains(f) by {
            let k = choose|k: int| 0 <= k < fences.len() && fences[k] == f;
            if k < fences.len() - 1 {
                assert(init[k] == f);
                assert(init.contains(f));
                let m = choose|m: int| 0 <= m < rest.len() && rest[m] == f;
                if !other.contains(fences.last()) {
                    assert(rest.push(fences.last())[m] == f);
                }
            } else {
                assert(rest.push(fences.last())[rest.len() as int] == f);
            }
        }
        assert forall|k: int| 0 <= k < fences_not_in(fences, other).len() implies
            fences.contains(#[trigger] fences_not_in(fences, other)[k]) && !other.contains(fences_not_in(fences, other)[k]) by {
            if k < rest.len() {
                assert(fences_not_in(fences, other)[k] == rest[k]);
                assert(init.contains(rest[k]));
            } else {
                assert(fences_not_in(fences, other)[k] == fences.last());
                assert(fences[fences.len() - 1] == fences.last());
            }
        }
    }
}

/// A report that keeps the same geofences as the previous one brings no
/// movement.
pub proof fn law_same_fences_no_movement(old: ReportView, new: ReportView)
    requires
        fences_of(old.position) == fences_of(new.position),
    ensures
        movements_between(old, new).len() == 0,
{
    let f = fences_of(old.position);
    lemma_fences_not_in(f, f);
    if fences_not_in(f, f).len() > 0 {
        assert(f.contains(fences_not_in(f, f)[0]));
    }
}

/// The movements are exactly the differences of the geofence lists: every
/// entered geofence is in the new report and not the old one, every left
/// geofence is in the old report and not the new one, and every geofence in
/// one list and not the other gives a movement.
pub proof fn law_movements_are_fence_differences(old: ReportView, new: ReportView)
    ensures
        ({
            let before = fences_of(old.position);
            let after = fences_of(new.position);
            let ms = movements_between(old, new);
            &&& forall|k: int| 0 <= k < ms.len() ==> (#[trigger] ms[k]).device_name == old.name
            &&& forall|k: int| 0 <= k < ms.len() && (#[trigger] ms[k]).action == GeoFenceAction::Entered
                ==> after.contains(ms[k].geofence_name) && !before.contains(ms[k].geofence_name)
            &&& forall|k: int| 0 <= k < ms.len() && (#[trigger] ms[k]).action == GeoFenceAction::Exited
                ==> before.contains(ms[k].geofence_name) && !after.contains(ms[k].geofence_name)
            &&& forall|f: Seq<char>| #[trigger] after.contains(f) && !before.contains(f) ==> exists|k: int|
                0 <= k < ms.len() && ms[k] == (GeoFenceMovementView { device_name: old.name, geofence_name: f, action: GeoFenceAction::Entered })
            &&& forall|f: Seq<char>| #[trigger] before.contains(f) && !after.contains(f) ==> exists|k: int|
                0 <= k < ms.len() && ms[k] == (GeoFenceMovementView { device_name: old.name, geofence_name: f, action: GeoFenceAction::Exited })
        }),
{
    let before = fences_of(old.position);
    let after = fences_of(new.position);
    lemma_fences_not_in(after, before);
    lemma_fences_not_in(before, after);
    let entered = movements_for(old.name, fences_not_in(after, before), GeoFenceAction::Entered);
    let exited = movements_for(old.name, fences_not_in(before, after), GeoFenceAction::Exited);
    let ms = movements_between(old, new);
    assert(ms == entered + exited);
    assert forall|k: int| 0 <= k < ms.len() implies (#[trigger] ms[k]).device_name == old.name
        && (ms[k].action == GeoFenceAction::Entered ==> after.contains(ms[k].geofence_name) && !before.contains(ms[k].geofence_name))
        && (ms[k].action == GeoFenceAction::Exited ==> before.contains(ms[k].geofence_name) && !after.contains(ms[k].geofence_name)) by {
        if k < entered.len() {
            assert(ms[k] == entered[k]);
            assert(entered[k].geofence_name == fences_not_in(after, before)[k]);
        } else {
            assert(ms[k] == exited[k - entered.len()]);
            assert(exited[k - entered.len()].geofence_name == fences_not_in(before, after)[k - entered.len()]);
        }
    }
    assert forall|f: Seq<char>| #[trigger] after.contains(f) && !before.contains(f) implies exists|k: int|
        0 <= k < ms.len() && ms[k] == (GeoFenceMovementView { device_name: old.name, geofence_name: f, action: GeoFenceAction::Entered }) by {
        let m = choose|m: int| 0 <= m < fences_not_in(after, before).len() && fences_not_in(after, before)[m] == f;
        assert(ms[m] == entered[m]);
    }
    assert forall|f: Seq<char>| #[trigger] before.contains(f) && !after.contains(f) implies exists|k: int|
        0 <= k < ms.len() && ms[k] == (GeoFenceMovementView { device_name: old.name, geofence_name: f, action: GeoFenceAction::Exited }) by {
        let m = choose|m: int| 0 <= m < fences_not_in(before, after).len() && fences_not_in(before, after)[m] == f;
        assert(ms[entered.len() + m] == exited[m]);
    }
}

/// The same movement with entering and leaving exchanged.
pub open spec fn flipped(m: GeoFenceMovementView) -> GeoFenceMovementView {
    GeoFenceMovementView {
        device_name: m.device_name,
        geofence_name: m.geofence_name,
        action: match m.action {
            GeoFenceAction::Exited => GeoFenceAction::Entered,
            GeoFenceAction::Entered => GeoFenceAction::Exited,
        },
    }
}

/// Taking two reports of a device in the other order swaps the movements:
/// the movements list the entered geofences first, then the left ones, and
/// the movements of the swapped pair are the left ones, then the entered
/// ones, each with entering and leaving exchanged.
pub proof fn law_swapped_reports_swap_movements(old: ReportView, new: ReportView)
    requires
        old.name == new.name,
    ensures
        ({
            let ms = movements_between(old, new);
            exists|k: int| #![trigger ms.subrange(0, k)]
                0 <= k <= ms.len()
                && (forall|i: int| 0 <= i < k ==> (#[trigger] ms[i]).action == GeoFenceAction::Entered)
                && (forall|i: int| k <= i < ms.len() ==> (#[trigger] ms[i]).action == GeoFenceAction::Exited)
                && movements_between(new, old) == (ms.subrange(k, ms.len() as int) + ms.subrange(0, k)).map_values(
                    |m: GeoFenceMovementView| flipped(m),
                )
        }),
{
    let before = fences_of(old.position);
    let after = fences_of(new.position);
    let entered = movements_for(old.name, fences_not_in(after, before), GeoFenceAction::Entered);
    let exited = movements_for(old.name, fences_not_in(before, after), GeoFenceAction::Exited);
    let ms = movements_between(old, new);
    let k = entered.len() as int;
    assert(ms == entered + exited);
    assert(ms.subrange(0, k) =~= entered);
    assert(ms.subrange(k, ms.len() as int) =~= exited);
    assert(movements_between(new, old) =~= (ms.subrange(k, ms.len() as int) + ms.subrange(0, k)).map_values(
        |m: GeoFenceMovementView| flipped(m),
    ));
    assert(forall|i: int| 0 <= i < k ==> (#[trigger] ms[i]).action == GeoFenceAction::Entered);
    assert(forall|i: int| k <= i < ms.len() ==> (#[trigger] ms[i]).action == GeoFenceAction::Exited);
}

fn contains_text(v: &[String], s: &String) -> (r: bool)
    ensures
        r == texts(v@).contains(s@),
{
    let mut i: usize = 0;
    while i < v.len()
        invariant
            i <= v@.len(),
            forall|k: int| 0 <= k < i ==> #[trigger] v@[k]@ != s@,
        decreases v@.len() - i,
    {
        if v[i] == *s {
            assert(texts(v@)[i as int] == s@);
            return true;
        }
        i += 1;
    }
    assert forall|k: int| 0 <= k < texts(v@).len() implies #[trigger] texts(v@)[k] != s@ by {
        assert(texts(v@)[k] == v@[k]@);
    }
    false
}

/// Appends to `out` one movement for each fence of `fences` that `other`
/// does not hold.
fn push_movements(
    out: &mut Vec<GeoFenceMovement>,
    device: &String,
    fences: &[String],
    other: &[String],
    action: GeoFenceAction,
)
    ensures
        movement_views(final(out)@) == movement_views(old(out)@) + movements_for(
            device@,
            fences_not_in(texts(fences@), texts(other@)),
            action,
        ),
{
    let ghost start = movement_views(out@);
    let ghost fs = texts(fences@);
    let mut i: usize = 0;
    while i < fences.len()
        invariant
            i <= fences@.len(),
            fs == texts(fences@),
            movement_views(out@) == start + movements_for(device@, fences_not_in(fs.take(i as int), texts(other@)), action),
        decreases fences@.len() - i,
    {
        assert(fs.take(i + 1).drop_last() =~= fs.take(i as int));
        assert(fs.take(i + 1).last() == fences@[i as int]@);
        let held = contains_text(other, &fences[i]);
        if !held {
            let ghost before = out@;
            out.push(GeoFenceMovement {
                device_name: device.clone(),
                geofence_name: fences[i].clone(),
                action,
            });
            assert(movement_views(out@) =~= movement_views(before).push(out@.last()@));
            assert(movements_for(device@, fences_not_in(fs.take(i + 1), texts(other@)), action) =~=
                movements_for(device@, fences_not_in(fs.take(i as int), texts(other@)), action).push(out@.last()@));
        } else {
            assert(fences_not_in(fs.take(i + 1), texts(other@)) == fences_not_in(fs.take(i as int), texts(other@)));
        }
        i += 1;
    }
    assert(fs.take(fences@.len() as int) =~= fs);
}

/// The geofences a device entered and left from one report to the next.
/// Both reports must be of the same device name.
pub fn geofence_movements_from_report(old_report: &Report, new_report: &Report) -> (r: Vec<GeoFenceMovement>)
    requires
        old_report.name@ == new_report.name@,
    ensures
        movement_views(r@) == movements_between(old_report@, new_report@),
{
    let name = &old_report.name;
    let old_fences = old_report.position.geofences();
    let new_fences = new_report.position.geofences();
    let mut movements: Vec<GeoFenceMovement> = Vec::new();
    assert(movement_views(movements@) =~= Seq::<GeoFenceMovementView>::empty());
    push_movements(&mut movements, name, new_fences, old_fences, GeoFenceAction::Entered);
    push_movements(&mut movements, name, old_fences, new_fences, GeoFenceAction::Exited);
    assert(movement_views(movements@) =~= movements_between(old_report@, new_report@));
    movements
}

/// The latest report of each device, one entry per device id.
#[derive(Debug)]
pub struct ReportStore {
    entries: Vec<(u32, Report)>,
}

/// The entries of a store as mathematical values, in insertion order.
pub open spec fn entry_views(entries: Seq<(u32, Report)>) -> Seq<(u32, ReportView)> {
    entries.map_values(|e: (u32, Report)| (e.0, e.1@))
}

impl View for ReportStore {
    type V = Seq<(u32, ReportView)>;

    closed spec fn view(&self) -> Seq<(u32, ReportView)> {
        entry_views(self.entries@)
    }
}

/// The index of the entry of the given device, if the store has one.
pub open spec fn entry_index(s: Seq<(u32, ReportView)>, id: u32) -> Option<int> {
    first_index_of(s.map_values(|e: (u32, ReportView)| e.0), id)
}

/// The report stored for a device, if any.
pub open spec fn stored_report(s: Seq<(u32, ReportView)>, id: u32) -> Option<ReportView> {
    match entry_index(s, id) {
        Some(i) => Some(s[i].1),
        None => None,
    }
}

/// The entries after storing a report: it replaces the device's entry, or
/// is appended when the device has none.
pub open spec fn store_after_add(s: Seq<(u32, ReportView)>, id: u32, r: ReportView) -> Seq<(u32, ReportView)> {
    match entry_index(s, id) {
        Some(i) => s.update(i, (id, r)),
        None => s.push((id, r)),
    }
}

/// No two entries are of the same device.
pub open spec fn store_wf(s: Seq<(u32, ReportView)>) -> bool {
    forall|i: int, j: int| 0 <= i < s.len() && 0 <= j < s.len() && #[trigger] s[i].0 == #[trigger] s[j].0 ==> i == j
}

proof fn lemma_entry_index(s: Seq<(u32, ReportView)>, id: u32)
    ensures
        match entry_index(s, id) {
            Some(i) => 0 <= i < s.len() && s[i].0 == id
                && forall|k: int| 0 <= k < i ==> #[trigger] s[k].0 != id,
            None => forall|k: int| 0 <= k < s.len() ==> #[trigger] s[k].0 != id,
        },
{
    let keys = s.map_values(|e: (u32, ReportView)| e.0);
    lemma_first_index_of(keys, id);
    assert forall|k: int| 0 <= k < s.len() implies #[trigger] s[k].0 == keys[k] by {}
}

proof fn lemma_entry_index_unique(s: Seq<(u32, ReportView)>, id: u32, i: int)
    requires
        store_wf(s),
        0 <= i < s.len(),
        s[i].0 == id,
    ensures
        entry_index(s, id) == Some(i),
{
    lemma_entry_index(s, id);
}

/// Storing a report keeps one entry per device.
pub proof fn law_store_keeps_one_entry_per_device(s: Seq<(u32, ReportView)>, id: u32, r: ReportView)
    requires
        store_wf(s),
    ensures
        store_wf(store_after_add(s, id, r)),
{
    lemma_entry_index(s, id);
    let t = store_after_add(s, id, r);
    assert forall|i: int, j: int| 0 <= i < t.len() && 0 <= j < t.len() && #[trigger] t[i].0 == #[trigger] t[j].0 implies i == j by {
        match entry_index(s, id) {
            Some(k) => {
                if i != k && j != k {
                    assert(s[i].0 == s[j].0);
                } else if i == k && j != k {
                    assert(s[j].0 == id);
                } else if j == k && i != k {
                    assert(s[i].0 == id);
                }
            },
            None => {
                if i < s.len() && j < s.len() {
                    assert(s[i].0 == s[j].0);
                }
            },
        }
    }
}

/// What was stored for a device is what is read back for it.
pub proof fn law_read_after_store(s: Seq<(u32, ReportView)>, id: u32, r: ReportView)
    requires
        store_wf(s),
    ensures
        stored_report(store_after_add(s, id, r), id) == Some(r),
{
    lemma_entry_index(s, id);
    law_store_keeps_one_entry_per_device(s, id, r);
    let t = store_after_add(s, id, r);
    match entry_index(s, id) {
        Some(k) => lemma_entry_index_unique(t, id, k),
        None => lemma_entry_index_unique(t, id, s.len() as int),
    }
}

/// Storing a report of one device leaves what is read for every other
/// device unchanged.
pub proof fn law_store_leaves_other_devices(s: Seq<(u32, ReportView)>, id: u32, r: ReportView, other: u32)
    requires
        store_wf(s),
        other != id,
    ensures
        stored_report(store_after_add(s, id, r), other) == stored_report(s, other),
{
    lemma_entry_index(s, id);
    lemma_entry_index(s, other);
    law_store_keeps_one_entry_per_device(s, id, r);
    let t = store_after_add(s, id, r);
    lemma_entry_index(t, other);
    match entry_index(s, other) {
        Some(k) => {
            assert(t[k].0 == other);
            lemma_entry_index_unique(t, other, k);
        },
        None => {
            assert forall|k: int| 0 <= k < t.len() implies #[trigger] t[k].0 != other by {
                if k < s.len() {
                    assert(s[k].0 != other);
                }
            }
        },
    }
}

/// The entries after storing each report of `adds`, in order.
pub open spec fn store_after_adds(s: Seq<(u32, ReportView)>, adds: Seq<(u32, ReportView)>) -> Seq<(u32, ReportView)>
    decreases adds.len(),
{
    if adds.len() == 0 {
        s
    } else {
        store_after_add(store_after_adds(s, adds.drop_last()), adds.last().0, adds.last().1)
    }
}

/// The report last stored for a device among `adds`, if any.
pub open spec fn last_added(adds: Seq<(u32, ReportView)>, id: u32) -> Option<ReportView>
    decreases adds.len(),
{
    if adds.len() == 0 {
        None
    } else if adds.last().0 == id {
        Some(adds.last().1)
    } else {
        last_added(adds.drop_last(), id)
    }
}

/// After any number of stores, what is read for a device is the report
/// last stored for it, or what was read before when none was stored; the
/// store still holds one entry per device.
pub proof fn law_read_after_stores(s: Seq<(u32, ReportView)>, adds: Seq<(u32, ReportView)>, id: u32)
    requires
        store_wf(s),
    ensures
        store_wf(store_after_adds(s, adds)),
        stored_report(store_after_adds(s, adds), id) == match last_added(adds, id) {
            Some(r) => Some(r),
            None => stored_report(s, id),
        },
    decreases adds.len(),
{
    if adds.len() > 0 {
        let init = adds.drop_last();
        law_read_after_stores(s, init, id);
        let t = store_after_adds(s, init);
        law_store_keeps_one_entry_per_device(t, adds.last().0, adds.last().1);
        if adds.last().0 == id {
            law_read_after_store(t, id, adds.last().1);
        } else {
            law_store_leaves_other_devices(t, adds.last().0, adds.last().1, id);
        }
    }
}

impl ReportStore {
    /// A store never holds two entries of one device.
    #[verifier::type_invariant]
    closed spec fn one_entry_per_device(self) -> bool {
        store_wf(self@)
    }

    /// An empty store.
    pub fn new() -> (s: Self)
        ensures
            s@ == Seq::<(u32, ReportView)>::empty(),
            store_wf(s@),
    {
        let s = Self { entries: Vec::new() };
        assert(s@ =~= Seq::<(u32, ReportView)>::empty());
        s
    }

    fn find_index(&self, device_id: u32) -> (r: Option<usize>)
        ensures
            r matches Some(i) ==> entry_index(self@, device_id) == Some(i as int) && i < self.entries@.len()
                && self@[i as int] == (self.entries@[i as int].0, self.entries@[i as int].1@)
                && self.entries@[i as int].0 == device_id,
            r is None ==> entry_index(self@, device_id) is None,
    {
        proof { lemma_entry_index(self@, device_id); }
        let mut i: usize = 0;
        while i < self.entries.len()
            invariant
                i <= self.entries@.len(),
                self@.len() == self.entries@.len(),
                forall|k: int| 0 <= k < i ==> #[trigger] self@[k].0 != device_id,
            decreases self.entries@.len() - i,
        {
            assert(self@[i as int].0 == self.entries@[i as int].0);
            if self.entries[i].0 == device_id {
                assert(self@[i as int] == (self.entries@[i as int].0, self.entries@[i as int].1@));
                proof { lemma_entry_index(self@, device_id); }
                assert(entry_index(self@, device_id) == Some(i as int));
                return Some(i);
            }
            i += 1;
        }
        None
    }

    /// Stores the latest report of a device and gives the geofences it
    /// entered and left since its previous report (none for a device not
    /// seen before). The device's name must not have changed.
    pub fn add_report(&mut self, device_id: u32, report: Report) -> (movements: Vec<GeoFenceMovement>)
        requires
            stored_report(old(self)@, device_id) matches Some(previous) ==> previous.name == report@.name,
        ensures
            store_wf(final(self)@),
            final(self)@ == store_after_add(old(self)@, device_id, report@),
            movement_views(movements@) == match stored_report(old(self)@, device_id) {
                Some(previous) => movements_between(previous, report@),
                None => Seq::empty(),
            },
    {
        proof {
            use_type_invariant(&*self);
            law_store_keeps_one_entry_per_device(self@, device_id, report@);
        }
        let ghost before = self@;
        let found = self.find_index(device_id);
        let mut entries: Vec<(u32, Report)> = Vec::new();
        std::mem::swap(&mut entries, &mut self.entries);
        assert(entry_views(entries@) == before);
        let movements = match found {
            Some(i) => {
                let movements = geofence_movements_from_report(&entries[i].1, &report);
                entries.set(i, (device_id, report));
                movements
            },
            None => {
                entries.push((device_id, report));
                let movements: Vec<GeoFenceMovement> = Vec::new();
                assert(movement_views(movements@) =~= Seq::<GeoFenceMovementView>::empty());
                movements
            },
        };
        assert(entry_views(entries@) =~= store_after_add(before, device_id, report@));
        self.entries = entries;
        movements
    }

    /// The stored report of a device, if any.
    pub fn get_by_id(&self, id: u32) -> (r: Option<(u32, Report)>)
        ensures
            match r {
                Some(entry) => entry.0 == id && stored_report(self@, id) == Some(entry.1@),
                None => stored_report(self@, id) is None,
            },
    {
        match self.find_index(id) {
            Some(i) => {
                let report = self.entries[i].1.clone();
                assert(report@ == self@[i as int].1);
                Some((self.entries[i].0, report))
            },
            None => None,
        }
    }
}

/// The title of the notification for a movement.
pub open spec fn notification_title(action: GeoFenceAction) -> Seq<char> {
    match action {
        GeoFenceAction::Exited => "Geofence exited"@,
        GeoFenceAction::Entered => "Geofence entered"@,
    }
}

/// The body of the notification for a movement.
pub open spec fn notification_body(m: GeoFenceMovementView) -> Seq<char> {
    match m.action {
        GeoFenceAction::Exited => m.device_name + " has left "@ + m.geofence_name,
        GeoFenceAction::Entered => m.device_name + " has entered "@ + m.geofence_name,
    }
}

/// The title and body of the desktop notification announcing a movement.
pub fn movement_notification(movement: &GeoFenceMovement) -> (r: (&'static str, String))
    ensures
        r.0@ == notification_title(movement@.action),
        r.1@ == notification_body(movement@),
{
    let title = match movement.action {
        GeoFenceAction::Exited => "Geofence exited",
        GeoFenceAction::Entered => "Geofence entered",
    };
    let connective = match movement.action {
        GeoFenceAction::Exited => " has left ",
        GeoFenceAction::Entered => " has entered ",
    };
    let body = String::from_str(movement.device_name.as_str()).concat(connective).concat(movement.geofence_name.as_str());
    (title, body)
}

/// How long after the expected time of the next fix the positions are
/// fetched again.
pub const REFRESH_MARGIN_SECS: u32 = 5;

/// How long to wait before fetching positions again when no next fix is
/// expected, or the expected time has passed.
pub const DEFAULT_REFRESH_SECS: u64 = 30;

/// How long to wait before fetching positions again after a fetch failed.
pub const FETCH_RETRY_SECS: u64 = 20;

/// The earliest expected time of a next fix among the reports, if any
/// report expects one.
pub open spec fn earliest_expected(reports: Seq<ReportView>) -> Option<Timestamp>
    decreases reports.len(),
{
    if reports.len() == 0 {
        None
    } else {
        let rest = earliest_expected(reports.drop_last());
        match reports.last().next_update_expected {
            None => rest,
            Some(t) => match rest {
                None => Some(t),
                Some(e) => if t.is_after(e) { Some(e) } else { Some(t) },
            },
        }
    }
}

/// The refresh is timed on the earliest expected fix: there is one exactly
/// when some report expects a next fix, it is the time one of the reports
/// expects, and no report expects a fix strictly before it.
pub proof fn law_refresh_waits_for_earliest_fix(reports: Seq<ReportView>)
    ensures
        earliest_expected(reports) is Some <==> exists|i: int| 0 <= i < reports.len() && (#[trigger] reports[i]).next_update_expected is Some,
        earliest_expected(reports) matches Some(e) ==> exists|i: int| 0 <= i < reports.len() && (#[trigger] reports[i]).next_update_expected == Some(e),
        earliest_expected(reports) matches Some(e) ==> forall|i: int| 0 <= i < reports.len()
            && (#[trigger] reports[i]).next_update_expected is Some ==> !e.is_after(reports[i].next_update_expected->0),
    decreases reports.len(),
{
    if reports.len() > 0 {
        let init = reports.drop_last();
        law_refresh_waits_for_earliest_fix(init);
        let n = reports.len() - 1;
        assert(reports.last() == reports[n]);
        assert forall|i: int| 0 <= i < init.len() implies #[trigger] init[i] == reports[i] by {}
        if earliest_expected(reports) is Some {
            let e = earliest_expected(reports)->0;
            if earliest_expected(init) is Some {
                let w = choose|i: int| 0 <= i < init.len() && (#[trigger] init[i]).next_update_expected == earliest_expected(init);
                assert(reports[w] == init[w]);
            }
            assert forall|i: int| 0 <= i < reports.len() && (#[trigger] reports[i]).next_update_expected is Some
                implies !e.is_after(reports[i].next_update_expected->0) by {
                if i < n {
                    assert(init[i] == reports[i]);
                }
            }
        } else {
            assert forall|i: int| 0 <= i < reports.len() implies (#[trigger] reports[i]).next_update_expected is None by {
                if i < n {
                    assert(init[i] == reports[i]);
                }
            }
        }
    }
}

/// How long to sleep before fetching positions again: until a margin after
/// the earliest expected fix, or the default when no fix is expected or
/// that moment has passed.
pub open spec fn refresh_delay_spec(reports: Seq<ReportView>, now: Timestamp) -> Span {
    match earliest_expected(reports) {
        None => Span { secs: DEFAULT_REFRESH_SECS as u64, nanos: 0 },
        Some(e) => {
            let target = e.plus_seconds(REFRESH_MARGIN_SECS as int);
            let d = now.nanos_until(target);
            if d >= 0 {
                Span { secs: (d / 1_000_000_000) as u64, nanos: (d % 1_000_000_000) as u32 }
            } else {
                Span { secs: DEFAULT_REFRESH_SECS as u64, nanos: 0 }
            }
        },
    }
}

/// The earliest expected time among the reports, if any, is a valid
/// date-time from which the refresh margin can be added.
pub open spec fn earliest_in_range(reports: Seq<ReportView>) -> bool {
    earliest_expected(reports) matches Some(t) ==> t.is_valid() && t.secs + REFRESH_MARGIN_SECS <= MAX_TIMESTAMP_SECS
}

/// The time to sleep in the serve loop before fetching positions again.
pub fn refresh_delay(reports: &Vec<Report>, now: Timestamp) -> (d: Span)
    requires
        now.is_ordinary(),
        earliest_in_range(reports@.map_values(|r: Report| r@)),
    ensures
        d == refresh_delay_spec(reports@.map_values(|r: Report| r@), now),
{
    let ghost views = reports@.map_values(|r: Report| r@);
    let mut earliest: Option<Timestamp> = None;
    let mut i: usize = 0;
    while i < reports.len()
        invariant
            i <= reports@.len(),
            views == reports@.map_values(|r: Report| r@),
            earliest == earliest_expected(views.take(i as int)),
        decreases reports@.len() - i,
    {
        assert(views.take(i + 1).drop_last() =~= views.take(i as int));
        assert(views.take(i + 1).last() == reports@[i as int]@);
        match reports[i].next_update_expected {
            None => {},
            Some(t) => {
                match earliest {
                    None => { earliest = Some(t); },
                    Some(e) => {
                        if !t.later_than(&e) {
                            earliest = Some(t);
                        }
                    },
                }
            },
        }
        i += 1;
    }
    assert(views.take(reports@.len() as int) =~= views);
    match earliest {
        None => Span { secs: DEFAULT_REFRESH_SECS, nanos: 0 },
        Some(e) => {
            match checked_add_seconds(e, REFRESH_MARGIN_SECS) {
                None => Span { secs: DEFAULT_REFRESH_SECS, nanos: 0 },
                Some(target) => {
                    match span_between(now, target) {
                        Some(span) => {
                            assert(span.secs == now.nanos_until(target) / 1_000_000_000) by (nonlinear_arith)
                                requires
                                    span.secs * 1_000_000_000 + span.nanos == now.nanos_until(target),
                                    span.nanos < 1_000_000_000;
                            assert(span.nanos == now.nanos_until(target) % 1_000_000_000) by (nonlinear_arith)
                                requires
                                    span.secs * 1_000_000_000 + span.nanos == now.nanos_until(target),
                                    span.nanos < 1_000_000_000;
                            span
                        },
                        None => Span { secs: DEFAULT_REFRESH_SECS, nanos: 0 },
                    }
                },
            }
        },
    }
}

} // verus!
