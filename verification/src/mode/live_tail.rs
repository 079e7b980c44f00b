use std::collections::VecDeque;

use vstd::prelude::*;
use vstd::string::*;

use crate::positions::{Position, PositionView};

use crate::lookup::{first_index_of, lemma_first_index_of};

use tokio_tungstenite::tungstenite::http;

verus! {

/// How many positions the live tail keeps.
pub const TAIL_CAPACITY: usize = 16;

/// Receives position updates from a live source and decides when an update
/// brings a newer position of the followed device, worth reporting.
#[derive(Debug)]
pub struct Tail {
    device_filter: u32,
    last_sent_update: Option<u32>,
    positions: VecDeque<Position>,
}

/// The mathematical state of a [`Tail`]: the followed device, the id of the
/// last position reported, and the kept positions, newest arrival first.
pub struct TailView {
    pub device_filter: u32,
    pub last_sent_update: Option<u32>,
    pub positions: Seq<PositionView>,
}

impl View for Tail {
    type V = TailView;

    closed spec fn view(&self) -> TailView {
        TailView {
            device_filter: self.device_filter,
            last_sent_update: self.last_sent_update,
            positions: self.positions@.map_values(|p: Position| p@),
        }
    }
}

/// The kept positions are at most [`TAIL_CAPACITY`] and all belong to the
/// followed device.
pub open spec fn tail_wf(t: TailView) -> bool {
    &&& t.positions.len() <= TAIL_CAPACITY
    &&& forall|i: int| 0 <= i < t.positions.len() ==> #[trigger] t.positions[i].device_id == t.device_filter
}

/// Pushes to the front, one after the other, the incoming positions of the
/// followed device.
pub open spec fn pushed_front(queue: Seq<PositionView>, incoming: Seq<PositionView>, device: u32) -> Seq<PositionView>
    decreases incoming.len(),
{
    if incoming.len() == 0 {
        queue
    } else {
        let rest = pushed_front(queue, incoming.drop_last(), device);
        if incoming.last().device_id == device {
            seq![incoming.last()] + rest
        } else {
            rest
        }
    }
}

/// The kept positions after an update: the new ones in front, newest
/// arrival first, cut to [`TAIL_CAPACITY`].
pub open spec fn queue_after(queue: Seq<PositionView>, incoming: Seq<PositionView>, device: u32) -> Seq<PositionView> {
    let all = pushed_front(queue, incoming, device);
    if all.len() > TAIL_CAPACITY { all.take(TAIL_CAPACITY as int) } else { all }
}

/// The index of the most recent position: the last one among those with the
/// latest fix time.
pub open spec fn most_recent_index(q: Seq<PositionView>) -> int
    decreases q.len(),
{
    if q.len() <= 1 {
        0
    } else {
        let i = most_recent_index(q.drop_last());
        if q[i].fix_time.is_after(q.last().fix_time) { i } else { q.len() - 1 }
    }
}

/// The index of the first position with the given id, if any.
pub open spec fn first_index_of_id(q: Seq<PositionView>, id: u32) -> Option<int> {
    first_index_of(q.map_values(|e: PositionView| e.id), id)
}

/// Whether an update is reported and which position id is then remembered
/// as the last one reported, given the kept positions after the update and
/// the id remembered before.
pub open spec fn update_outcome(q: Seq<PositionView>, last_sent: Option<u32>) -> (bool, Option<u32>) {
    if q.len() == 0 {
        (false, last_sent)
    } else {
        let newest = q[most_recent_index(q)];
        match last_sent {
            None => (true, Some(newest.id)),
            Some(last) => match first_index_of_id(q, last) {
                Some(j) => if newest.fix_time.is_after(q[j].fix_time) {
                    (true, Some(newest.id))
                } else {
                    (false, last_sent)
                },
                None => (true, Some(newest.id)),
            },
        }
    }
}

proof fn lemma_pushed_front_wf(queue: Seq<PositionView>, incoming: Seq<PositionView>, device: u32)
    requires
        forall|i: int| 0 <= i < queue.len() ==> #[trigger] queue[i].device_id == device,
    ensures
        forall|i: int| 0 <= i < pushed_front(queue, incoming, device).len()
            ==> #[trigger] pushed_front(queue, incoming, device)[i].device_id == device,
    decreases incoming.len(),
{
    if incoming.len() > 0 {
        lemma_pushed_front_wf(queue, incoming.drop_last(), device);
        let rest = pushed_front(queue, incoming.drop_last(), device);
        if incoming.last().device_id == device {
            let all = seq![incoming.last()] + rest;
            assert forall|i: int| 0 <= i < all.len() implies #[trigger] all[i].device_id == device by {
                if i > 0 {
                    assert(all[i] == rest[i - 1]);
                }
            }
        }
    }
}

proof fn lemma_most_recent_index_bounds(q: Seq<PositionView>)
    requires
        q.len() > 0,
    ensures
        0 <= most_recent_index(q) < q.len(),
    decreases q.len(),
{
    if q.len() > 1 {
        lemma_most_recent_index_bounds(q.drop_last());
    }
}

/// When an update is reported, the position remembered as reported is the
/// most recent kept position, the one [`Tail::most_recent`] gives.
pub proof fn law_reported_update_is_most_recent(t: TailView, incoming: Seq<PositionView>)
    requires
        tail_wf(t),
    ensures
        ({
            let q = queue_after(t.positions, incoming, t.device_filter);
            let (reported, last) = update_outcome(q, t.last_sent_update);
            reported ==> q.len() > 0 && last == Some(q[most_recent_index(q)].id)
        }),
{
}

/// A report never goes back in time: when an update is reported while the
/// previously reported position is still kept, the newly reported position
/// has a strictly later fix time.
pub proof fn law_reports_only_newer_positions(t: TailView, incoming: Seq<PositionView>, j: int)
    requires
        tail_wf(t),
        t.last_sent_update is Some,
        first_index_of_id(queue_after(t.positions, incoming, t.device_filter), t.last_sent_update->0) == Some(j),
    ensures
        ({
            let q = queue_after(t.positions, incoming, t.device_filter);
            update_outcome(q, t.last_sent_update).0 ==> q[most_recent_index(q)].fix_time.is_after(q[j].fix_time)
        }),
{
}

proof fn lemma_most_recent_is_latest(q: Seq<PositionView>)
    requires
        q.len() > 0,
    ensures
        0 <= most_recent_index(q) < q.len(),
        forall|m: int| 0 <= m < q.len() ==> !(#[trigger] q[m]).fix_time.is_after(q[most_recent_index(q)].fix_time),
    decreases q.len(),
{
    if q.len() > 1 {
        let init = q.drop_last();
        lemma_most_recent_is_latest(init);
        let i = most_recent_index(init);
        let r = most_recent_index(q);
        assert(init[i] == q[i]);
        assert forall|m: int| 0 <= m < q.len() implies !(#[trigger] q[m]).fix_time.is_after(q[r].fix_time) by {
            if m < q.len() - 1 {
                assert(init[m] == q[m]);
                assert(!init[m].fix_time.is_after(init[i].fix_time));
            }
        }
    }
}

/// Every batch is reported while nothing has been reported yet, as soon as
/// a position of the followed device is kept; and it is reported whenever
/// the position reported last is no longer kept.
pub proof fn law_first_or_lost_update_is_reported(q: Seq<PositionView>, last_sent: Option<u32>)
    requires
        q.len() > 0,
        last_sent is None || forall|m: int| 0 <= m < q.len() ==> (#[trigger] q[m]).id != last_sent->0,
    ensures
        update_outcome(q, last_sent).0,
{
    lemma_first_index_of_id(q, last_sent->0);
}

/// A newer position is never held back: when the position reported last is
/// still kept (its first occurrence at `j`) and some kept position has a
/// strictly later fix time, the update is reported, and what is remembered
/// is a kept position no older than any other.
pub proof fn law_newer_position_is_reported(q: Seq<PositionView>, last: u32, j: int, k: int)
    requires
        0 <= j < q.len(),
        q[j].id == last,
        forall|m: int| 0 <= m < j ==> (#[trigger] q[m]).id != last,
        0 <= k < q.len(),
        q[k].fix_time.is_after(q[j].fix_time),
    ensures
        update_outcome(q, Some(last)).0,
        update_outcome(q, Some(last)).1 matches Some(id) && exists|n: int| 0 <= n < q.len() && (#[trigger] q[n]).id == id
            && forall|m: int| 0 <= m < q.len() ==> !(#[trigger] q[m]).fix_time.is_after(q[n].fix_time),
{
    lemma_first_index_of_id(q, last);
    lemma_most_recent_is_latest(q);
    let n = most_recent_index(q);
    assert(!q[k].fix_time.is_after(q[n].fix_time));
    assert(q[n].id == q[n].id);
}

proof fn lemma_pushed_front_other_devices(queue: Seq<PositionView>, incoming: Seq<PositionView>, device: u32)
    requires
        forall|k: int| 0 <= k < incoming.len() ==> #[trigger] incoming[k].device_id != device,
    ensures
        pushed_front(queue, incoming, device) == queue,
    decreases incoming.len(),
{
    if incoming.len() > 0 {
        let rest = incoming.drop_last();
        assert forall|k: int| 0 <= k < rest.len() implies #[trigger] rest[k].device_id != device by {
            assert(rest[k] == incoming[k]);
        }
        lemma_pushed_front_other_devices(queue, rest, device);
    }
}

/// Re-applying a batch that brings nothing for the followed device, right
/// after the newest kept position was reported, reports nothing, as long as
/// kept positions with the same id have the same fix time.
pub proof fn law_no_news_is_not_reported(t: TailView, incoming: Seq<PositionView>)
    requires
        tail_wf(t),
        t.positions.len() > 0,
        t.last_sent_update == Some(t.positions[most_recent_index(t.positions)].id),
        forall|i: int, j: int|
            0 <= i < t.positions.len() && 0 <= j < t.positions.len() && #[trigger] t.positions[i].id == #[trigger] t.positions[j].id
                ==> t.positions[i].fix_time == t.positions[j].fix_time,
        forall|k: int| 0 <= k < incoming.len() ==> #[trigger] incoming[k].device_id != t.device_filter,
    ensures
        queue_after(t.positions, incoming, t.device_filter) == t.positions,
        !update_outcome(queue_after(t.positions, incoming, t.device_filter), t.last_sent_update).0,
{
    lemma_pushed_front_other_devices(t.positions, incoming, t.device_filter);
    let q = t.positions;
    lemma_most_recent_index_bounds(q);
    let m = most_recent_index(q);
    lemma_first_index_of_id(q, q[m].id);
}

proof fn lemma_first_index_of_id(q: Seq<PositionView>, id: u32)
    ensures
        match first_index_of_id(q, id) {
            Some(j) => 0 <= j < q.len() && q[j].id == id
                && forall|k: int| 0 <= k < j ==> #[trigger] q[k].id != id,
            None => forall|k: int| 0 <= k < q.len() ==> #[trigger] q[k].id != id,
        },
{
    let keys = q.map_values(|e: PositionView| e.id);
    lemma_first_index_of(keys, id);
    assert forall|k: int| 0 <= k < q.len() implies #[trigger] q[k].id == keys[k] by {}
}

/// Of two positions, the one with the later fix time; the second one when
/// both have the same fix time.
pub fn select_most_recent_position<'a>(a: &'a Position, b: &'a Position) -> (r: &'a Position)
    ensures
        r == (if a.fix_time.is_after(b.fix_time) { a } else { b }),
{
    if a.fix_time.later_than(&b.fix_time) { a } else { b }
}

impl Tail {
    /// The most recent kept position, if any position is kept.
    pub fn most_recent(&self) -> (r: Option<&Position>)
        ensures
            match r {
                None => self@.positions.len() == 0,
                Some(p) => self@.positions.len() > 0 && p@ == self@.positions[most_recent_index(self@.positions)],
            },
    {
        let ghost q = self@.positions;
        let n = self.positions.len();
        if n == 0 {
            return None;
        }
        let mut best: &Position = &self.positions[0];
        let mut k: usize = 1;
        while k < n
            invariant
                1 <= k <= n,
                n == q.len(),
                q == self@.positions,
                best@ == q[most_recent_index(q.take(k as int))],
            decreases n - k,
        {
            assert(q.take(k + 1).drop_last() =~= q.take(k as int));
            proof { lemma_most_recent_index_bounds(q.take(k as int)); }
            best = select_most_recent_position(best, &self.positions[k]);
            k += 1;
        }
        assert(q.take(n as int) =~= q);
        Some(best)
    }

    /// The kept positions are few enough and all of the followed device.
    #[verifier::type_invariant]
    closed spec fn kept_positions_fit(self) -> bool {
        tail_wf(self@)
    }

    /// A tail following the given device, with nothing kept and nothing
    /// reported yet.
    pub fn new(device_id: u32) -> (t: Self)
        ensures
            t@.device_filter == device_id,
            t@.last_sent_update == None::<u32>,
            t@.positions == Seq::<PositionView>::empty(),
            tail_wf(t@),
    {
        let t = Self { device_filter: device_id, last_sent_update: None, positions: VecDeque::new() };
        assert(t@.positions =~= Seq::<PositionView>::empty());
        t
    }

    /// Takes in a batch of positions (of any devices) and says whether the
    /// followed device now has a newer position than the one last reported.
    pub fn apply_update(&mut self, positions: &[Position]) -> (updated: bool)
        ensures
            tail_wf(final(self)@),
            final(self)@.device_filter == old(self)@.device_filter,
            final(self)@.positions == queue_after(
                old(self)@.positions,
                positions@.map_values(|p: Position| p@),
                old(self)@.device_filter,
            ),
            (updated, final(self)@.last_sent_update) == update_outcome(
                final(self)@.positions,
                old(self)@.last_sent_update,
            ),
    {
        let ghost incoming = positions@.map_values(|p: Position| p@);
        let ghost start = self@.positions;
        let ghost device = self.device_filter;
        proof {
            use_type_invariant(&*self);
            lemma_pushed_front_wf(start, incoming, device);
        }
        let mut queue: VecDeque<Position> = VecDeque::new();
        std::mem::swap(&mut queue, &mut self.positions);
        assert(queue@.map_values(|p: Position| p@) == start);
        let mut i: usize = 0;
        while i < positions.len()
            invariant
                i <= positions@.len(),
                incoming == positions@.map_values(|p: Position| p@),
                self.device_filter == device,
                queue@.map_values(|p: Position| p@) == pushed_front(start, incoming.take(i as int), device),
            decreases positions@.len() - i,
        {
            let position = &positions[i];
            assert(incoming.take(i + 1).drop_last() =~= incoming.take(i as int));
            assert(incoming.take(i + 1).last() == positions@[i as int]@);
            if position.device_id == self.device_filter {
                queue.push_front(position.clone());
                assert(queue@.map_values(|p: Position| p@) =~= seq![positions@[i as int]@] + pushed_front(start, incoming.take(i as int), device));
            }
            i += 1;
        }
        assert(incoming.take(positions@.len() as int) =~= incoming);
        queue.truncate(TAIL_CAPACITY);
        assert(queue@.map_values(|p: Position| p@) =~= queue_after(start, incoming, device));
        self.positions = queue;
        assert(self@.positions =~= queue_after(start, incoming, device));
        let ghost q = self@.positions;
        let n = self.positions.len();
        if n == 0 {
            return false;
        }
        // The most recent position: the last among those with the latest fix time.
        let mut best: usize = 0;
        let mut k: usize = 1;
        while k < n
            invariant
                1 <= k <= n,
                n == q.len(),
                q == self@.positions,
                best == most_recent_index(q.take(k as int)),
                best < k,
            decreases n - k,
        {
            assert(q.take(k + 1).drop_last() =~= q.take(k as int));
            if !self.positions[best].fix_time.later_than(&self.positions[k].fix_time) {
                best = k;
            }
            k += 1;
        }
        assert(q.take(n as int) =~= q);
        let newest_id = self.positions[best].id;
        assert(newest_id == q[most_recent_index(q)].id);
        match self.last_sent_update {
            None => {
                self.last_sent_update = Some(newest_id);
                true
            },
            Some(last) => {
                // Look for the position reported last time.
                proof { lemma_first_index_of_id(q, last); }
                match self.index_of_id(last) {
                    Some(j) => {
                        if self.positions[best].fix_time.later_than(&self.positions[j].fix_time) {
                            self.last_sent_update = Some(newest_id);
                            true
                        } else {
                            false
                        }
                    },
                    None => {
                        self.last_sent_update = Some(newest_id);
                        true
                    },
                }
            },
        }
    }

    /// The index of the first kept position with the given id.
    fn index_of_id(&self, id: u32) -> (r: Option<usize>)
        ensures
            match r {
                Some(j) => j < self@.positions.len() && self@.positions[j as int].id == id
                    && forall|m: int| 0 <= m < j ==> #[trigger] self@.positions[m].id != id,
                None => forall|m: int| 0 <= m < self@.positions.len() ==> #[trigger] self@.positions[m].id != id,
            },
    {
        let n = self.positions.len();
        let mut j: usize = 0;
        while j < n
            invariant
                j <= n,
                n == self@.positions.len(),
                forall|m: int| 0 <= m < j ==> #[trigger] self@.positions[m].id != id,
            decreases n - j,
        {
            if self.positions[j].id == id {
                return Some(j);
            }
            j += 1;
        }
        None
    }
}

/// The address of the server's live position socket, before its scheme is
/// made secure.
pub open spec fn socket_url_text(host: Seq<char>, token: Seq<char>) -> Seq<char> {
    host + "/api/socket"@ + "?token="@ + token
}

/// The address of the server's live position socket for a host and token.
pub fn socket_url(host: &str, token: &str) -> (r: String)
    ensures
        r@ == socket_url_text(host@, token@),
{
    String::new().concat(host).concat("/api/socket").concat("?token=").concat(token)
}

/// The text of an address as the http crate gives it back after parsing it
/// as a `Uri` and replacing its scheme with the given one; none when the
/// address or the scheme does not parse, or the parts cannot be put back
/// together.
pub uninterp spec fn uri_with_scheme(url: Seq<char>, scheme: Seq<char>) -> Option<Seq<char>>;

/// Replaces the scheme of an address using the http crate (`Uri` parsing,
/// `into_parts`, `Scheme` parsing, `Uri::from_parts`); the result is named,
/// not described.
#[verifier::external_body]
fn with_scheme(url: &str, scheme: &str) -> (r: Option<String>)
    ensures
        match r {
            Some(s) => uri_with_scheme(url@, scheme@) == Some(s@),
            None => uri_with_scheme(url@, scheme@) is None,
        },
{
    let mut parts = url.parse::<http::Uri>().ok()?.into_parts();
    parts.scheme = Some(http::uri::Scheme::try_from(scheme).ok()?);
    Some(http::Uri::from_parts(parts).ok()?.to_string())
}

/// The scheme of a secure websocket.
pub open spec fn secure_websocket_scheme() -> Seq<char> {
    "wss"@
}

/// The address of the server's live position socket over a secure
/// websocket: the socket address with its scheme replaced by "wss"; none
/// when the http crate does not take the address.
pub fn secure_socket_url(host: &str, token: &str) -> (r: Option<String>)
    ensures
        match r {
            Some(s) => uri_with_scheme(socket_url_text(host@, token@), secure_websocket_scheme()) == Some(s@),
            None => uri_with_scheme(socket_url_text(host@, token@), secure_websocket_scheme()) is None,
        },
{
    let plain = socket_url(host, token);
    with_scheme(plain.as_str(), "wss")
}

} // verus!
