use vstd::prelude::*;

use crate::error::TracarrError;
use crate::time::Timestamp;

verus! {

/// A position as the server sends it. Coordinates are the bit patterns of
/// the server's `f64` values (degrees for latitude and longitude, meters for
/// altitude).
#[derive(Debug)]
pub struct PositionResponse {
    pub id: u32,
    pub latitude: u64,
    pub longitude: u64,
    pub altitude: u64,
    pub fix_time: Timestamp,
    pub geofence_ids: Option<Vec<u32>>,
    pub device_id: u32,
}

/// A position fix of a device.
#[derive(Debug)]
pub struct Position {
    pub id: u32,
    pub latitude: u64,
    pub longitude: u64,
    pub altitude: u64,
    pub fix_time: Timestamp,
    pub geofence_ids: Vec<u32>,
    pub device_id: u32,
}

/// The mathematical value of a [`Position`].
pub struct PositionView {
    pub id: u32,
    pub latitude: u64,
    pub longitude: u64,
    pub altitude: u64,
    pub fix_time: Timestamp,
    pub geofence_ids: Seq<u32>,
    pub device_id: u32,
}

impl View for Position {
    type V = PositionView;

    open spec fn view(&self) -> PositionView {
        PositionView {
            id: self.id,
            latitude: self.latitude,
            longitude: self.longitude,
            altitude: self.altitude,
            fix_time: self.fix_time,
            geofence_ids: self.geofence_ids@,
            device_id: self.device_id,
        }
    }
}

impl Clone for Position {
    fn clone(&self) -> (p: Self)
        ensures
            p@ == self@,
    {
        Position {
            id: self.id,
            latitude: self.latitude,
            longitude: self.longitude,
            altitude: self.altitude,
            fix_time: self.fix_time,
            geofence_ids: self.geofence_ids.clone(),
            device_id: self.device_id,
        }
    }
}

impl Default for Position {
    /// The position with every number zero, at the Unix epoch, in no geofence.
    fn default() -> (p: Self)
        ensures
            p@ == (PositionView {
                id: 0,
                latitude: 0,
                longitude: 0,
                altitude: 0,
                fix_time: Timestamp { secs: 0, nanos: 0 },
                geofence_ids: Seq::empty(),
                device_id: 0,
            }),
    {
        Position {
            id: 0,
            latitude: 0,
            longitude: 0,
            altitude: 0,
            fix_time: Timestamp { secs: 0, nanos: 0 },
            geofence_ids: Vec::new(),
            device_id: 0,
        }
    }
}

/// The position that a server record describes: a missing geofence list is
/// an empty one.
pub open spec fn position_of(r: PositionResponse) -> PositionView {
    PositionView {
        id: r.id,
        latitude: r.latitude,
        longitude: r.longitude,
        altitude: r.altitude,
        fix_time: r.fix_time,
        geofence_ids: match r.geofence_ids {
            Some(ids) => ids@,
            None => Seq::empty(),
        },
        device_id: r.device_id,
    }
}

impl PositionResponse {
    /// Turns a server record into a position.
    pub fn into_position(self) -> (p: Position)
        ensures
            p@ == position_of(self),
    {
        Position {
            id: self.id,
            latitude: self.latitude,
            longitude: self.longitude,
            altitude: self.altitude,
            fix_time: self.fix_time,
            geofence_ids: match self.geofence_ids {
                Some(ids) => ids,
                None => Vec::new(),
            },
            device_id: self.device_id,
        }
    }
}

/// The positions that server records describe, in order.
pub fn positions_from_responses(responses: Vec<PositionResponse>) -> (r: Vec<Position>)
    ensures
        r@.len() == responses@.len(),
        forall|i: int| 0 <= i < r@.len() ==> #[trigger] r@[i]@ == position_of(responses@[i]),
{
    let ghost rs = responses@;
    let mut out: Vec<Position> = Vec::new();
    let mut responses = responses;
    let n = responses.len();
    let mut i: usize = 0;
    while i < n
        invariant
            i <= n,
            n == rs.len(),
            responses@ =~= rs.skip(i as int),
            out@.len() == i,
            forall|k: int| 0 <= k < i ==> #[trigger] out@[k]@ == position_of(rs[k]),
        decreases n - i,
    {
        let r = responses.remove(0);
        assert(r == rs[i as int]);
        out.push(r.into_position());
        i += 1;
    }
    out
}

/// The first position among server records, or `EmptyPositionResponse`
/// when there is none.
pub fn first_position(responses: Vec<PositionResponse>) -> (r: Result<Position, TracarrError>)
    ensures
        responses@.len() == 0 ==> r matches Err(TracarrError::EmptyPositionResponse),
        responses@.len() > 0 ==> (r matches Ok(p) && p@ == position_of(responses@[0])),
{
    let mut responses = responses;
    if responses.len() == 0 {
        Err(TracarrError::EmptyPositionResponse)
    } else {
        let first = responses.swap_remove(0);
        Ok(first.into_position())
    }
}

} // verus!
