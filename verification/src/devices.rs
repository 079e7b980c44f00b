use vstd::prelude::*;

use crate::lookup::{first_index_of, lemma_first_index_of};

verus! {

/// A device as the server lists it; a `position_id` of 0 means the device
/// has never reported a position.
#[derive(Debug)]
pub struct DeviceReponse {
    pub id: u32,
    pub name: String,
    pub position_id: u32,
}

/// A tracked device.
#[derive(Debug)]
pub struct Device {
    pub id: u32,
    pub name: String,
    pub position_id: Option<u32>,
}

/// Per-device display preferences.
#[derive(Debug)]
pub struct DeviceConfig {
    pub hidden: Option<bool>,
    pub display_name: Option<String>,
    pub report_timeout_seconds: Option<u32>,
    pub predict_update_interval_seconds: Option<u32>,
}

impl Clone for DeviceConfig {
    fn clone(&self) -> (r: Self)
        ensures
            r == *self,
    {
        DeviceConfig {
            hidden: self.hidden,
            display_name: match &self.display_name {
                Some(n) => Some(n.clone()),
                None => None,
            },
            report_timeout_seconds: self.report_timeout_seconds,
            predict_update_interval_seconds: self.predict_update_interval_seconds,
        }
    }
}

impl Clone for Device {
    fn clone(&self) -> (r: Self)
        ensures
            r == *self,
    {
        Device { id: self.id, name: self.name.clone(), position_id: self.position_id }
    }
}

/// The device that a server record describes.
pub open spec fn device_of(r: DeviceReponse) -> Device {
    Device {
        id: r.id,
        name: r.name,
        position_id: if r.position_id == 0 { None } else { Some(r.position_id) },
    }
}

impl Device {
    /// Turns a server record into a device; the server's position id 0
    /// becomes "no position".
    pub fn from_response(r: DeviceReponse) -> (d: Self)
        ensures
            d == device_of(r),
    {
        Self {
            id: r.id,
            name: r.name,
            position_id: match r.position_id {
                0 => None,
                a => Some(a),
            },
        }
    }
}

/// The devices that server records describe, in order.
pub fn devices_from_responses(responses: Vec<DeviceReponse>) -> (r: Vec<Device>)
    ensures
        r@.len() == responses@.len(),
        forall|i: int| 0 <= i < r@.len() ==> #[trigger] r@[i] == device_of(responses@[i]),
{
    let ghost rs = responses@;
    let mut out: Vec<Device> = Vec::new();
    let mut responses = responses;
    let n = responses.len();
    let mut i: usize = 0;
    while i < n
        invariant
            i <= n,
            n == rs.len(),
            responses@ =~= rs.skip(i as int),
            out@.len() == i,
            forall|k: int| 0 <= k < i ==> #[trigger] out@[k] == device_of(rs[k]),
        decreases n - i,
    {
        let r = responses.remove(0);
        assert(r == rs[i as int]);
        out.push(Device::from_response(r));
        i += 1;
    }
    out
}

/// The index of the first device with the given id, if any.
pub open spec fn first_device_index(devices: Seq<Device>, id: u32) -> Option<int> {
    first_index_of(devices.map_values(|e: Device| e.id), id)
}

proof fn lemma_first_device_index(devices: Seq<Device>, id: u32)
    ensures
        match first_device_index(devices, id) {
            Some(i) => 0 <= i < devices.len() && devices[i].id == id
                && forall|k: int| 0 <= k < i ==> #[trigger] devices[k].id != id,
            None => forall|k: int| 0 <= k < devices.len() ==> #[trigger] devices[k].id != id,
        },
{
    let keys = devices.map_values(|e: Device| e.id);
    lemma_first_index_of(keys, id);
    assert forall|k: int| 0 <= k < devices.len() implies #[trigger] devices[k].id == keys[k] by {}
}

/// The index of the first device with the given id, if any.
pub fn find_device(devices: &[Device], id: u32) -> (r: Option<usize>)
    ensures
        r matches Some(i) ==> i < devices@.len() && first_device_index(devices@, id) == Some(i as int),
        r is None ==> first_device_index(devices@, id) is None,
{
    let mut i: usize = 0;
    while i < devices.len()
        invariant
            i <= devices@.len(),
            forall|k: int| 0 <= k < i ==> #[trigger] devices@[k].id != id,
        decreases devices@.len() - i,
    {
        if devices[i].id == id {
            proof { lemma_first_device_index(devices@, id); }
            return Some(i);
        }
        i += 1;
    }
    proof { lemma_first_device_index(devices@, id); }
    None
}

/// The device with the given id among server records (the first such), if
/// any.
pub fn device_from_responses(responses: Vec<DeviceReponse>, id: u32) -> (r: Option<Device>)
    ensures
        ({
            let devices = responses@.map_values(|d: DeviceReponse| device_of(d));
            match first_device_index(devices, id) {
                Some(i) => r == Some(devices[i]),
                None => r is None,
            }
        }),
{
    let ghost rs = responses@;
    let devices = devices_from_responses(responses);
    assert(devices@ =~= rs.map_values(|d: DeviceReponse| device_of(d)));
    match find_device(devices.as_slice(), id) {
        Some(i) => Some(devices[i].clone()),
        None => None,
    }
}

} // verus!
