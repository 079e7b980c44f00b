use vstd::prelude::*;

verus! {

/// A geofence as the server lists it (its area is not needed here).
#[derive(Debug)]
pub struct GeoFenceResponse {
    pub id: u32,
    pub name: String,
    pub description: Option<String>,
}

impl Clone for GeoFenceResponse {
    fn clone(&self) -> (r: Self)
        ensures
            r == *self,
    {
        GeoFenceResponse {
            id: self.id,
            name: self.name.clone(),
            description: match &self.description {
                Some(d) => Some(d.clone()),
                None => None,
            },
        }
    }
}

} // verus!
