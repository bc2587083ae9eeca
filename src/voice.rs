use vstd::prelude::*;

use crate::strmap::StrMap;

verus! {

/// One voice room of a house, with the peers in it.
pub struct VoiceRoom {
    pub house_id: String,
    pub room_id: String,
    pub peers: Vec<String>,
}

/// Voice chat state, scoped by room.
pub struct VoiceState {
    /// the rooms, one per (house id, room id)
    pub voice_rooms: Vec<VoiceRoom>,
    /// house id -> the house key that voice presence is broadcast under
    pub house_signing_pubkeys: StrMap<String>,
}

impl VoiceState {
    pub fn new() -> (r: Self)
        ensures
            r.voice_rooms@.len() == 0,
            r.house_signing_pubkeys.wf(),
            r.house_signing_pubkeys@.is_empty(),
    {
        VoiceState { voice_rooms: Vec::new(), house_signing_pubkeys: StrMap::new() }
    }
}

/// Optional durable backends; none is configured by default.
pub struct BackendState {
    pub profile_store_enabled: bool,
}

impl BackendState {
    pub fn new() -> (r: Self)
        ensures
            !r.profile_store_enabled,
    {
        BackendState { profile_store_enabled: false }
    }
}

} // verus!
