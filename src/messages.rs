use vstd::prelude::*;

use crate::presence::PresenceUserStatus;
use crate::profiles::ProfileSnapshotRecord;
use crate::signaling::{opt_view, SignalingState, conns_for};
use crate::strlist::views;
use crate::time::Timestamp;

verus! {

/// A message of the WebSocket protocol, in either direction.
#[allow(inconsistent_fields)]
pub enum SignalingMessage {
    /// A client registers a peer in a house.
    Register { house_id: String, peer_id: String, signing_pubkey: Option<String> },
    /// An SDP offer from one peer to another.
    Offer { from_peer: String, to_peer: String, sdp: String },
    /// An SDP answer from one peer to another.
    Answer { from_peer: String, to_peer: String, sdp: String },
    /// An ICE candidate from one peer to another.
    IceCandidate { from_peer: String, to_peer: String, candidate: String },
    /// The server's reply to a registration: the other peers of the house.
    Registered { peer_id: String, peers: Vec<String> },
    /// An error reported to the client.
    Error { message: String },
    /// A new member joined a house.
    HouseMemberJoined { house_id: String, member_user_id: String, member_display_name: String },
    /// A house hint was stored through the REST interface.
    HouseHintUpdated {
        signing_pubkey: String,
        encrypted_state: String,
        signature: String,
        last_updated: Timestamp,
    },
    /// A client is online for some houses, and may have one of them open.
    PresenceHello {
        user_id: String,
        signing_pubkeys: Vec<String>,
        active_signing_pubkey: Option<String>,
    },
    /// A client changes (or clears) the house it has open.
    PresenceActive { user_id: String, active_signing_pubkey: Option<String> },
    /// The users online under a house key, sent to the one who asked.
    PresenceSnapshot { signing_pubkey: String, users: Vec<PresenceUserStatus> },
    /// One user's presence, sent to the subscribers of a house key.
    PresenceUpdate {
        signing_pubkey: String,
        user_id: String,
        online: bool,
        active_signing_pubkey: Option<String>,
    },
    /// A client announces its profile at a revision.
    ProfileAnnounce {
        user_id: String,
        display_name: String,
        real_name: Option<String>,
        show_real_name: bool,
        rev: i64,
        signing_pubkeys: Vec<String>,
    },
    /// A client asks for the profiles of some users of a house.
    ProfileHello { signing_pubkey: String, user_ids: Vec<String> },
    /// The known profiles, sent to the one who asked.
    ProfileSnapshot { signing_pubkey: String, profiles: Vec<ProfileSnapshotRecord> },
    /// One user's profile, sent to the subscribers of a house key.
    ProfileUpdate {
        user_id: String,
        display_name: String,
        real_name: Option<String>,
        show_real_name: bool,
        rev: i64,
        signing_pubkey: String,
    },
}

/// One message and the connections it is to be written to.
pub struct Delivery {
    pub conn_ids: Vec<String>,
    pub message: SignalingMessage,
}

/// The connections of the subscribers of `key`, in subscription order.
pub open spec fn fanout_targets(s: SignalingState, key: Seq<char>) -> Seq<Seq<char>> {
    if s.subscriptions().contains_key(key) {
        conns_for(s.subscriptions()[key], s.peer_conns@)
    } else {
        Seq::empty()
    }
}

/// `d` tells the subscribers of `key` that `user` is online or not, with its active house.
pub open spec fn is_presence_update(
    d: Delivery,
    s: SignalingState,
    key: Seq<char>,
    user: Seq<char>,
    online: bool,
    active: Option<Seq<char>>,
) -> bool {
    &&& views(d.conn_ids@) == fanout_targets(s, key)
    &&& match d.message {
        SignalingMessage::PresenceUpdate {
            signing_pubkey,
            user_id,
            online: o,
            active_signing_pubkey,
        } => signing_pubkey@ == key && user_id@ == user && o == online && opt_view(
            active_signing_pubkey,
        ) == active,
        _ => false,
    }
}

/// `d` goes to the one connection `conn`.
pub open spec fn to_conn(d: Delivery, conn: Seq<char>) -> bool {
    views(d.conn_ids@) == seq![conn]
}

impl SignalingMessage {
    /// Messages that only the server sends; a client that sends one gets an error.
    pub open spec fn server_only(&self) -> bool {
        !(self is Register || self is Offer || self is Answer || self is IceCandidate
            || self is PresenceHello || self is PresenceActive || self is ProfileAnnounce
            || self is ProfileHello)
    }
}

} // verus!
