use vstd::prelude::*;

use crate::events::{EncryptedHouseHint, EventState};
use crate::messages::{fanout_targets, is_presence_update, to_conn, Delivery, SignalingMessage};
use crate::presence::{
    after_disconnect, after_hello, set_of, snapshot_of, status_view, strset, went_offline,
    PresenceState, UserPresence, PresenceModel,
};
use crate::profiles::{after_announce, known_profiles, snapshot_view, ProfileRecord, ProfileState};
use crate::signaling::{
    clone_opt, key_of, house_of, opt_view, prior_group, regroup, PeerConnection, SignalingState,
};
use crate::strlist::{group_add, views, without};
use crate::voice::{BackendState, VoiceState};

verus! {

/// `d` tells the subscribers of `key` the profile `rec` of `user`.
pub open spec fn is_profile_update(
    d: Delivery,
    s: SignalingState,
    key: Seq<char>,
    user: Seq<char>,
    rec: ProfileRecord,
) -> bool {
    &&& views(d.conn_ids@) == fanout_targets(s, key)
    &&& match d.message {
        SignalingMessage::ProfileUpdate {
            user_id,
            display_name,
            real_name,
            show_real_name,
            rev,
            signing_pubkey,
        } => user_id@ == user && signing_pubkey@ == key && display_name == rec.display_name
            && real_name == rec.real_name && show_real_name == rec.show_real_name && rev == rec.rev,
        _ => false,
    }
}

/// Registering `peer_id` in `house_id` on connection `conn`: the registry's new state, and
/// the reply `d`, which goes to `conn` alone and lists the other peers of the house in
/// roster order. Nothing else changes.
pub open spec fn register_outcome(
    before: AppState,
    after: AppState,
    conn: String,
    house_id: String,
    peer_id: String,
    signing_pubkey: Option<String>,
    d: Delivery,
) -> bool {
    &&& after.signaling.peers@ == before.signaling.peers@.insert(
        peer_id@,
        PeerConnection { peer_id, house_id, signing_pubkey },
    )
    &&& after.signaling.peer_conns@ == before.signaling.peer_conns@.insert(peer_id@, conn)
    &&& after.signaling.rosters() == regroup(
        before.signaling.rosters(),
        prior_group(before.signaling.peers@, peer_id@, |c: PeerConnection| house_of(c)),
        Some(house_id@),
        peer_id@,
    )
    &&& after.signaling.subscriptions() == regroup(
        before.signaling.subscriptions(),
        prior_group(before.signaling.peers@, peer_id@, |c: PeerConnection| key_of(c)),
        opt_view(signing_pubkey),
        peer_id@,
    )
    &&& after.signaling.conn_lists() == group_add(before.signaling.conn_lists(), conn@, peer_id@)
    &&& to_conn(d, conn@)
    &&& match d.message {
        SignalingMessage::Registered { peer_id: p, peers } => p == peer_id && views(peers@)
            == without(after.signaling.rosters()[house_id@], peer_id@),
        _ => false,
    }
    &&& after.presence == before.presence
    &&& after.profiles == before.profiles
    &&& after.events == before.events
    &&& after.voice == before.voice
    &&& after.backends == before.backends
}

/// Relaying `message` to `to_peer`: one delivery to that peer's connection, or none when
/// the peer is not registered.
pub open spec fn relay_outcome(
    s: AppState,
    to_peer: Seq<char>,
    message: SignalingMessage,
    r: Seq<Delivery>,
) -> bool {
    &&& s.signaling.peer_conns@.contains_key(to_peer) ==> r.len() == 1 && r[0].message == message
        && to_conn(r[0], s.signaling.peer_conns@[to_peer]@)
    &&& !s.signaling.peer_conns@.contains_key(to_peer) ==> r.len() == 0
}

/// A presence hello of `user_id` on `conn`: presence records it; the sender gets one
/// snapshot per house key it asked about, in that order; then the subscribers of each of
/// the user's house keys learn that it is online. Nothing else changes.
pub open spec fn hello_outcome(
    before: AppState,
    after: AppState,
    conn: Seq<char>,
    user_id: String,
    keys: Vec<String>,
    active: Option<String>,
    r: Seq<Delivery>,
) -> bool {
    &&& after.presence.view() == after_hello(
        before.presence.view(),
        conn,
        user_id@,
        strset(keys),
        opt_view(active),
    )
    &&& r.len() >= keys@.len()
    &&& forall|j: int|
        0 <= j < keys@.len() ==> to_conn(#[trigger] r[j], conn) && match r[j].message {
            SignalingMessage::PresenceSnapshot { signing_pubkey, users } => signing_pubkey
                == keys@[j] && status_view(users@) == snapshot_of(
                after.presence.presence_users.entries(),
                keys@[j]@,
            ),
            _ => false,
        }
    &&& exists|affected: Seq<Seq<char>>|
        {
            &&& set_of(affected) == after.presence.view().users[user_id@].keys
            &&& affected.no_duplicates()
            &&& r.len() == keys@.len() + affected.len()
            &&& forall|j: int|
                0 <= j < affected.len() ==> is_presence_update(
                    #[trigger] r[keys@.len() + j],
                    after.signaling,
                    affected[j],
                    user_id@,
                    true,
                    opt_view(active),
                )
        }
    &&& after.signaling == before.signaling
    &&& after.profiles == before.profiles
    &&& after.events == before.events
    &&& after.voice == before.voice
    &&& after.backends == before.backends
}

/// Changing the active house of `user`: for an online user, presence records it and the
/// subscribers of each of its house keys are told; otherwise nothing happens.
pub open spec fn active_outcome(
    before: AppState,
    after: AppState,
    user: Seq<char>,
    active: Option<String>,
    r: Seq<Delivery>,
) -> bool {
    &&& before.presence.view().users.contains_key(user) ==> after.presence.view() == (PresenceModel {
        users: before.presence.view().users.insert(
            user,
            UserPresence {
                conns: before.presence.view().users[user].conns,
                keys: before.presence.view().users[user].keys,
                active: opt_view(active),
            },
        ),
        conns: before.presence.view().conns,
    })
    &&& before.presence.view().users.contains_key(user) ==> exists|affected: Seq<Seq<char>>|
        {
            &&& set_of(affected) == before.presence.view().users[user].keys
            &&& affected.no_duplicates()
            &&& r.len() == affected.len()
            &&& forall|j: int|
                0 <= j < affected.len() ==> is_presence_update(
                    #[trigger] r[j],
                    after.signaling,
                    affected[j],
                    user,
                    true,
                    opt_view(active),
                )
        }
    &&& !before.presence.view().users.contains_key(user) ==> r.len() == 0
        && after.presence.view() == before.presence.view()
    &&& after.signaling == before.signaling
    &&& after.profiles == before.profiles
    &&& after.events == before.events
    &&& after.voice == before.voice
    &&& after.backends == before.backends
}

/// A profile announce: the store applies it (last writer wins by revision), and each house
/// key given, in order, gets the record now stored, sent to its subscribers.
pub open spec fn announce_outcome(
    before: AppState,
    after: AppState,
    user: Seq<char>,
    rec: ProfileRecord,
    keys: Seq<String>,
    r: Seq<Delivery>,
) -> bool {
    &&& after.profiles.profiles@ == after_announce(before.profiles.profiles@, user, rec)
    &&& r.len() == keys.len()
    &&& forall|j: int|
        0 <= j < keys.len() ==> is_profile_update(
            #[trigger] r[j],
            after.signaling,
            keys[j]@,
            user,
            after.profiles.profiles@[user],
        )
    &&& after.signaling == before.signaling
    &&& after.presence == before.presence
    &&& after.events == before.events
    &&& after.voice == before.voice
    &&& after.backends == before.backends
}

/// The answer to a profile hello on `conn`: the known profiles among `ids`, in that order.
pub open spec fn profile_hello_reply(
    s: AppState,
    conn: Seq<char>,
    key: String,
    ids: Seq<String>,
    d: Delivery,
) -> bool {
    &&& to_conn(d, conn)
    &&& match d.message {
        SignalingMessage::ProfileSnapshot { signing_pubkey, profiles } => signing_pubkey == key
            && snapshot_view(profiles@) == known_profiles(views(ids), s.profiles.profiles@),
        _ => false,
    }
}

/// The application context: every subsystem's state, created once at start-up.
pub struct AppState {
    pub signaling: SignalingState,
    pub voice: VoiceState,
    pub presence: PresenceState,
    pub profiles: ProfileState,
    pub events: EventState,
    pub backends: BackendState,
}

impl AppState {
    pub open spec fn wf(&self) -> bool {
        &&& self.signaling.wf()
        &&& self.presence.wf()
        &&& self.profiles.wf()
        &&& self.events.wf()
    }

    pub fn new() -> (r: Self)
        ensures
            r.wf(),
            r.signaling.peers@.is_empty(),
            r.signaling.rosters().is_empty(),
            r.presence.view().users.is_empty(),
            r.profiles.profiles@.is_empty(),
            r.events.queues().is_empty(),
            r.events.invite_tokens@.is_empty(),
    {
        AppState {
            signaling: SignalingState::new(),
            voice: VoiceState::new(),
            presence: PresenceState::new(),
            profiles: ProfileState::new(),
            events: EventState::new(),
            backends: BackendState::new(),
        }
    }

    /// `message` addressed to every subscriber of `key`.
    fn fanout(&self, key: &String, message: SignalingMessage) -> (r: Delivery)
        requires
            self.signaling.wf(),
        ensures
            views(r.conn_ids@) == fanout_targets(self.signaling, key@),
            r.message == message,
    {
        let conn_ids = self.signaling.subscriber_conns(key);
        Delivery { conn_ids, message }
    }

    /// One presence update of `user_id` per house key, in the order given.
    fn presence_updates(
        &self,
        keys: &Vec<String>,
        user_id: &String,
        online: bool,
        active: &Option<String>,
    ) -> (r: Vec<Delivery>)
        requires
            self.signaling.wf(),
        ensures
            r@.len() == keys@.len(),
            forall|j: int|
                0 <= j < keys@.len() ==> is_presence_update(
                    #[trigger] r@[j],
                    self.signaling,
                    keys@[j]@,
                    user_id@,
                    online,
                    opt_view(*active),
                ),
    {
        let mut out: Vec<Delivery> = Vec::new();
        let mut i: usize = 0;
        while i < keys.len()
            invariant
                self.signaling.wf(),
                i <= keys@.len(),
                out@.len() == i,
                forall|j: int|
                    0 <= j < i ==> is_presence_update(
                        #[trigger] out@[j],
                        self.signaling,
                        keys@[j]@,
                        user_id@,
                        online,
                        opt_view(*active),
                    ),
            decreases keys@.len() - i,
        {
            let msg = SignalingMessage::PresenceUpdate {
                signing_pubkey: keys[i].clone(),
                user_id: user_id.clone(),
                online,
                active_signing_pubkey: clone_opt(active),
            };
            let d = self.fanout(&keys[i], msg);
            out.push(d);
            i = i + 1;
        }
        out
    }

    /// One profile update of `user_id` per house key, in the order given.
    fn profile_updates(&self, keys: &Vec<String>, user_id: &String, rec: &ProfileRecord) -> (r: Vec<
        Delivery,
    >)
        requires
            self.signaling.wf(),
        ensures
            r@.len() == keys@.len(),
            forall|j: int|
                0 <= j < keys@.len() ==> is_profile_update(
                    #[trigger] r@[j],
                    self.signaling,
                    keys@[j]@,
                    user_id@,
                    *rec,
                ),
    {
        let mut out: Vec<Delivery> = Vec::new();
        let mut i: usize = 0;
        while i < keys.len()
            invariant
                self.signaling.wf(),
                i <= keys@.len(),
                out@.len() == i,
                forall|j: int|
                    0 <= j < i ==> is_profile_update(
                        #[trigger] out@[j],
                        self.signaling,
                        keys@[j]@,
                        user_id@,
                        *rec,
                    ),
            decreases keys@.len() - i,
        {
            let r = rec.clone();
            let msg = SignalingMessage::ProfileUpdate {
                user_id: user_id.clone(),
                display_name: r.display_name,
                real_name: r.real_name,
                show_real_name: r.show_real_name,
                rev: r.rev,
                signing_pubkey: keys[i].clone(),
            };
            let d = self.fanout(&keys[i], msg);
            out.push(d);
            i = i + 1;
        }
        out
    }

    /// Registers a peer on `conn_id` and answers with the other peers of its house.
    pub fn on_register(
        &mut self,
        conn_id: &String,
        house_id: String,
        peer_id: String,
        signing_pubkey: Option<String>,
    ) -> (r: Delivery)
        requires
            old(self).wf(),
        ensures
            final(self).wf(),
            register_outcome(
                *old(self),
                *final(self),
                *conn_id,
                house_id,
                peer_id,
                signing_pubkey,
                r,
            ),
    {
        let peers = self.signaling.register_peer(
            conn_id.clone(),
            peer_id.clone(),
            house_id,
            signing_pubkey,
        );
        let mut conn_ids: Vec<String> = Vec::new();
        conn_ids.push(conn_id.clone());
        assert(views(conn_ids@) =~= seq![conn_id@]);
        Delivery { conn_ids, message: SignalingMessage::Registered { peer_id, peers } }
    }

    /// Forwards an offer, answer or ICE candidate to the connection of `to_peer`; nothing
    /// is sent when that peer is not registered.
    pub fn relay_signal(&self, to_peer: &String, message: SignalingMessage) -> (r: Vec<Delivery>)
        requires
            self.wf(),
        ensures
            relay_outcome(*self, to_peer@, message, r@),
    {
        let mut out: Vec<Delivery> = Vec::new();
        match self.signaling.peer_conn(to_peer) {
            Some(c) => {
                let mut conn_ids: Vec<String> = Vec::new();
                conn_ids.push(c);
                assert(views(conn_ids@) =~= seq![self.signaling.peer_conns@[to_peer@]@]);
                out.push(Delivery { conn_ids, message });
            },
            None => {},
        }
        out
    }

    /// Records a presence hello on `conn_id`. The sender gets a snapshot for each house key
    /// it asked about, in that order; then every house the user is present in learns that
    /// it is online.
    pub fn on_presence_hello(
        &mut self,
        conn_id: &String,
        user_id: String,
        signing_pubkeys: Vec<String>,
        active_signing_pubkey: Option<String>,
    ) -> (r: Vec<Delivery>)
        requires
            old(self).wf(),
        ensures
            final(self).wf(),
            hello_outcome(
                *old(self),
                *final(self),
                conn_id@,
                user_id,
                signing_pubkeys,
                active_signing_pubkey,
                r@,
            ),
    {
        let affected = self.presence.upsert_presence_hello(
            conn_id,
            user_id.clone(),
            &signing_pubkeys,
            clone_opt(&active_signing_pubkey),
        );
        let mut out: Vec<Delivery> = Vec::new();
        let mut i: usize = 0;
        while i < signing_pubkeys.len()
            invariant
                self.wf(),
                i <= signing_pubkeys@.len(),
                out@.len() == i,
                forall|j: int|
                    0 <= j < i ==> to_conn(#[trigger] out@[j], conn_id@) && match out@[j].message {
                        SignalingMessage::PresenceSnapshot { signing_pubkey, users } =>
                            signing_pubkey == signing_pubkeys@[j] && status_view(users@)
                            == snapshot_of(
                            self.presence.presence_users.entries(),
                            signing_pubkeys@[j]@,
                        ),
                        _ => false,
                    },
            decreases signing_pubkeys@.len() - i,
        {
            let users = self.presence.presence_snapshot_for(&signing_pubkeys[i]);
            let mut conn_ids: Vec<String> = Vec::new();
            conn_ids.push(conn_id.clone());
            assert(views(conn_ids@) =~= seq![conn_id@]);
            out.push(
                Delivery {
                    conn_ids,
                    message: SignalingMessage::PresenceSnapshot {
                        signing_pubkey: signing_pubkeys[i].clone(),
                        users,
                    },
                },
            );
            i = i + 1;
        }
        let ghost snaps = out@;
        let mut updates = self.presence_updates(&affected, &user_id, true, &active_signing_pubkey);
        let ghost upd = updates@;
        out.append(&mut updates);
        proof {
            let av = views(affected@);
            assert forall|j: int| 0 <= j < av.len() implies is_presence_update(
                #[trigger] out@[signing_pubkeys@.len() + j],
                self.signaling,
                av[j],
                user_id@,
                true,
                opt_view(active_signing_pubkey),
            ) by {
                assert(out@[snaps.len() + j] == upd[j]);
            }
            assert forall|j: int| 0 <= j < signing_pubkeys@.len() implies out@[j] == snaps[j] by {}
        }
        out
    }

    /// Changes the active house of an online user and tells every house it is present in;
    /// nothing happens for a user that is not online.
    pub fn on_presence_active(&mut self, user_id: String, active_signing_pubkey: Option<String>) -> (r:
        Vec<Delivery>)
        requires
            old(self).wf(),
        ensures
            final(self).wf(),
            active_outcome(*old(self), *final(self), user_id@, active_signing_pubkey, r@),
    {
        match self.presence.update_presence_active(&user_id, clone_opt(&active_signing_pubkey)) {
            Some(keys) => {
                let r = self.presence_updates(&keys, &user_id, true, &active_signing_pubkey);
                assert(views(keys@).len() == keys@.len());
                r
            },
            None => Vec::new(),
        }
    }

    /// Applies a profile announce (last writer wins by revision) and sends the record now
    /// stored to every house key given, whether or not this announce was taken.
    pub fn on_profile_announce(
        &mut self,
        user_id: String,
        rec: ProfileRecord,
        signing_pubkeys: &Vec<String>,
    ) -> (r: Vec<Delivery>)
        requires
            old(self).wf(),
        ensures
            final(self).wf(),
            announce_outcome(*old(self), *final(self), user_id@, rec, signing_pubkeys@, r@),
    {
        let (_, current) = self.profiles.announce_profile(&user_id, rec);
        self.profile_updates(signing_pubkeys, &user_id, &current)
    }

    /// Answers a profile hello on `conn_id` with the known profiles among `user_ids`.
    pub fn on_profile_hello(
        &self,
        conn_id: &String,
        signing_pubkey: String,
        user_ids: &Vec<String>,
    ) -> (r: Delivery)
        requires
            self.wf(),
        ensures
            profile_hello_reply(*self, conn_id@, signing_pubkey, user_ids@, r),
    {
        let profiles = self.profiles.profiles_for(user_ids);
        let mut conn_ids: Vec<String> = Vec::new();
        conn_ids.push(conn_id.clone());
        assert(views(conn_ids@) =~= seq![conn_id@]);
        Delivery { conn_ids, message: SignalingMessage::ProfileSnapshot { signing_pubkey, profiles } }
    }

    /// Handles one decoded message that arrived on `conn_id`, returning what is to be sent
    /// and where. A message that only the server sends is refused.
    pub fn handle_message(&mut self, conn_id: &String, msg: SignalingMessage) -> (r: Result<
        Vec<Delivery>,
        String,
    >)
        requires
            old(self).wf(),
        ensures
            final(self).wf(),
            r is Err <==> msg.server_only(),
            r is Err ==> *final(self) == *old(self) && r->Err_0@ == "Invalid message type"@,
            match msg {
                SignalingMessage::Register { house_id, peer_id, signing_pubkey } => r is Ok
                    && r->Ok_0@.len() == 1 && register_outcome(
                    *old(self),
                    *final(self),
                    *conn_id,
                    house_id,
                    peer_id,
                    signing_pubkey,
                    r->Ok_0@[0],
                ),
                SignalingMessage::Offer { to_peer, .. }
                | SignalingMessage::Answer { to_peer, .. }
                | SignalingMessage::IceCandidate { to_peer, .. } => r is Ok && *final(self) == *old(self)
                    && relay_outcome(*old(self), to_peer@, msg, r->Ok_0@),
                SignalingMessage::PresenceHello {
                    user_id,
                    signing_pubkeys,
                    active_signing_pubkey,
                } => r is Ok && hello_outcome(
                    *old(self),
                    *final(self),
                    conn_id@,
                    user_id,
                    signing_pubkeys,
                    active_signing_pubkey,
                    r->Ok_0@,
                ),
                SignalingMessage::PresenceActive { user_id, active_signing_pubkey } => r is Ok
                    && active_outcome(
                    *old(self),
                    *final(self),
                    user_id@,
                    active_signing_pubkey,
                    r->Ok_0@,
                ),
                SignalingMessage::ProfileAnnounce {
                    user_id,
                    display_name,
                    real_name,
                    show_real_name,
                    rev,
                    signing_pubkeys,
                } => r is Ok && announce_outcome(
                    *old(self),
                    *final(self),
                    user_id@,
                    (ProfileRecord { display_name, real_name, show_real_name, rev }),
                    signing_pubkeys@,
                    r->Ok_0@,
                ),
                SignalingMessage::ProfileHello { signing_pubkey, user_ids } => r is Ok
                    && r->Ok_0@.len() == 1 && *final(self) == *old(self) && profile_hello_reply(
                    *old(self),
                    conn_id@,
                    signing_pubkey,
                    user_ids@,
                    r->Ok_0@[0],
                ),
                _ => true,
            },
    {
        match msg {
            SignalingMessage::Register { house_id, peer_id, signing_pubkey } => {
                let d = self.on_register(conn_id, house_id, peer_id, signing_pubkey);
                let mut out: Vec<Delivery> = Vec::new();
                out.push(d);
                Ok(out)
            },
            SignalingMessage::PresenceHello { user_id, signing_pubkeys, active_signing_pubkey } => {
                Ok(self.on_presence_hello(conn_id, user_id, signing_pubkeys, active_signing_pubkey))
            },
            SignalingMessage::PresenceActive { user_id, active_signing_pubkey } => {
                Ok(self.on_presence_active(user_id, active_signing_pubkey))
            },
            SignalingMessage::ProfileAnnounce {
                user_id,
                display_name,
                real_name,
                show_real_name,
                rev,
                signing_pubkeys,
            } => {
                let rec = ProfileRecord { display_name, real_name, show_real_name, rev };
                Ok(self.on_profile_announce(user_id, rec, &signing_pubkeys))
            },
            SignalingMessage::ProfileHello { signing_pubkey, user_ids } => {
                let d = self.on_profile_hello(conn_id, signing_pubkey, &user_ids);
                let mut out: Vec<Delivery> = Vec::new();
                out.push(d);
                Ok(out)
            },
            SignalingMessage::Offer { from_peer, to_peer, sdp } => {
                let target = to_peer.clone();
                Ok(self.relay_signal(&target, SignalingMessage::Offer { from_peer, to_peer, sdp }))
            },
            SignalingMessage::Answer { from_peer, to_peer, sdp } => {
                let target = to_peer.clone();
                Ok(self.relay_signal(&target, SignalingMessage::Answer { from_peer, to_peer, sdp }))
            },
            SignalingMessage::IceCandidate { from_peer, to_peer, candidate } => {
                let target = to_peer.clone();
                Ok(
                    self.relay_signal(
                        &target,
                        SignalingMessage::IceCandidate { from_peer, to_peer, candidate },
                    ),
                )
            },
            _ => Err("Invalid message type".to_owned()),
        }
    }

    /// Cleans up after connection `conn_id` closed: its peers are released, and if it was
    /// its user's last connection, every house the connection declared learns that the
    /// user went offline.
    pub fn close_connection(&mut self, conn_id: &String) -> (r: Vec<Delivery>)
        requires
            old(self).wf(),
        ensures
            final(self).wf(),
            forall|p: Seq<char>| #[trigger]
                final(self).signaling.peers@.contains_key(p) <==> (old(self).signaling.peers@.contains_key(p) && old(self).signaling.peer_conns@[p]@
                    != conn_id@),
            final(self).presence.view() == after_disconnect(old(self).presence.view(), conn_id@),
            match went_offline(old(self).presence.view(), conn_id@) {
                Some((user, keys)) => exists|affected: Seq<Seq<char>>|
                    {
                        &&& set_of(affected) == keys
                        &&& affected.no_duplicates()
                        &&& r@.len() == affected.len()
                        &&& forall|j: int|
                            0 <= j < affected.len() ==> is_presence_update(
                                #[trigger] r@[j],
                                final(self).signaling,
                                affected[j],
                                user,
                                false,
                                None,
                            )
                    },
                None => r@.len() == 0,
            },
            final(self).profiles == old(self).profiles,
            final(self).events == old(self).events,
            final(self).voice == old(self).voice,
            final(self).backends == old(self).backends,
    {
        self.signaling.close_connection(conn_id);
        match self.presence.remove_presence_conn(conn_id) {
            Some((user_id, keys)) => {
                let none: Option<String> = None;
                self.presence_updates(&keys, &user_id, false, &none)
            },
            None => Vec::new(),
        }
    }

    /// Tells the subscribers of `signing_pubkey` that its house hint was replaced.
    pub fn broadcast_house_hint_updated(
        &self,
        signing_pubkey: &String,
        hint: &EncryptedHouseHint,
    ) -> (r: Delivery)
        requires
            self.wf(),
        ensures
            views(r.conn_ids@) == fanout_targets(self.signaling, signing_pubkey@),
            match r.message {
                SignalingMessage::HouseHintUpdated {
                    signing_pubkey: k,
                    encrypted_state,
                    signature,
                    last_updated,
                } => k == *signing_pubkey && encrypted_state == hint.encrypted_state && signature
                    == hint.signature && last_updated == hint.last_updated,
                _ => false,
            },
    {
        let msg = SignalingMessage::HouseHintUpdated {
            signing_pubkey: signing_pubkey.clone(),
            encrypted_state: hint.encrypted_state.clone(),
            signature: hint.signature.clone(),
            last_updated: hint.last_updated,
        };
        self.fanout(signing_pubkey, msg)
    }
}

} // verus!
