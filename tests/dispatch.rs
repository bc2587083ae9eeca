use signaling_server::messages::{Delivery, SignalingMessage};
use signaling_server::presence::PresenceState;
use signaling_server::profiles::{ProfileRecord, ProfileState};
use signaling_server::relay::AppState;

fn s(x: &str) -> String {
    x.to_string()
}

fn register(app: &mut AppState, conn: &str, peer: &str, house: &str, key: Option<&str>) -> Vec<Delivery> {
    app.handle_message(
        &s(conn),
        SignalingMessage::Register {
            house_id: s(house),
            peer_id: s(peer),
            signing_pubkey: key.map(s),
        },
    )
    .ok()
    .unwrap()
}

fn hello(app: &mut AppState, conn: &str, user: &str, keys: &[&str]) -> Vec<Delivery> {
    app.handle_message(
        &s(conn),
        SignalingMessage::PresenceHello {
            user_id: s(user),
            signing_pubkeys: keys.iter().map(|k| s(k)).collect(),
            active_signing_pubkey: None,
        },
    )
    .ok()
    .unwrap()
}

#[test]
fn register_replies_with_other_peers() {
    let mut app = AppState::new();
    register(&mut app, "c1", "P1", "H", None);
    let out = register(&mut app, "c2", "P2", "H", None);
    assert_eq!(out.len(), 1);
    assert_eq!(out[0].conn_ids, vec![s("c2")]);
    match &out[0].message {
        SignalingMessage::Registered { peer_id, peers } => {
            assert_eq!(peer_id, "P2");
            assert_eq!(peers, &vec![s("P1")]);
        }
        _ => panic!("expected a Registered reply"),
    }
}

#[test]
fn routing_miss_is_silent() {
    let mut app = AppState::new();
    register(&mut app, "c1", "P1", "H", None);
    let out = app.handle_message(
        &s("c1"),
        SignalingMessage::Offer { from_peer: s("P1"), to_peer: s("ghost"), sdp: s("v=0") },
    );
    assert!(matches!(out, Ok(ref d) if d.is_empty()));
}

#[test]
fn offer_goes_to_target_connection() {
    let mut app = AppState::new();
    register(&mut app, "c1", "P1", "H", None);
    register(&mut app, "c2", "P2", "H", None);
    let out = app
        .handle_message(
            &s("c1"),
            SignalingMessage::Offer { from_peer: s("P1"), to_peer: s("P2"), sdp: s("v=0") },
        )
        .ok()
        .unwrap();
    assert_eq!(out.len(), 1);
    assert_eq!(out[0].conn_ids, vec![s("c2")]);
    assert!(matches!(&out[0].message, SignalingMessage::Offer { sdp, .. } if sdp == "v=0"));
    let ice = app
        .handle_message(
            &s("c2"),
            SignalingMessage::IceCandidate {
                from_peer: s("P2"),
                to_peer: s("P1"),
                candidate: s("cand"),
            },
        )
        .ok()
        .unwrap();
    assert_eq!(ice[0].conn_ids, vec![s("c1")]);
}

#[test]
fn server_only_message_is_refused() {
    let mut app = AppState::new();
    let out = app.handle_message(&s("c1"), SignalingMessage::Error { message: s("x") });
    assert_eq!(out.err(), Some(s("Invalid message type")));
}

#[test]
fn presence_multi_connection() {
    let mut app = AppState::new();
    register(&mut app, "watch", "W", "H", Some("K"));
    hello(&mut app, "a", "U", &["K"]);
    hello(&mut app, "b", "U", &["K"]);
    let first = app.close_connection(&s("a"));
    assert!(first.is_empty());
    assert_eq!(app.presence.presence_users.len(), 1);
    let second = app.close_connection(&s("b"));
    assert_eq!(second.len(), 1);
    assert_eq!(second[0].conn_ids, vec![s("watch")]);
    match &second[0].message {
        SignalingMessage::PresenceUpdate { signing_pubkey, user_id, online, active_signing_pubkey } => {
            assert_eq!(signing_pubkey, "K");
            assert_eq!(user_id, "U");
            assert!(!*online);
            assert!(active_signing_pubkey.is_none());
        }
        _ => panic!("expected a presence update"),
    }
    assert_eq!(app.presence.presence_users.len(), 0);
}

#[test]
fn presence_state_online_until_last_connection() {
    let mut p = PresenceState::new();
    let keys = vec![s("K")];
    p.upsert_presence_hello(&s("a"), s("U"), &keys, None);
    p.upsert_presence_hello(&s("b"), s("U"), &keys, None);
    assert!(p.remove_presence_conn(&s("b")).is_none());
    let gone = p.remove_presence_conn(&s("a"));
    assert_eq!(gone, Some((s("U"), vec![s("K")])));
    assert!(p.remove_presence_conn(&s("a")).is_none());
}

#[test]
fn offline_update_reaches_every_house_of_the_user() {
    let mut app = AppState::new();
    register(&mut app, "wa", "WA", "HA", Some("A"));
    register(&mut app, "wb", "WB", "HB", Some("B"));
    hello(&mut app, "c1", "U", &["A"]);
    hello(&mut app, "c2", "U", &["B"]);
    assert!(app.close_connection(&s("c1")).is_empty());
    let out = app.close_connection(&s("c2"));
    let mut told: Vec<(String, Vec<String>)> = Vec::new();
    for d in &out {
        match &d.message {
            SignalingMessage::PresenceUpdate { signing_pubkey, online, .. } => {
                assert!(!*online);
                told.push((signing_pubkey.clone(), d.conn_ids.clone()));
            }
            _ => panic!("expected a presence update"),
        }
    }
    told.sort();
    assert_eq!(told, vec![(s("A"), vec![s("wa")]), (s("B"), vec![s("wb")])]);
}

#[test]
fn hello_sends_snapshot_then_updates() {
    let mut app = AppState::new();
    register(&mut app, "watch", "W", "H", Some("K1"));
    hello(&mut app, "x", "V", &["K1"]);
    let out = app
        .handle_message(
            &s("a"),
            SignalingMessage::PresenceHello {
                user_id: s("U"),
                signing_pubkeys: vec![s("K1"), s("K2"), s("K1")],
                active_signing_pubkey: Some(s("K1")),
            },
        )
        .ok()
        .unwrap();
    // three snapshots (one per key asked), then one update per distinct key
    assert_eq!(out.len(), 5);
    for d in &out[..3] {
        assert_eq!(d.conn_ids, vec![s("a")]);
    }
    match &out[0].message {
        SignalingMessage::PresenceSnapshot { signing_pubkey, users } => {
            assert_eq!(signing_pubkey, "K1");
            let mut ids: Vec<String> = users.iter().map(|u| u.user_id.clone()).collect();
            ids.sort();
            assert_eq!(ids, vec![s("U"), s("V")]);
        }
        _ => panic!("expected a snapshot"),
    }
    let mut updated: Vec<String> = Vec::new();
    for d in &out[3..] {
        match &d.message {
            SignalingMessage::PresenceUpdate { signing_pubkey, online, active_signing_pubkey, .. } => {
                assert!(*online);
                assert_eq!(active_signing_pubkey.as_deref(), Some("K1"));
                updated.push(signing_pubkey.clone());
            }
            _ => panic!("expected a presence update"),
        }
    }
    updated.sort();
    assert_eq!(updated, vec![s("K1"), s("K2")]);
}

#[test]
fn presence_active_for_unknown_user_does_nothing() {
    let mut app = AppState::new();
    let out = app
        .handle_message(
            &s("a"),
            SignalingMessage::PresenceActive { user_id: s("nobody"), active_signing_pubkey: None },
        )
        .ok()
        .unwrap();
    assert!(out.is_empty());
}

#[test]
fn presence_active_broadcasts_new_active_house() {
    let mut app = AppState::new();
    register(&mut app, "watch", "W", "H", Some("K"));
    hello(&mut app, "a", "U", &["K"]);
    let out = app
        .handle_message(
            &s("a"),
            SignalingMessage::PresenceActive { user_id: s("U"), active_signing_pubkey: Some(s("K")) },
        )
        .ok()
        .unwrap();
    assert_eq!(out.len(), 1);
    assert_eq!(out[0].conn_ids, vec![s("watch")]);
    assert!(matches!(
        &out[0].message,
        SignalingMessage::PresenceUpdate { online: true, active_signing_pubkey: Some(k), .. } if k == "K"
    ));
}

fn announce(app: &mut AppState, rev: i64, name: &str) -> Vec<Delivery> {
    app.handle_message(
        &s("a"),
        SignalingMessage::ProfileAnnounce {
            user_id: s("U"),
            display_name: s(name),
            real_name: None,
            show_real_name: false,
            rev,
            signing_pubkeys: vec![s("K")],
        },
    )
    .ok()
    .unwrap()
}

fn update_rev(d: &Delivery) -> (i64, String) {
    match &d.message {
        SignalingMessage::ProfileUpdate { rev, display_name, .. } => (*rev, display_name.clone()),
        _ => panic!("expected a profile update"),
    }
}

#[test]
fn profile_monotonicity() {
    let mut app = AppState::new();
    register(&mut app, "watch", "W", "H", Some("K"));
    announce(&mut app, 5, "five");
    let older = announce(&mut app, 3, "three");
    assert_eq!(older.len(), 1);
    assert_eq!(older[0].conn_ids, vec![s("watch")]);
    assert_eq!(update_rev(&older[0]), (5, s("five")));
    let same = announce(&mut app, 5, "other five");
    assert_eq!(update_rev(&same[0]), (5, s("five")));
    let newer = announce(&mut app, 6, "six");
    assert_eq!(update_rev(&newer[0]), (6, s("six")));
}

#[test]
fn profile_state_last_writer_wins() {
    let mut p = ProfileState::new();
    let rec = |rev: i64, name: &str| ProfileRecord {
        display_name: s(name),
        real_name: Some(s("Real")),
        show_real_name: true,
        rev,
    };
    let (applied, cur) = p.announce_profile(&s("U"), rec(5, "a"));
    assert!(applied);
    assert_eq!(cur.rev, 5);
    let (applied, cur) = p.announce_profile(&s("U"), rec(3, "b"));
    assert!(!applied);
    assert_eq!((cur.rev, cur.display_name), (5, s("a")));
    let (applied, cur) = p.announce_profile(&s("U"), rec(6, "c"));
    assert!(applied);
    assert_eq!((cur.rev, cur.display_name.as_str()), (6, "c"));
}

#[test]
fn profile_hello_returns_only_known_users_in_order() {
    let mut app = AppState::new();
    announce(&mut app, 1, "u");
    app.handle_message(
        &s("b"),
        SignalingMessage::ProfileAnnounce {
            user_id: s("V"),
            display_name: s("v"),
            real_name: Some(s("Vee")),
            show_real_name: true,
            rev: 2,
            signing_pubkeys: vec![],
        },
    )
    .ok()
    .unwrap();
    let out = app
        .handle_message(
            &s("c"),
            SignalingMessage::ProfileHello {
                signing_pubkey: s("K"),
                user_ids: vec![s("V"), s("missing"), s("U")],
            },
        )
        .ok()
        .unwrap();
    assert_eq!(out.len(), 1);
    assert_eq!(out[0].conn_ids, vec![s("c")]);
    match &out[0].message {
        SignalingMessage::ProfileSnapshot { signing_pubkey, profiles } => {
            assert_eq!(signing_pubkey, "K");
            let ids: Vec<&str> = profiles.iter().map(|p| p.user_id.as_str()).collect();
            assert_eq!(ids, vec!["V", "U"]);
            assert_eq!(profiles[0].real_name.as_deref(), Some("Vee"));
            assert_eq!(profiles[1].rev, 1);
        }
        _ => panic!("expected a profile snapshot"),
    }
}
