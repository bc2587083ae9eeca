use signaling_server::signaling::SignalingState;

fn s(x: &str) -> String {
    x.to_string()
}

#[test]
fn roster_exclusion() {
    let mut st = SignalingState::new();
    let r1 = st.register_peer(s("c1"), s("P1"), s("H"), None);
    let r2 = st.register_peer(s("c2"), s("P2"), s("H"), None);
    let r3 = st.register_peer(s("c3"), s("P3"), s("H"), None);
    assert!(r1.is_empty());
    assert_eq!(r2, vec![s("P1")]);
    assert_eq!(r3, vec![s("P1"), s("P2")]);
    assert_eq!(st.roster(&s("H")), vec![s("P1"), s("P2"), s("P3")]);
}

#[test]
fn reregistration_does_not_duplicate() {
    let mut st = SignalingState::new();
    st.register_peer(s("c1"), s("P1"), s("H"), None);
    st.register_peer(s("c2"), s("P2"), s("H"), None);
    let again = st.register_peer(s("c1"), s("P1"), s("H"), None);
    assert_eq!(again, vec![s("P2")]);
    assert_eq!(st.roster(&s("H")), vec![s("P1"), s("P2")]);
}

#[test]
fn reregistration_moves_peer_to_new_house() {
    let mut st = SignalingState::new();
    st.register_peer(s("c1"), s("P1"), s("A"), Some(s("K1")));
    st.register_peer(s("c2"), s("P2"), s("A"), None);
    let others = st.register_peer(s("c1"), s("P1"), s("B"), Some(s("K2")));
    assert!(others.is_empty());
    assert_eq!(st.roster(&s("A")), vec![s("P2")]);
    assert_eq!(st.roster(&s("B")), vec![s("P1")]);
    assert!(st.subscriber_conns(&s("K1")).is_empty());
    assert_eq!(st.subscriber_conns(&s("K2")), vec![s("c1")]);
}

#[test]
fn cleanup_completeness() {
    let mut st = SignalingState::new();
    st.register_peer(s("c1"), s("P1"), s("H"), Some(s("K")));
    st.register_peer(s("c1"), s("P2"), s("H"), Some(s("K")));
    st.register_peer(s("c2"), s("P3"), s("H"), None);
    st.close_connection(&s("c1"));
    assert_eq!(st.roster(&s("H")), vec![s("P3")]);
    let reply = st.register_peer(s("c3"), s("P4"), s("H"), None);
    assert_eq!(reply, vec![s("P3")]);
    assert!(st.peer_conn(&s("P1")).is_none());
    assert!(st.peer_conn(&s("P2")).is_none());
    assert!(st.subscriber_conns(&s("K")).is_empty());
    assert_eq!(st.signing_houses.len(), 0);
}

#[test]
fn house_entry_removed_once_empty() {
    let mut st = SignalingState::new();
    st.register_peer(s("c1"), s("P1"), s("H"), None);
    st.register_peer(s("c1"), s("P2"), s("H"), None);
    assert_eq!(st.houses.len(), 1);
    st.close_connection(&s("c1"));
    assert_eq!(st.houses.len(), 0);
    assert!(st.roster(&s("H")).is_empty());
    assert_eq!(st.peers.len(), 0);
    assert_eq!(st.conn_peers.len(), 0);
}

#[test]
fn closing_old_connection_keeps_peer_that_moved() {
    let mut st = SignalingState::new();
    st.register_peer(s("c1"), s("P1"), s("H"), None);
    st.register_peer(s("c2"), s("P1"), s("H"), None);
    st.close_connection(&s("c1"));
    assert_eq!(st.peer_conn(&s("P1")), Some(s("c2")));
    assert_eq!(st.roster(&s("H")), vec![s("P1")]);
}

#[test]
fn unregister_removes_from_roster_and_subscription() {
    let mut st = SignalingState::new();
    st.register_peer(s("c1"), s("P1"), s("H"), Some(s("K")));
    st.register_peer(s("c2"), s("P2"), s("H"), Some(s("K")));
    st.unregister_peer(&s("P1"));
    assert_eq!(st.roster(&s("H")), vec![s("P2")]);
    assert_eq!(st.subscriber_conns(&s("K")), vec![s("c2")]);
    st.unregister_peer(&s("nobody"));
    assert_eq!(st.roster(&s("H")), vec![s("P2")]);
}

#[test]
fn fanout_reaches_each_subscribed_peer() {
    let mut st = SignalingState::new();
    st.register_peer(s("c1"), s("P1"), s("H1"), Some(s("K")));
    st.register_peer(s("c2"), s("P2"), s("H2"), Some(s("K")));
    st.register_peer(s("c3"), s("P3"), s("H3"), None);
    assert_eq!(st.subscriber_conns(&s("K")), vec![s("c1"), s("c2")]);
    assert!(st.subscriber_conns(&s("other")).is_empty());
}
