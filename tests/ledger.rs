use signaling_server::events::{EventState, HouseEvent, InviteError, InviteTokenCreateRequest};
use signaling_server::time::{Timestamp, SECS_PER_DAY};

fn s(x: &str) -> String {
    x.to_string()
}

fn at(secs: i64) -> Timestamp {
    Timestamp { secs, nanos: 0 }
}

const T0: i64 = 1_700_000_000;

fn request(code: &str, max_uses: u32) -> InviteTokenCreateRequest {
    InviteTokenCreateRequest {
        code: s(code),
        max_uses,
        encrypted_payload: s("payload"),
        signature: s("sig"),
    }
}

fn event(id: &str) -> HouseEvent {
    HouseEvent {
        event_id: s(id),
        signing_pubkey: s("K"),
        event_type: s("MemberJoin"),
        encrypted_payload: s("blob"),
        signature: s("sig"),
        timestamp: at(0),
    }
}

fn ids(events: &[HouseEvent]) -> Vec<String> {
    events.iter().map(|e| e.event_id.clone()).collect()
}

#[test]
fn invite_lifecycle_limited() {
    let mut st = EventState::new();
    let rec = st.put_invite_token_at(&s("K"), request("code-0123456", 2), at(T0)).ok().unwrap();
    assert_eq!(rec.remaining_uses, 2);
    assert_eq!(rec.max_uses, 2);
    assert_eq!(rec.signing_pubkey, "K");
    assert_eq!(rec.created_at, at(T0));
    assert_eq!(rec.expires_at, at(T0 + 30 * SECS_PER_DAY));
    let first = st.redeem_invite_token(&s("code-0123456")).unwrap();
    assert_eq!(first.remaining_uses, 1);
    let second = st.redeem_invite_token(&s("code-0123456")).unwrap();
    assert_eq!(second.remaining_uses, 0);
    assert!(st.redeem_invite_token(&s("code-0123456")).is_none());
    assert_eq!(st.get_invite_token(&s("code-0123456")).unwrap().remaining_uses, 0);
}

#[test]
fn invite_lifecycle_unlimited() {
    let mut st = EventState::new();
    st.put_invite_token_at(&s("K"), request("unlimited-code", 0), at(T0)).ok().unwrap();
    for _ in 0..5 {
        let rec = st.redeem_invite_token(&s("unlimited-code")).unwrap();
        assert_eq!(rec.remaining_uses, 0);
        assert_eq!(rec.max_uses, 0);
    }
    assert_eq!(st.get_invite_token(&s("unlimited-code")).unwrap().remaining_uses, 0);
}

#[test]
fn invite_code_length_bounds() {
    let mut st = EventState::new();
    let short = st.put_invite_token_at(&s("K"), request("123456789", 1), at(T0));
    assert_eq!(short.err(), Some(InviteError::InvalidCodeLength));
    assert_eq!(InviteError::InvalidCodeLength.message(), "Invalid invite code length");
    assert!(st.get_invite_token(&s("123456789")).is_none());
    assert!(st.put_invite_token_at(&s("K"), request("1234567890", 1), at(T0)).is_ok());
    let long64 = "x".repeat(64);
    assert!(st.put_invite_token_at(&s("K"), request(&long64, 1), at(T0)).is_ok());
    let long65 = "x".repeat(65);
    assert!(st.put_invite_token_at(&s("K"), request(&long65, 1), at(T0)).is_err());
    // the length counts characters, not bytes
    assert!(st.put_invite_token_at(&s("K"), request("ééééé", 1), at(T0)).is_err());
    assert!(st.put_invite_token_at(&s("K"), request("éééééééééé", 1), at(T0)).is_ok());
    let long64 = "é".repeat(64);
    assert!(st.put_invite_token_at(&s("K"), request(&long64, 1), at(T0)).is_ok());
}

#[test]
fn invite_code_is_trimmed() {
    let mut st = EventState::new();
    let rec = st
        .put_invite_token_at(&s("K"), request("   abcdefghij \n", 1), at(T0))
        .ok()
        .unwrap();
    assert_eq!(rec.code, "abcdefghij");
    assert!(st.get_invite_token(&s("abcdefghij")).is_some());
    let padded = st.put_invite_token_at(&s("K"), request("  abcdefghi  ", 1), at(T0));
    assert!(padded.is_err());
}

#[test]
fn invite_revoke() {
    let mut st = EventState::new();
    st.put_invite_token_at(&s("K"), request("revocable-1", 1), at(T0)).ok().unwrap();
    assert!(st.revoke_invite_token(&s("revocable-1")));
    assert!(!st.revoke_invite_token(&s("revocable-1")));
    assert!(st.get_invite_token(&s("revocable-1")).is_none());
}

#[test]
fn invite_expiry_boundary() {
    let mut st = EventState::new();
    st.put_invite_token_at(&s("K"), request("expiring-01", 1), at(T0)).ok().unwrap();
    st.put_invite_token_at(&s("K"), request("expiring-02", 1), at(T0 + 1)).ok().unwrap();
    st.gc_expired_invites_at(at(T0 + 30 * SECS_PER_DAY - 1));
    assert!(st.get_invite_token(&s("expiring-01")).is_some());
    st.gc_expired_invites_at(at(T0 + 30 * SECS_PER_DAY));
    assert!(st.get_invite_token(&s("expiring-01")).is_none());
    assert!(st.get_invite_token(&s("expiring-02")).is_some());
}

#[test]
fn event_cursor_semantics() {
    let mut st = EventState::new();
    for id in ["e1", "e2", "e3"] {
        st.post_event_at(s("H"), event(id), at(T0), s("unused"));
    }
    let all = st.get_events(&s("H"), None);
    assert_eq!(ids(&all), vec![s("e1"), s("e2"), s("e3")]);
    let after_first = st.get_events(&s("H"), Some(&s("e1")));
    assert_eq!(ids(&after_first), vec![s("e2"), s("e3")]);
    let after_last = st.get_events(&s("H"), Some(&s("e3")));
    assert!(after_last.is_empty());
    let unknown = st.get_events(&s("H"), Some(&s("unknown")));
    assert!(unknown.is_empty());
    assert!(st.get_events(&s("other"), None).is_empty());
}

#[test]
fn posted_event_is_stamped_and_given_an_id() {
    let mut st = EventState::new();
    st.post_event_at(s("H"), event(""), at(T0 + 7), s("fresh"));
    st.post_event_at(s("H"), event("mine"), at(T0 + 8), s("ignored"));
    let all = st.get_events(&s("H"), None);
    assert_eq!(ids(&all), vec![s("fresh"), s("mine")]);
    assert_eq!(all[0].timestamp, at(T0 + 7));
    assert_eq!(all[1].timestamp, at(T0 + 8));
}

#[test]
fn post_event_with_clock_generates_uuid() {
    let mut st = EventState::new();
    st.post_event(s("H"), event(""));
    st.post_event(s("H"), event("given"));
    let all = st.get_events(&s("H"), None);
    assert_eq!(all.len(), 2);
    assert_eq!(all[0].event_id.len(), 36);
    assert_eq!(all[0].event_id.matches('-').count(), 4);
    assert_eq!(all[1].event_id, "given");
    assert!(all[0].timestamp.secs > 1_600_000_000);
    assert!(all[0].timestamp.nanos < 1_000_000_000);
}

#[test]
fn gc_boundary() {
    let mut st = EventState::new();
    st.post_event_at(s("A"), event("at-cutoff"), at(T0), s("x"));
    st.post_event_at(s("A"), event("just-after"), Timestamp { secs: T0, nanos: 1 }, s("x"));
    st.post_event_at(s("B"), event("old"), at(T0 - 5), s("x"));
    st.gc_old_events_at(at(T0 + 30 * SECS_PER_DAY));
    assert_eq!(ids(&st.get_events(&s("A"), None)), vec![s("just-after")]);
    assert!(st.get_events(&s("B"), None).is_empty());
    assert_eq!(st.event_queues.len(), 1);
    st.gc_old_events_at(at(T0 + 31 * SECS_PER_DAY));
    assert_eq!(st.event_queues.len(), 0);
}

#[test]
fn gc_with_clock_keeps_fresh_events() {
    let mut st = EventState::new();
    st.post_event(s("H"), event("fresh"));
    st.gc_old_events();
    assert_eq!(ids(&st.get_events(&s("H"), None)), vec![s("fresh")]);
    st.put_invite_token(&s("K"), request("clock-code-1", 1)).ok().unwrap();
    st.gc_expired_invites();
    assert!(st.get_invite_token(&s("clock-code-1")).is_some());
}

#[test]
fn ack_overwrites_watermark() {
    let mut st = EventState::new();
    st.ack_events(s("H"), s("U"), s("e1"));
    st.ack_events(s("H"), s("U"), s("e0"));
    st.ack_events(s("H"), s("V"), s("e9"));
    let inner = st.member_acks.get(&s("H")).unwrap();
    assert_eq!(inner.get(&s("U")), Some(&s("e0")));
    assert_eq!(inner.get(&s("V")), Some(&s("e9")));
}

#[test]
fn timestamps_order_by_seconds_then_nanos() {
    let a = Timestamp { secs: 10, nanos: 5 };
    let b = Timestamp { secs: 10, nanos: 4 };
    let c = Timestamp { secs: 9, nanos: 1_500_000_000 };
    assert!(a.is_after(&b));
    assert!(!b.is_after(&a));
    assert!(!a.is_after(&a));
    assert!(b.is_after(&c));
    assert_eq!(at(100).add_days(-1), at(100 - SECS_PER_DAY));
}
