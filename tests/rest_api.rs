use signaling_server::api::{
    classify_request, decode_path_segment, route_api, since_from_query, split_parts, ApiRoute,
    HttpMethod, RequestKind,
};
use signaling_server::events::{AckRequest, EncryptedHouseHint, HouseEvent, InviteTokenCreateRequest};
use signaling_server::messages::SignalingMessage;
use signaling_server::relay::AppState;
use signaling_server::rest::{ApiBody, ApiReply, BodyKind, NotFoundKind};
use signaling_server::time::Timestamp;

fn s(x: &str) -> String {
    x.to_string()
}

const NOW: Timestamp = Timestamp { secs: 1_700_000_000, nanos: 0 };

#[test]
fn split_keeps_empty_pieces() {
    assert_eq!(split_parts("/api/x/", '/'), vec![s(""), s("api"), s("x"), s("")]);
    assert_eq!(split_parts("", '/'), vec![s("")]);
    assert_eq!(split_parts("a&b", '&'), vec![s("a"), s("b")]);
}

#[test]
fn request_classification() {
    assert_eq!(classify_request(HttpMethod::Options, "/api/x"), RequestKind::Preflight);
    assert_eq!(classify_request(HttpMethod::Get, "/health"), RequestKind::Health);
    assert_eq!(classify_request(HttpMethod::Get, "/api/houses"), RequestKind::Api);
    assert_eq!(classify_request(HttpMethod::Get, "/api"), RequestKind::Other);
    assert_eq!(classify_request(HttpMethod::Get, "/"), RequestKind::Other);
}

#[test]
fn path_segments_are_percent_decoded() {
    assert_eq!(decode_path_segment("abc%20def"), "abc def");
    assert_eq!(decode_path_segment("a%2Fb"), "a/b");
    assert_eq!(decode_path_segment("plain"), "plain");
    // bytes that are not UTF-8 leave the segment as it was
    assert_eq!(decode_path_segment("%FF"), "%FF");
}

#[test]
fn invite_routes() {
    match route_api(HttpMethod::Post, "/api/invites/%20abcdefghij%20/redeem", "") {
        ApiRoute::InviteRedeem { code } => assert_eq!(code, "abcdefghij"),
        _ => panic!("expected a redeem route"),
    }
    assert!(matches!(
        route_api(HttpMethod::Post, "/api/invites/code/revoke", ""),
        ApiRoute::InviteRevoke { code } if code == "code"
    ));
    assert!(matches!(
        route_api(HttpMethod::Get, "/api/invites/code", ""),
        ApiRoute::InviteGet { code } if code == "code"
    ));
    assert!(matches!(
        route_api(HttpMethod::Post, "/api/invites/code", ""),
        ApiRoute::InviteMethodNotAllowed
    ));
    assert!(matches!(
        route_api(HttpMethod::Get, "/api/invites", ""),
        ApiRoute::InviteEndpointNotFound
    ));
}

#[test]
fn house_routes() {
    assert!(matches!(
        route_api(HttpMethod::Post, "/api/houses/k%2B1/register", ""),
        ApiRoute::RegisterHint { signing_pubkey } if signing_pubkey == "k+1"
    ));
    assert!(matches!(
        route_api(HttpMethod::Post, "/api/houses/k/invites", ""),
        ApiRoute::CreateInvite { .. }
    ));
    assert!(matches!(route_api(HttpMethod::Get, "/api/houses/k/hint", ""), ApiRoute::GetHint { .. }));
    assert!(matches!(
        route_api(HttpMethod::Post, "/api/houses/k/events/ack", ""),
        ApiRoute::Ack { .. }
    ));
    assert!(matches!(route_api(HttpMethod::Post, "/api/houses/k/ack", ""), ApiRoute::Ack { .. }));
    assert!(matches!(
        route_api(HttpMethod::Post, "/api/houses/k/events", ""),
        ApiRoute::PostEvent { .. }
    ));
    match route_api(HttpMethod::Get, "/api/houses/k/events", "limit=3&since=e1&since=e2") {
        ApiRoute::ListEvents { signing_pubkey, since } => {
            assert_eq!(signing_pubkey, "k");
            assert_eq!(since, Some(s("e1")));
        }
        _ => panic!("expected an events route"),
    }
    assert!(matches!(
        route_api(HttpMethod::Get, "/api/houses/k/events", ""),
        ApiRoute::ListEvents { since: None, .. }
    ));
    assert!(matches!(
        route_api(HttpMethod::Get, "/api/houses/k/register", ""),
        ApiRoute::HouseMethodNotAllowed
    ));
    assert!(matches!(route_api(HttpMethod::Get, "/api/houses", ""), ApiRoute::HouseEndpointNotFound));
    assert!(matches!(route_api(HttpMethod::Get, "/api/other/x", ""), ApiRoute::NotFound));
    assert!(matches!(route_api(HttpMethod::Get, "/nope/api/x", ""), ApiRoute::NotFound));
}

#[test]
fn since_parameter() {
    assert_eq!(since_from_query("since=abc"), Some(s("abc")));
    assert_eq!(since_from_query("since="), Some(s("")));
    assert_eq!(since_from_query("x=1"), None);
    assert_eq!(since_from_query(""), None);
}

#[test]
fn body_kinds() {
    assert_eq!(ApiRoute::RegisterHint { signing_pubkey: s("k") }.body_kind(), BodyKind::Hint);
    assert_eq!(ApiRoute::CreateInvite { signing_pubkey: s("k") }.body_kind(), BodyKind::InviteRequest);
    assert_eq!(ApiRoute::PostEvent { signing_pubkey: s("k") }.body_kind(), BodyKind::Event);
    assert_eq!(ApiRoute::Ack { signing_pubkey: s("k") }.body_kind(), BodyKind::Ack);
    assert_eq!(ApiRoute::GetHint { signing_pubkey: s("k") }.body_kind(), BodyKind::NoBody);
}

fn hint() -> EncryptedHouseHint {
    EncryptedHouseHint {
        signing_pubkey: s("K"),
        encrypted_state: s("state"),
        signature: s("sig"),
        last_updated: Timestamp { secs: 5, nanos: 7 },
    }
}

#[test]
fn hint_store_and_broadcast() {
    let mut app = AppState::new();
    app.handle_message(
        &s("watch"),
        SignalingMessage::Register { house_id: s("H"), peer_id: s("W"), signing_pubkey: Some(s("K")) },
    )
    .ok()
    .unwrap();
    let (reply, update) = app.handle_api(ApiRoute::RegisterHint { signing_pubkey: s("K") }, ApiBody::Hint(hint()), NOW);
    assert!(matches!(reply, ApiReply::StatusOk));
    assert_eq!(reply.status_code(), 200);
    let update = update.unwrap();
    assert_eq!(update.conn_ids, vec![s("watch")]);
    assert!(matches!(
        update.message,
        SignalingMessage::HouseHintUpdated { ref encrypted_state, last_updated, .. }
            if encrypted_state == "state" && last_updated == Timestamp { secs: 5, nanos: 7 }
    ));
    let (got, _) = app.handle_api(ApiRoute::GetHint { signing_pubkey: s("K") }, ApiBody::Empty, NOW);
    assert!(matches!(got, ApiReply::Hint(ref h) if h.signature == "sig"));
    let (missing, _) = app.handle_api(ApiRoute::GetHint { signing_pubkey: s("Z") }, ApiBody::Empty, NOW);
    assert!(matches!(missing, ApiReply::NotFound(NotFoundKind::HouseHint)));
    assert_eq!(missing.status_code(), 404);
}

#[test]
fn malformed_body_is_a_bad_request() {
    let mut app = AppState::new();
    let (reply, update) = app.handle_api(
        ApiRoute::PostEvent { signing_pubkey: s("K") },
        ApiBody::Malformed(s("expected value")),
        NOW,
    );
    assert!(update.is_none());
    assert_eq!(reply.status_code(), 400);
    assert!(matches!(reply, ApiReply::BadRequest(ref m) if m == "Invalid request body: expected value"));
}

#[test]
fn invite_endpoints() {
    let mut app = AppState::new();
    let req = InviteTokenCreateRequest {
        code: s("short"),
        max_uses: 1,
        encrypted_payload: s("p"),
        signature: s("sig"),
    };
    let (bad, _) = app.handle_api(ApiRoute::CreateInvite { signing_pubkey: s("K") }, ApiBody::InviteRequest(req), NOW);
    assert!(matches!(bad, ApiReply::BadRequest(ref m) if m == "Invalid invite code length"));
    let req = InviteTokenCreateRequest {
        code: s("ééééé"),
        max_uses: 1,
        encrypted_payload: s("p"),
        signature: s("sig"),
    };
    let (few_chars, _) = app.handle_api(ApiRoute::CreateInvite { signing_pubkey: s("K") }, ApiBody::InviteRequest(req), NOW);
    assert_eq!(few_chars.status_code(), 400);
    let req = InviteTokenCreateRequest {
        code: s("long-enough-code"),
        max_uses: 1,
        encrypted_payload: s("p"),
        signature: s("sig"),
    };
    let (made, _) = app.handle_api(ApiRoute::CreateInvite { signing_pubkey: s("K") }, ApiBody::InviteRequest(req), NOW);
    assert!(matches!(made, ApiReply::Invite(ref r) if r.remaining_uses == 1));
    let code = s("long-enough-code");
    let (first, _) = app.handle_api(ApiRoute::InviteRedeem { code: code.clone() }, ApiBody::Empty, NOW);
    assert!(matches!(first, ApiReply::Invite(ref r) if r.remaining_uses == 0));
    let (second, _) = app.handle_api(ApiRoute::InviteRedeem { code: code.clone() }, ApiBody::Empty, NOW);
    assert!(matches!(second, ApiReply::NotFound(NotFoundKind::InviteUnavailable)));
    let (revoked, _) = app.handle_api(ApiRoute::InviteRevoke { code: code.clone() }, ApiBody::Empty, NOW);
    assert!(matches!(revoked, ApiReply::Revoked));
    let (gone, _) = app.handle_api(ApiRoute::InviteGet { code }, ApiBody::Empty, NOW);
    assert!(matches!(gone, ApiReply::NotFound(NotFoundKind::Invite)));
    let (other, _) = app.handle_api(ApiRoute::InviteMethodNotAllowed, ApiBody::Empty, NOW);
    assert_eq!(other.status_code(), 405);
}

#[test]
fn expired_invite_is_not_found() {
    let mut app = AppState::new();
    let req = InviteTokenCreateRequest {
        code: s("expires-soon"),
        max_uses: 0,
        encrypted_payload: s("p"),
        signature: s("sig"),
    };
    app.handle_api(ApiRoute::CreateInvite { signing_pubkey: s("K") }, ApiBody::InviteRequest(req), NOW);
    let later = Timestamp { secs: NOW.secs + 30 * 86400, nanos: 0 };
    let (gone, _) = app.handle_api(ApiRoute::InviteGet { code: s("expires-soon") }, ApiBody::Empty, later);
    assert!(matches!(gone, ApiReply::NotFound(NotFoundKind::Invite)));
}

#[test]
fn events_endpoints() {
    let mut app = AppState::new();
    let ev = |id: &str| HouseEvent {
        event_id: s(id),
        signing_pubkey: s("K"),
        event_type: s("NameChange"),
        encrypted_payload: s("blob"),
        signature: s("sig"),
        timestamp: Timestamp { secs: 0, nanos: 0 },
    };
    let (created, _) = app.handle_api(ApiRoute::PostEvent { signing_pubkey: s("K") }, ApiBody::Event(ev("e1")), NOW);
    assert_eq!(created.status_code(), 201);
    app.handle_api(ApiRoute::PostEvent { signing_pubkey: s("K") }, ApiBody::Event(ev("")), NOW);
    let (all, _) = app.handle_api(
        ApiRoute::ListEvents { signing_pubkey: s("K"), since: Some(s("e1")) },
        ApiBody::Empty,
        NOW,
    );
    match all {
        ApiReply::Events(v) => {
            assert_eq!(v.len(), 1);
            assert_eq!(v[0].event_id.len(), 36);
            assert_eq!(v[0].timestamp, NOW);
        }
        _ => panic!("expected events"),
    }
    let (acked, _) = app.handle_api(
        ApiRoute::Ack { signing_pubkey: s("K") },
        ApiBody::Ack(AckRequest { user_id: s("U"), last_event_id: s("e1") }),
        NOW,
    );
    assert!(matches!(acked, ApiReply::StatusOk));
    let (nf, _) = app.handle_api(ApiRoute::NotFound, ApiBody::Empty, NOW);
    assert!(matches!(nf, ApiReply::NotFound(NotFoundKind::ApiEndpoint)));
}
