use vstd::prelude::*;
use vstd::string::StringExecFns;

use crate::api::ApiRoute;
use crate::events::{
    events_since, invite_record, new_uuid_string, redeemed, stamped, trimmed, unexpired,
    valid_code, AckRequest, EncryptedHouseHint, HouseEvent, InviteTokenCreateRequest,
    InviteTokenRecord,
};
use crate::messages::{fanout_targets, Delivery, SignalingMessage};
use crate::relay::AppState;
use crate::strlist::views;
use crate::time::{utc_now, Timestamp};

verus! {

/// The decoded body of a REST request.
pub enum ApiBody {
    /// the request carries no body that the route reads
    Empty,
    Hint(EncryptedHouseHint),
    InviteRequest(InviteTokenCreateRequest),
    Event(HouseEvent),
    Ack(AckRequest),
    /// the body could not be decoded; the decoder's message
    Malformed(String),
}

/// Which body a route reads.
#[derive(Clone, Copy, Debug, PartialEq, Eq, Structural)]
pub enum BodyKind {
    NoBody,
    Hint,
    InviteRequest,
    Event,
    Ack,
}

/// What was not found.
#[derive(Clone, Copy, Debug, PartialEq, Eq, Structural)]
pub enum NotFoundKind {
    ApiEndpoint,
    InviteEndpoint,
    HouseEndpoint,
    /// a redemption of an unknown, expired or used-up token
    InviteUnavailable,
    Invite,
    HouseHint,
}

/// The answer to a REST request.
pub enum ApiReply {
    /// 200 with the token record
    Invite(InviteTokenRecord),
    /// 200 with the hint
    Hint(EncryptedHouseHint),
    /// 200 with the events
    Events(Vec<HouseEvent>),
    /// 200 {"status":"ok"}
    StatusOk,
    /// 200 {"status":"revoked"}
    Revoked,
    /// 201 {"status":"created"}
    Created,
    /// 404
    NotFound(NotFoundKind),
    /// 400 with a message
    BadRequest(String),
    /// 405
    MethodNotAllowed,
}

impl ApiReply {
    pub fn status_code(&self) -> (r: u16)
        ensures
            r == match self {
                ApiReply::Created => 201u16,
                ApiReply::NotFound(_) => 404u16,
                ApiReply::BadRequest(_) => 400u16,
                ApiReply::MethodNotAllowed => 405u16,
                _ => 200u16,
            },
    {
        match self {
            ApiReply::Created => 201,
            ApiReply::NotFound(_) => 404,
            ApiReply::BadRequest(_) => 400,
            ApiReply::MethodNotAllowed => 405,
            _ => 200,
        }
    }
}

impl ApiRoute {
    /// The body that this route reads.
    pub fn body_kind(&self) -> (r: BodyKind)
        ensures
            r == match self {
                ApiRoute::RegisterHint { .. } => BodyKind::Hint,
                ApiRoute::CreateInvite { .. } => BodyKind::InviteRequest,
                ApiRoute::PostEvent { .. } => BodyKind::Event,
                ApiRoute::Ack { .. } => BodyKind::Ack,
                _ => BodyKind::NoBody,
            },
    {
        match self {
            ApiRoute::RegisterHint { .. } => BodyKind::Hint,
            ApiRoute::CreateInvite { .. } => BodyKind::InviteRequest,
            ApiRoute::PostEvent { .. } => BodyKind::Event,
            ApiRoute::Ack { .. } => BodyKind::Ack,
            _ => BodyKind::NoBody,
        }
    }

    /// Routes under /api/invites/{code}, which first sweep out expired tokens (as does the
    /// creation of a token).
    pub open spec fn sweeps_invites(&self) -> bool {
        self is InviteGet || self is InviteRedeem || self is InviteRevoke
            || self is InviteMethodNotAllowed
    }
}

/// The message of a 400 for a body the decoder refused.
pub open spec fn bad_body_message(body: ApiBody) -> Seq<char> {
    match body {
        ApiBody::Malformed(e) => "Invalid request body: "@ + e@,
        _ => "Invalid request body"@,
    }
}

fn bad_body(body: ApiBody) -> (r: ApiReply)
    ensures
        r is BadRequest && r->BadRequest_0@ == bad_body_message(body),
{
    match body {
        ApiBody::Malformed(e) => {
            let mut msg = "Invalid request body: ".to_owned();
            msg.append(e.as_str());
            ApiReply::BadRequest(msg)
        },
        _ => ApiReply::BadRequest("Invalid request body".to_owned()),
    }
}

/// What serving `route` with `body` at time `now` does to the state, and the reply and
/// broadcast `r` it gives.
pub open spec fn api_outcome(
    before: AppState,
    after: AppState,
    route: ApiRoute,
    body: ApiBody,
    now: Timestamp,
    r: (ApiReply, Option<Delivery>),
) -> bool {
    &&& after.signaling == before.signaling
    &&& after.presence == before.presence
    &&& after.profiles == before.profiles
    &&& r.1 is Some ==> route is RegisterHint
    &&& route.sweeps_invites() ==> after.events.house_hints == before.events.house_hints
        && after.events.event_queues == before.events.event_queues
        && after.events.member_acks == before.events.member_acks
    &&& match route {
        ApiRoute::NotFound => r.0 == ApiReply::NotFound(NotFoundKind::ApiEndpoint)
            && after.events == before.events,
        ApiRoute::InviteEndpointNotFound => r.0 == ApiReply::NotFound(
            NotFoundKind::InviteEndpoint,
        ) && after.events == before.events,
        ApiRoute::HouseEndpointNotFound => r.0 == ApiReply::NotFound(
            NotFoundKind::HouseEndpoint,
        ) && after.events == before.events,
        ApiRoute::InviteGet { code } => {
            let t = unexpired(before.events.invite_tokens@, now);
            &&& after.events.invite_tokens@ == t
            &&& if t.contains_key(code@) {
                r.0 == ApiReply::Invite(t[code@])
            } else {
                r.0 == ApiReply::NotFound(NotFoundKind::Invite)
            }
        },
        ApiRoute::InviteRedeem { code } => {
            let t = unexpired(before.events.invite_tokens@, now);
            if t.contains_key(code@) && redeemed(t[code@]) is Some {
                &&& r.0 == ApiReply::Invite(redeemed(t[code@])->Some_0)
                &&& after.events.invite_tokens@ == t.insert(
                    code@,
                    redeemed(t[code@])->Some_0,
                )
            } else {
                &&& r.0 == ApiReply::NotFound(NotFoundKind::InviteUnavailable)
                &&& after.events.invite_tokens@ == t
            }
        },
        ApiRoute::InviteRevoke { code } => {
            let t = unexpired(before.events.invite_tokens@, now);
            &&& after.events.invite_tokens@ == t.remove(code@)
            &&& if t.contains_key(code@) {
                r.0 == ApiReply::Revoked
            } else {
                r.0 == ApiReply::NotFound(NotFoundKind::Invite)
            }
        },
        ApiRoute::InviteMethodNotAllowed => r.0 == ApiReply::MethodNotAllowed
            && after.events.invite_tokens@ == unexpired(
            before.events.invite_tokens@,
            now,
        ),
        ApiRoute::RegisterHint { signing_pubkey } => match body {
            ApiBody::Hint(h) => {
                &&& r.0 == ApiReply::StatusOk
                &&& after.events.house_hints@ == before.events.house_hints@.insert(
                    signing_pubkey@,
                    h,
                )
                &&& after.events.invite_tokens == before.events.invite_tokens
                &&& after.events.event_queues == before.events.event_queues
                &&& r.1 is Some
                &&& views(r.1->Some_0.conn_ids@) == fanout_targets(
                    before.signaling,
                    signing_pubkey@,
                )
                &&& match r.1->Some_0.message {
                    SignalingMessage::HouseHintUpdated {
                        signing_pubkey: k,
                        encrypted_state,
                        signature,
                        last_updated,
                    } => k == signing_pubkey && encrypted_state == h.encrypted_state
                        && signature == h.signature && last_updated == h.last_updated,
                    _ => false,
                }
            },
            _ => r.0 is BadRequest && r.0->BadRequest_0@ == bad_body_message(body)
                && after.events == before.events,
        },
        ApiRoute::CreateInvite { signing_pubkey } => match body {
            ApiBody::InviteRequest(req) => {
                let t = unexpired(before.events.invite_tokens@, now);
                if valid_code(trimmed(req.code@)) {
                    &&& r.0 is Invite
                    &&& r.0->Invite_0.code@ == trimmed(req.code@)
                    &&& r.0->Invite_0 == invite_record(
                        signing_pubkey,
                        r.0->Invite_0.code,
                        req,
                        now,
                    )
                    &&& after.events.invite_tokens@ == t.insert(
                        r.0->Invite_0.code@,
                        r.0->Invite_0,
                    )
                } else {
                    &&& r.0 is BadRequest
                    &&& r.0->BadRequest_0@ == "Invalid invite code length"@
                    &&& after.events.invite_tokens@ == t
                }
            },
            _ => r.0 is BadRequest && r.0->BadRequest_0@ == bad_body_message(body)
                && after.events == before.events,
        },
        ApiRoute::GetHint { signing_pubkey } => after.events == before.events && if before.events.house_hints@.contains_key(signing_pubkey@) {
            r.0 == ApiReply::Hint(before.events.house_hints@[signing_pubkey@])
        } else {
            r.0 == ApiReply::NotFound(NotFoundKind::HouseHint)
        },
        ApiRoute::PostEvent { signing_pubkey } => match body {
            ApiBody::Event(ev) => {
                &&& r.0 == ApiReply::Created
                &&& exists|fresh_id: String|
                    (ev.event_id@.len() == 0 ==> fresh_id@.len() == 36)
                        && after.events.queues() == before.events.queues().insert(
                        signing_pubkey@,
                        before.events.queue(signing_pubkey@).push(stamped(ev, now, fresh_id)),
                    )
                &&& after.events.house_hints == before.events.house_hints
                &&& after.events.invite_tokens == before.events.invite_tokens
                &&& after.events.member_acks == before.events.member_acks
            },
            _ => r.0 is BadRequest && r.0->BadRequest_0@ == bad_body_message(body)
                && after.events == before.events,
        },
        ApiRoute::Ack { signing_pubkey } => match body {
            ApiBody::Ack(a) => {
                &&& r.0 == ApiReply::StatusOk
                &&& after.events.ack_of(signing_pubkey@, a.user_id@) == Some(
                    a.last_event_id@,
                )
                &&& forall|k: Seq<char>, u: Seq<char>|
                    (k, u) != (signing_pubkey@, a.user_id@) ==> #[trigger] after.events.ack_of(k, u) == before.events.ack_of(k, u)
                &&& after.events.house_hints == before.events.house_hints
                &&& after.events.invite_tokens == before.events.invite_tokens
                &&& after.events.event_queues == before.events.event_queues
            },
            _ => r.0 is BadRequest && r.0->BadRequest_0@ == bad_body_message(body)
                && after.events == before.events,
        },
        ApiRoute::ListEvents { signing_pubkey, since } => {
            &&& after.events == before.events
            &&& r.0 is Events
            &&& r.0->Events_0@ == events_since(
                before.events.queue(signing_pubkey@),
                match since {
                    Some(s) => Some(s@),
                    None => None,
                },
            )
        },
        ApiRoute::HouseMethodNotAllowed => r.0 == ApiReply::MethodNotAllowed
            && after.events == before.events,
    }
    &&& after.voice == before.voice
    &&& after.backends == before.backends
}

impl AppState {
    /// Serves one REST request whose route and body have been read, at time `now`. Also
    /// returns the broadcast that a stored hint causes.
    pub fn handle_api(&mut self, route: ApiRoute, body: ApiBody, now: Timestamp) -> (r: (
        ApiReply,
        Option<Delivery>,
    ))
        requires
            old(self).wf(),
            now.in_clock_range(),
        ensures
            final(self).wf(),
            api_outcome(*old(self), *final(self), route, body, now, r),
    {
        if route.sweeps_invites_exec() {
            self.events.gc_expired_invites_at(now);
        }
        match route {
            ApiRoute::NotFound => (ApiReply::NotFound(NotFoundKind::ApiEndpoint), None),
            ApiRoute::InviteEndpointNotFound => (
                ApiReply::NotFound(NotFoundKind::InviteEndpoint),
                None,
            ),
            ApiRoute::HouseEndpointNotFound => (
                ApiReply::NotFound(NotFoundKind::HouseEndpoint),
                None,
            ),
            ApiRoute::InviteGet { code } => match self.events.get_invite_token(&code) {
                Some(rec) => (ApiReply::Invite(rec.clone()), None),
                None => (ApiReply::NotFound(NotFoundKind::Invite), None),
            },
            ApiRoute::InviteRedeem { code } => match self.events.redeem_invite_token(&code) {
                Some(rec) => (ApiReply::Invite(rec), None),
                None => (ApiReply::NotFound(NotFoundKind::InviteUnavailable), None),
            },
            ApiRoute::InviteRevoke { code } => {
                if self.events.revoke_invite_token(&code) {
                    (ApiReply::Revoked, None)
                } else {
                    (ApiReply::NotFound(NotFoundKind::Invite), None)
                }
            },
            ApiRoute::InviteMethodNotAllowed => (ApiReply::MethodNotAllowed, None),
            ApiRoute::RegisterHint { signing_pubkey } => match body {
                ApiBody::Hint(hint) => {
                    let update = self.broadcast_house_hint_updated(&signing_pubkey, &hint);
                    self.events.register_house_hint(signing_pubkey, hint);
                    (ApiReply::StatusOk, Some(update))
                },
                _ => (bad_body(body), None),
            },
            ApiRoute::CreateInvite { signing_pubkey } => match body {
                ApiBody::InviteRequest(req) => {
                    self.events.gc_expired_invites_at(now);
                    match self.events.put_invite_token_at(&signing_pubkey, req, now) {
                        Ok(rec) => (ApiReply::Invite(rec), None),
                        Err(e) => (ApiReply::BadRequest(e.message().to_owned()), None),
                    }
                },
                _ => (bad_body(body), None),
            },
            ApiRoute::GetHint { signing_pubkey } => match self.events.get_house_hint(
                &signing_pubkey,
            ) {
                Some(hint) => (ApiReply::Hint(hint.clone()), None),
                None => (ApiReply::NotFound(NotFoundKind::HouseHint), None),
            },
            ApiRoute::PostEvent { signing_pubkey } => match body {
                ApiBody::Event(event) => {
                    let fresh_id = if event.event_id.as_str().is_empty() {
                        new_uuid_string()
                    } else {
                        String::new()
                    };
                    self.events.post_event_at(signing_pubkey, event, now, fresh_id);
                    (ApiReply::Created, None)
                },
                _ => (bad_body(body), None),
            },
            ApiRoute::Ack { signing_pubkey } => match body {
                ApiBody::Ack(ack) => {
                    self.events.ack_events(signing_pubkey, ack.user_id, ack.last_event_id);
                    (ApiReply::StatusOk, None)
                },
                _ => (bad_body(body), None),
            },
            ApiRoute::ListEvents { signing_pubkey, since } => {
                let events = self.events.get_events(&signing_pubkey, since.as_ref());
                (ApiReply::Events(events), None)
            },
            ApiRoute::HouseMethodNotAllowed => (ApiReply::MethodNotAllowed, None),
        }
    }
}

impl AppState {
    /// Serves one REST request at the current time.
    pub fn handle_api_now(&mut self, route: ApiRoute, body: ApiBody) -> (r: (
        ApiReply,
        Option<Delivery>,
    ))
        requires
            old(self).wf(),
        ensures
            final(self).wf(),
            exists|now: Timestamp|
                now.in_clock_range() && api_outcome(*old(self), *final(self), route, body, now, r),
    {
        let now = utc_now();
        self.handle_api(route, body, now)
    }
}

impl ApiRoute {
    fn sweeps_invites_exec(&self) -> (r: bool)
        ensures
            r == self.sweeps_invites(),
    {
        match self {
            ApiRoute::InviteGet { .. }
            | ApiRoute::InviteRedeem { .. }
            | ApiRoute::InviteRevoke { .. }
            | ApiRoute::InviteMethodNotAllowed => true,
            _ => false,
        }
    }
}

} // verus!
