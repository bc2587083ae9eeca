use vstd::prelude::*;
use vstd::string::StrSliceExecFns;

use crate::strmap::StrMap;
use crate::time::{later, plus_days, utc_now, Timestamp, EVENT_RETENTION_DAYS, INVITE_TTL_DAYS};

verus! {

/// A non-authoritative encrypted snapshot of a house, overwritable by any member.
pub struct EncryptedHouseHint {
    pub signing_pubkey: String,
    pub encrypted_state: String,
    pub signature: String,
    pub last_updated: Timestamp,
}

impl Clone for EncryptedHouseHint {
    fn clone(&self) -> (r: Self)
        ensures
            r == *self,
    {
        EncryptedHouseHint {
            signing_pubkey: self.signing_pubkey.clone(),
            encrypted_state: self.encrypted_state.clone(),
            signature: self.signature.clone(),
            last_updated: self.last_updated,
        }
    }
}

/// A request to create an invite token under a house key.
pub struct InviteTokenCreateRequest {
    pub code: String,
    /// 0 means unlimited
    pub max_uses: u32,
    pub encrypted_payload: String,
    pub signature: String,
}

/// A temporary, use-limited invitation.
pub struct InviteTokenRecord {
    pub code: String,
    pub signing_pubkey: String,
    pub encrypted_payload: String,
    pub signature: String,
    pub created_at: Timestamp,
    pub expires_at: Timestamp,
    pub max_uses: u32,
    pub remaining_uses: u32,
}

impl Clone for InviteTokenRecord {
    fn clone(&self) -> (r: Self)
        ensures
            r == *self,
    {
        InviteTokenRecord {
            code: self.code.clone(),
            signing_pubkey: self.signing_pubkey.clone(),
            encrypted_payload: self.encrypted_payload.clone(),
            signature: self.signature.clone(),
            created_at: self.created_at,
            expires_at: self.expires_at,
            max_uses: self.max_uses,
            remaining_uses: self.remaining_uses,
        }
    }
}

/// One opaque, signed fact about a house.
pub struct HouseEvent {
    pub event_id: String,
    pub signing_pubkey: String,
    pub event_type: String,
    pub encrypted_payload: String,
    pub signature: String,
    pub timestamp: Timestamp,
}

impl Clone for HouseEvent {
    fn clone(&self) -> (r: Self)
        ensures
            r == *self,
    {
        HouseEvent {
            event_id: self.event_id.clone(),
            signing_pubkey: self.signing_pubkey.clone(),
            event_type: self.event_type.clone(),
            encrypted_payload: self.encrypted_payload.clone(),
            signature: self.signature.clone(),
            timestamp: self.timestamp,
        }
    }
}

/// A member's claim to have processed a house's events up to one of them.
pub struct AckRequest {
    pub user_id: String,
    pub last_event_id: String,
}

/// Why an invite token was not created.
#[derive(Clone, Copy, Debug, PartialEq, Eq, Structural)]
pub enum InviteError {
    /// The trimmed code is shorter than 10 or longer than 64 characters.
    InvalidCodeLength,
}

impl InviteError {
    pub fn message(&self) -> (r: &'static str)
        ensures
            r@ == "Invalid invite code length"@,
    {
        match self {
            InviteError::InvalidCodeLength => "Invalid invite code length",
        }
    }
}

/// What `str::trim` makes of a string.
pub uninterp spec fn trimmed(s: Seq<char>) -> Seq<char>;

/// A printable ASCII character other than space; none of them is whitespace.
pub open spec fn ascii_graphic(c: char) -> bool {
    '!' <= c <= '~'
}

/// Relies on str::trim: the string without its leading and trailing whitespace, which
/// depends on its characters alone. An empty string stays empty, and a string that starts
/// and ends with a printable ASCII character other than space has nothing to remove.
#[verifier::external_body]
pub(crate) fn trim_code(s: &str) -> (r: String)
    ensures
        r@ == trimmed(s@),
        s@.len() == 0 ==> r@.len() == 0,
        s@.len() > 0 && ascii_graphic(s@[0]) && ascii_graphic(s@.last()) ==> r@ == s@,
{
    s.trim().to_string()
}

/// Relies on uuid::Uuid::new_v4 and its hyphenated text form: a random identifier of 36
/// characters.
#[verifier::external_body]
pub(crate) fn new_uuid_string() -> (r: String)
    ensures
        r@.len() == 36,
{
    uuid::Uuid::new_v4().to_string()
}

/// Invite codes are between 10 and 64 characters long once trimmed.
pub open spec fn valid_code(code: Seq<char>) -> bool {
    10 <= code.len() <= 64
}

/// The record that creating an invite at `now` stores.
pub open spec fn invite_record(
    signing_pubkey: String,
    code: String,
    req: InviteTokenCreateRequest,
    now: Timestamp,
) -> InviteTokenRecord {
    InviteTokenRecord {
        code: code,
        signing_pubkey: signing_pubkey,
        encrypted_payload: req.encrypted_payload,
        signature: req.signature,
        created_at: now,
        expires_at: plus_days(now, INVITE_TTL_DAYS as int),
        max_uses: req.max_uses,
        remaining_uses: req.max_uses,
    }
}

/// What redeeming a token does: an unlimited token is handed out unchanged, a limited one
/// loses one use, and an exhausted or unknown one is not found.
pub open spec fn redeemed(rec: InviteTokenRecord) -> Option<InviteTokenRecord> {
    if rec.max_uses == 0 {
        Some(rec)
    } else if rec.remaining_uses == 0 {
        None
    } else {
        Some(InviteTokenRecord { remaining_uses: (rec.remaining_uses - 1) as u32, ..rec })
    }
}

/// Redemption never takes a token below zero uses: an unlimited token comes back as it was
/// (so storing it again changes nothing), a limited one with uses left loses exactly one,
/// and one with none left is refused.
pub proof fn lemma_redeem_uses(m: Map<Seq<char>, InviteTokenRecord>, code: Seq<char>)
    requires
        m.contains_key(code),
    ensures
        m[code].max_uses == 0 ==> redeemed(m[code]) == Some(m[code]) && m.insert(
            code,
            m[code],
        ) == m,
        m[code].max_uses > 0 && m[code].remaining_uses > 0 ==> redeemed(m[code]) is Some
            && redeemed(m[code])->Some_0.remaining_uses == m[code].remaining_uses - 1
            && redeemed(m[code])->Some_0.max_uses == m[code].max_uses,
        m[code].max_uses > 0 && m[code].remaining_uses == 0 ==> redeemed(m[code]) is None,
{
    assert(m.insert(code, m[code]) =~= m);
}

/// The events after the first one whose id is `id`; nothing if no event has that id.
pub open spec fn skip_through(q: Seq<HouseEvent>, id: Seq<char>) -> Seq<HouseEvent>
    decreases q.len(),
{
    if q.len() == 0 {
        q
    } else if q[0].event_id@ == id {
        q.subrange(1, q.len() as int)
    } else {
        skip_through(q.subrange(1, q.len() as int), id)
    }
}

/// The tokens that are still valid at `now`: those expiring strictly after it.
pub open spec fn unexpired(m: Map<Seq<char>, InviteTokenRecord>, now: Timestamp) -> Map<
    Seq<char>,
    InviteTokenRecord,
> {
    Map::new(|c: Seq<char>| m.contains_key(c) && later(m[c].expires_at, now), |c: Seq<char>| m[c])
}

/// The answer to a poll of queue `q` with an optional cursor.
pub open spec fn events_since(q: Seq<HouseEvent>, since: Option<Seq<char>>) -> Seq<HouseEvent> {
    match since {
        None => q,
        Some(id) => skip_through(q, id),
    }
}

/// The instant before which events are purged, when collecting at `now`.
pub open spec fn retention_cutoff(now: Timestamp) -> Timestamp {
    plus_days(now, -EVENT_RETENTION_DAYS)
}

/// The events of `q` that survive a collection with the given cutoff: those strictly
/// later than it, in order.
pub open spec fn retained(q: Seq<HouseEvent>, cutoff: Timestamp) -> Seq<HouseEvent>
    decreases q.len(),
{
    if q.len() == 0 {
        q
    } else if later(q.last().timestamp, cutoff) {
        retained(q.drop_last(), cutoff).push(q.last())
    } else {
        retained(q.drop_last(), cutoff)
    }
}

/// The event as stored: stamped with the server's time, and given `fresh_id` if it came
/// without an id.
pub open spec fn stamped(event: HouseEvent, now: Timestamp, fresh_id: String) -> HouseEvent {
    HouseEvent {
        event_id: if event.event_id@.len() == 0 {
            fresh_id
        } else {
            event.event_id
        },
        timestamp: now,
        ..event
    }
}

proof fn lemma_skip_step(q: Seq<HouseEvent>, id: Seq<char>, i: int)
    requires
        0 <= i < q.len(),
        q[i].event_id@ != id,
    ensures
        skip_through(q.subrange(i, q.len() as int), id) == skip_through(
            q.subrange(i + 1, q.len() as int),
            id,
        ),
{
    let t = q.subrange(i, q.len() as int);
    assert(t[0] == q[i]);
    assert(t.subrange(1, t.len() as int) =~= q.subrange(i + 1, q.len() as int));
}

/// The events of `q` strictly later than `cutoff`, in order.
fn retain_after(q: &Vec<HouseEvent>, cutoff: &Timestamp) -> (r: Vec<HouseEvent>)
    ensures
        r@ == retained(q@, *cutoff),
{
    let mut out: Vec<HouseEvent> = Vec::new();
    let mut i: usize = 0;
    while i < q.len()
        invariant
            i <= q@.len(),
            out@ == retained(q@.subrange(0, i as int), *cutoff),
        decreases q@.len() - i,
    {
        assert(q@.subrange(0, i + 1).drop_last() =~= q@.subrange(0, i as int));
        if q[i].timestamp.is_after(cutoff) {
            out.push(q[i].clone());
        }
        i = i + 1;
    }
    assert(q@.subrange(0, q@.len() as int) =~= q@);
    out
}

/// Where a poll with cursor `id` starts reading `q`: just past the first event with that
/// id, or the end of the queue when there is none.
fn skip_index(q: &Vec<HouseEvent>, id: &String) -> (r: usize)
    ensures
        r <= q@.len(),
        skip_through(q@, id@) == q@.subrange(r as int, q@.len() as int),
{
    let ghost qs = q@;
    let mut i: usize = 0;
    assert(qs.subrange(0, qs.len() as int) =~= qs);
    while i < q.len() && q[i].event_id != *id
        invariant
            i <= q@.len(),
            qs == q@,
            skip_through(qs, id@) == skip_through(qs.subrange(i as int, qs.len() as int), id@),
        decreases q@.len() - i,
    {
        proof {
            lemma_skip_step(qs, id@, i as int);
        }
        i = i + 1;
    }
    if i == q.len() {
        assert(qs.subrange(i as int, qs.len() as int).len() == 0);
        return i;
    }
    let ghost t = qs.subrange(i as int, qs.len() as int);
    assert(t[0] == qs[i as int]);
    assert(t.subrange(1, t.len() as int) =~= qs.subrange(i + 1, qs.len() as int));
    i + 1
}

/// The events of `q` from position `start` on.
fn tail_from(q: &Vec<HouseEvent>, start: usize) -> (r: Vec<HouseEvent>)
    requires
        start <= q@.len(),
    ensures
        r@ == q@.subrange(start as int, q@.len() as int),
{
    let mut out: Vec<HouseEvent> = Vec::new();
    let mut j: usize = start;
    while j < q.len()
        invariant
            start <= j <= q@.len(),
            out@ == q@.subrange(start as int, j as int),
        decreases q@.len() - j,
    {
        out.push(q[j].clone());
        j = j + 1;
        assert(out@ =~= q@.subrange(start as int, j as int));
    }
    out
}

/// Event queues, house hints, invite tokens and acknowledgment watermarks.
pub struct EventState {
    /// house key -> the latest hint
    pub house_hints: StrMap<EncryptedHouseHint>,
    /// code -> invite token
    pub invite_tokens: StrMap<InviteTokenRecord>,
    /// house key -> its events in order of posting
    pub event_queues: StrMap<Vec<HouseEvent>>,
    /// house key -> user id -> the last event id the user acknowledged
    pub member_acks: StrMap<StrMap<String>>,
}

impl EventState {
    pub open spec fn wf(&self) -> bool {
        &&& self.house_hints.wf()
        &&& self.invite_tokens.wf()
        &&& self.event_queues.wf()
        &&& self.member_acks.wf()
        &&& forall|k: Seq<char>| #[trigger]
            self.member_acks@.contains_key(k) ==> self.member_acks@[k].wf()
    }

    /// The event queues, as sequences.
    pub open spec fn queues(&self) -> Map<Seq<char>, Seq<HouseEvent>> {
        self.event_queues@.map_values(|v: Vec<HouseEvent>| v@)
    }

    /// The queue of a house key, empty when it has none.
    pub open spec fn queue(&self, key: Seq<char>) -> Seq<HouseEvent> {
        if self.queues().contains_key(key) {
            self.queues()[key]
        } else {
            Seq::empty()
        }
    }

    /// The watermark of `user` in the house under `key`.
    pub open spec fn ack_of(&self, key: Seq<char>, user: Seq<char>) -> Option<Seq<char>> {
        if self.member_acks@.contains_key(key) && self.member_acks@[key]@.contains_key(user) {
            Some(self.member_acks@[key]@[user]@)
        } else {
            None
        }
    }

    pub fn new() -> (r: Self)
        ensures
            r.wf(),
            r.house_hints@.is_empty(),
            r.invite_tokens@.is_empty(),
            r.queues().is_empty(),
            r.member_acks@.is_empty(),
    {
        let r = EventState {
            house_hints: StrMap::new(),
            invite_tokens: StrMap::new(),
            event_queues: StrMap::new(),
            member_acks: StrMap::new(),
        };
        assert(r.queues() =~= Map::empty());
        r
    }

    /// Stores (or overwrites) the hint of a house.
    pub fn register_house_hint(&mut self, signing_pubkey: String, hint: EncryptedHouseHint)
        requires
            old(self).wf(),
        ensures
            final(self).wf(),
            final(self).house_hints@ == old(self).house_hints@.insert(signing_pubkey@, hint),
            final(self).invite_tokens == old(self).invite_tokens,
            final(self).event_queues == old(self).event_queues,
            final(self).member_acks == old(self).member_acks,
    {
        self.house_hints.insert(signing_pubkey, hint);
    }

    pub fn get_house_hint(&self, signing_pubkey: &String) -> (r: Option<&EncryptedHouseHint>)
        requires
            self.wf(),
        ensures
            match r {
                Some(h) => self.house_hints@.contains_key(signing_pubkey@) && *h
                    == self.house_hints@[signing_pubkey@],
                None => !self.house_hints@.contains_key(signing_pubkey@),
            },
    {
        self.house_hints.get(signing_pubkey)
    }

    /// Creates an invite token under `signing_pubkey` at `now`, keyed by the trimmed code,
    /// replacing any token with that code. A code of the wrong length is refused.
    pub fn put_invite_token_at(
        &mut self,
        signing_pubkey: &String,
        req: InviteTokenCreateRequest,
        now: Timestamp,
    ) -> (r: Result<InviteTokenRecord, InviteError>)
        requires
            old(self).wf(),
            now.in_clock_range(),
        ensures
            final(self).wf(),
            r is Ok <==> valid_code(trimmed(req.code@)),
            match r {
                Ok(rec) => rec.code@ == trimmed(req.code@) && rec == invite_record(
                    *signing_pubkey,
                    rec.code,
                    req,
                    now,
                ) && final(self).invite_tokens@ == old(self).invite_tokens@.insert(rec.code@, rec),
                Err(e) => e == InviteError::InvalidCodeLength && final(self).invite_tokens
                    == old(self).invite_tokens,
            },
            final(self).house_hints == old(self).house_hints,
            final(self).event_queues == old(self).event_queues,
            final(self).member_acks == old(self).member_acks,
    {
        let code = trim_code(req.code.as_str());
        let n = code.as_str().unicode_len();
        if n < 10 || n > 64 {
            return Err(InviteError::InvalidCodeLength);
        }
        let expires_at = now.add_days(INVITE_TTL_DAYS);
        let record = InviteTokenRecord {
            code: code.clone(),
            signing_pubkey: signing_pubkey.clone(),
            encrypted_payload: req.encrypted_payload,
            signature: req.signature,
            created_at: now,
            expires_at,
            max_uses: req.max_uses,
            remaining_uses: req.max_uses,
        };
        self.invite_tokens.insert(code, record.clone());
        Ok(record)
    }

    /// Creates an invite token, stamped with the current time.
    pub fn put_invite_token(&mut self, signing_pubkey: &String, req: InviteTokenCreateRequest) -> (r:
        Result<InviteTokenRecord, InviteError>)
        requires
            old(self).wf(),
        ensures
            final(self).wf(),
            r is Ok <==> valid_code(trimmed(req.code@)),
            match r {
                Ok(rec) => rec.code@ == trimmed(req.code@) && rec.created_at.in_clock_range()
                    && rec == invite_record(*signing_pubkey, rec.code, req, rec.created_at)
                    && final(self).invite_tokens@ == old(self).invite_tokens@.insert(rec.code@, rec),
                Err(e) => e == InviteError::InvalidCodeLength && final(self).invite_tokens
                    == old(self).invite_tokens,
            },
            final(self).house_hints == old(self).house_hints,
            final(self).event_queues == old(self).event_queues,
            final(self).member_acks == old(self).member_acks,
    {
        let now = utc_now();
        self.put_invite_token_at(signing_pubkey, req, now)
    }

    pub fn get_invite_token(&self, code: &String) -> (r: Option<&InviteTokenRecord>)
        requires
            self.wf(),
        ensures
            match r {
                Some(rec) => self.invite_tokens@.contains_key(code@) && *rec
                    == self.invite_tokens@[code@],
                None => !self.invite_tokens@.contains_key(code@),
            },
    {
        self.invite_tokens.get(code)
    }

    /// Redeems one use of the token `code`, returning the record after the redemption.
    pub fn redeem_invite_token(&mut self, code: &String) -> (r: Option<InviteTokenRecord>)
        requires
            old(self).wf(),
        ensures
            final(self).wf(),
            !old(self).invite_tokens@.contains_key(code@) ==> r is None && final(self).invite_tokens@
                == old(self).invite_tokens@,
            old(self).invite_tokens@.contains_key(code@) ==> r == redeemed(
                old(self).invite_tokens@[code@],
            ),
            old(self).invite_tokens@.contains_key(code@) ==> final(self).invite_tokens@ == match r {
                Some(rec) => old(self).invite_tokens@.insert(code@, rec),
                None => old(self).invite_tokens@,
            },
            final(self).house_hints == old(self).house_hints,
            final(self).event_queues == old(self).event_queues,
            final(self).member_acks == old(self).member_acks,
    {
        let rec = match self.invite_tokens.get(code) {
            Some(rec) => rec.clone(),
            None => {
                return None;
            },
        };
        if rec.max_uses == 0 {
            return Some(rec);
        }
        if rec.remaining_uses == 0 {
            return None;
        }
        let mut next = rec;
        next.remaining_uses = next.remaining_uses - 1;
        self.invite_tokens.insert(code.clone(), next.clone());
        Some(next)
    }

    /// Deletes the token `code`, saying whether it existed.
    pub fn revoke_invite_token(&mut self, code: &String) -> (r: bool)
        requires
            old(self).wf(),
        ensures
            final(self).wf(),
            r == old(self).invite_tokens@.contains_key(code@),
            final(self).invite_tokens@ == old(self).invite_tokens@.remove(code@),
            final(self).house_hints == old(self).house_hints,
            final(self).event_queues == old(self).event_queues,
            final(self).member_acks == old(self).member_acks,
    {
        self.invite_tokens.remove(code).is_some()
    }

    /// Removes every token that has expired by `now`: one survives only while its expiry
    /// lies strictly after `now`.
    pub fn gc_expired_invites_at(&mut self, now: Timestamp)
        requires
            old(self).wf(),
        ensures
            final(self).wf(),
            final(self).invite_tokens@ == unexpired(old(self).invite_tokens@, now),
            forall|c: Seq<char>| #[trigger]
                final(self).invite_tokens@.contains_key(c) <==> (old(
                    self,
                ).invite_tokens@.contains_key(c) && later(
                    old(self).invite_tokens@[c].expires_at,
                    now,
                )),
            forall|c: Seq<char>| #[trigger]
                final(self).invite_tokens@.contains_key(c) ==> final(self).invite_tokens@[c] == old(
                    self,
                ).invite_tokens@[c],
            final(self).house_hints == old(self).house_hints,
            final(self).event_queues == old(self).event_queues,
            final(self).member_acks == old(self).member_acks,
    {
        let ghost m0 = self.invite_tokens@;
        let mut i: usize = 0;
        while i < self.invite_tokens.len()
            invariant
                self.wf(),
                i <= self.invite_tokens.entries().len(),
                forall|j: int|
                    0 <= j < i ==> later(
                        (#[trigger] self.invite_tokens.entries()[j]).1.expires_at,
                        now,
                    ),
                forall|c: Seq<char>| #[trigger]
                    self.invite_tokens@.contains_key(c) ==> m0.contains_key(c)
                        && self.invite_tokens@[c] == m0[c],
                forall|c: Seq<char>| #[trigger]
                    m0.contains_key(c) && later(m0[c].expires_at, now)
                        ==> self.invite_tokens@.contains_key(c),
                self.house_hints == old(self).house_hints,
                self.event_queues == old(self).event_queues,
                self.member_acks == old(self).member_acks,
            decreases self.invite_tokens.entries().len() - i,
        {
            if self.invite_tokens.value_at(i).expires_at.is_after(&now) {
                i = i + 1;
            } else {
                let ghost before = self.invite_tokens;
                proof {
                    before.lemma_entries();
                }
                let (_, _) = self.invite_tokens.remove_at(i);
                proof {
                    assert forall|j: int| 0 <= j < i implies later(
                        (#[trigger] self.invite_tokens.entries()[j]).1.expires_at,
                        now,
                    ) by {
                        assert(self.invite_tokens.entries()[j] == before.entries()[j]);
                    }
                }
            }
        }
        proof {
            self.invite_tokens.lemma_entries();
            assert(self.invite_tokens@ =~= unexpired(m0, now));
        }
    }

    /// Removes expired tokens, as of the current time.
    pub fn gc_expired_invites(&mut self)
        requires
            old(self).wf(),
        ensures
            final(self).wf(),
            exists|now: Timestamp|
                now.in_clock_range() && final(self).invite_tokens@ == unexpired(
                    old(self).invite_tokens@,
                    now,
                ),
            final(self).house_hints == old(self).house_hints,
            final(self).event_queues == old(self).event_queues,
            final(self).member_acks == old(self).member_acks,
    {
        let now = utc_now();
        self.gc_expired_invites_at(now);
    }

    /// Appends `event` to the queue of `signing_pubkey`, stamped with `now`; an event
    /// without an id is given `fresh_id`.
    pub fn post_event_at(
        &mut self,
        signing_pubkey: String,
        event: HouseEvent,
        now: Timestamp,
        fresh_id: String,
    )
        requires
            old(self).wf(),
        ensures
            final(self).wf(),
            final(self).queues() == old(self).queues().insert(
                signing_pubkey@,
                old(self).queue(signing_pubkey@).push(stamped(event, now, fresh_id)),
            ),
            final(self).house_hints == old(self).house_hints,
            final(self).invite_tokens == old(self).invite_tokens,
            final(self).member_acks == old(self).member_acks,
    {
        let ghost q0 = old(self).queues();
        let mut event = event;
        let ghost e0 = event;
        event.timestamp = now;
        if event.event_id.as_str().is_empty() {
            event.event_id = fresh_id;
        }
        assert(event == stamped(e0, now, fresh_id));
        let mut q = match self.event_queues.remove(&signing_pubkey) {
            Some(q) => q,
            None => Vec::new(),
        };
        q.push(event);
        self.event_queues.insert(signing_pubkey, q);
        assert(self.queues() =~= q0.insert(
            signing_pubkey@,
            old(self).queue(signing_pubkey@).push(stamped(e0, now, fresh_id)),
        ));
    }

    /// Appends an event, stamped with the current time and given a fresh id if it has none.
    pub fn post_event(&mut self, signing_pubkey: String, event: HouseEvent)
        requires
            old(self).wf(),
        ensures
            final(self).wf(),
            exists|now: Timestamp, fresh_id: String|
                {
                    &&& now.in_clock_range()
                    &&& (event.event_id@.len() == 0 ==> fresh_id@.len() == 36)
                    &&& final(self).queues() == old(self).queues().insert(
                        signing_pubkey@,
                        old(self).queue(signing_pubkey@).push(stamped(event, now, fresh_id)),
                    )
                },
            final(self).house_hints == old(self).house_hints,
            final(self).invite_tokens == old(self).invite_tokens,
            final(self).member_acks == old(self).member_acks,
    {
        let now = utc_now();
        let fresh_id = if event.event_id.as_str().is_empty() {
            new_uuid_string()
        } else {
            String::new()
        };
        let ghost e = event;
        let ghost id = fresh_id;
        self.post_event_at(signing_pubkey, event, now, fresh_id);
        assert(self.queues() == old(self).queues().insert(
            signing_pubkey@,
            old(self).queue(signing_pubkey@).push(stamped(e, now, id)),
        ));
    }

    /// The events of `signing_pubkey` after the cursor `since`: all of them without a
    /// cursor, those after the first event with that id with one, and none when no event
    /// has that id.
    pub fn get_events(&self, signing_pubkey: &String, since: Option<&String>) -> (r: Vec<
        HouseEvent,
    >)
        requires
            self.wf(),
        ensures
            r@ == events_since(
                self.queue(signing_pubkey@),
                match since {
                    Some(s) => Some(s@),
                    None => None,
                },
            ),
    {
        let q = match self.event_queues.get(signing_pubkey) {
            Some(q) => q,
            None => {
                return Vec::new();
            },
        };
        let start = match since {
            Some(id) => skip_index(q, id),
            None => 0,
        };
        assert(since is None ==> q@.subrange(0, q@.len() as int) =~= q@);
        tail_from(q, start)
    }

    /// Records `last_event_id` as the watermark of `user_id` in the house under
    /// `signing_pubkey`, whatever was there.
    pub fn ack_events(&mut self, signing_pubkey: String, user_id: String, last_event_id: String)
        requires
            old(self).wf(),
        ensures
            final(self).wf(),
            final(self).ack_of(signing_pubkey@, user_id@) == Some(last_event_id@),
            forall|k: Seq<char>, u: Seq<char>|
                (k, u) != (signing_pubkey@, user_id@) ==> #[trigger] final(self).ack_of(k, u)
                    == old(self).ack_of(k, u),
            final(self).house_hints == old(self).house_hints,
            final(self).invite_tokens == old(self).invite_tokens,
            final(self).event_queues == old(self).event_queues,
    {
        let ghost s0 = *self;
        let mut inner = match self.member_acks.remove(&signing_pubkey) {
            Some(m) => m,
            None => StrMap::new(),
        };
        let ghost inner0 = inner@;
        inner.insert(user_id, last_event_id);
        self.member_acks.insert(signing_pubkey, inner);
        proof {
            assert forall|k: Seq<char>, u: Seq<char>|
                (k, u) != (signing_pubkey@, user_id@) implies #[trigger] self.ack_of(k, u)
                == s0.ack_of(k, u) by {
                if k == signing_pubkey@ {
                    assert(u != user_id@);
                }
            }
        }
    }

    /// Purges every event that is not strictly later than the retention cutoff of `now`,
    /// and drops the queues left empty.
    pub fn gc_old_events_at(&mut self, now: Timestamp)
        requires
            old(self).wf(),
            now.in_clock_range(),
        ensures
            final(self).wf(),
            forall|k: Seq<char>| #[trigger]
                final(self).queues().contains_key(k) <==> (old(self).queues().contains_key(k)
                    && retained(old(self).queues()[k], retention_cutoff(now)).len() > 0),
            forall|k: Seq<char>| #[trigger]
                final(self).queues().contains_key(k) ==> final(self).queues()[k] == retained(
                    old(self).queues()[k],
                    retention_cutoff(now),
                ),
            final(self).house_hints == old(self).house_hints,
            final(self).invite_tokens == old(self).invite_tokens,
            final(self).member_acks == old(self).member_acks,
    {
        let cutoff = now.add_days(-EVENT_RETENTION_DAYS);
        let ghost m0 = self.queues();
        proof {
            self.event_queues.lemma_entries();
        }
        let mut i: usize = 0;
        while i < self.event_queues.len()
            invariant
                self.wf(),
                cutoff == retention_cutoff(now),
                i <= self.event_queues.entries().len(),
                forall|j: int|
                    0 <= j < i ==> (#[trigger] self.event_queues.entries()[j]).1@.len() > 0
                        && m0.contains_key(self.event_queues.entries()[j].0@)
                        && self.event_queues.entries()[j].1@ == retained(
                        m0[self.event_queues.entries()[j].0@],
                        cutoff,
                    ),
                forall|j: int|
                    i <= j < self.event_queues.entries().len() ==> m0.contains_key(
                        (#[trigger] self.event_queues.entries()[j]).0@,
                    ) && self.event_queues.entries()[j].1@ == m0[self.event_queues.entries()[j].0@],
                forall|k: Seq<char>| #[trigger]
                    m0.contains_key(k) && retained(m0[k], cutoff).len() > 0
                        ==> self.queues().contains_key(k),
                self.house_hints == old(self).house_hints,
                self.invite_tokens == old(self).invite_tokens,
                self.member_acks == old(self).member_acks,
            decreases self.event_queues.entries().len() - i,
        {
            let ghost before = self.event_queues;
            let ghost k = before.entries()[i as int].0@;
            let kept = retain_after(self.event_queues.value_at(i), &cutoff);
            if kept.len() == 0 {
                let (_, _) = self.event_queues.remove_at(i);
                proof {
                    assert forall|j: int|
                        0 <= j < i implies (#[trigger] self.event_queues.entries()[j]).1@.len() > 0
                        && m0.contains_key(self.event_queues.entries()[j].0@)
                        && self.event_queues.entries()[j].1@ == retained(
                        m0[self.event_queues.entries()[j].0@],
                        cutoff,
                    ) by {
                        assert(self.event_queues.entries()[j] == before.entries()[j]);
                    }
                    assert forall|j: int|
                        i <= j < self.event_queues.entries().len() implies m0.contains_key(
                        (#[trigger] self.event_queues.entries()[j]).0@,
                    ) && self.event_queues.entries()[j].1@ == m0[self.event_queues.entries()[j].0@] by {
                        assert(self.event_queues.entries()[j] == before.entries()[j + 1]);
                    }
                }
            } else {
                self.event_queues.set_value_at(i, kept);
                proof {
                    assert forall|j: int|
                        0 <= j < i + 1 implies (#[trigger] self.event_queues.entries()[j]).1@.len()
                        > 0 && m0.contains_key(self.event_queues.entries()[j].0@)
                        && self.event_queues.entries()[j].1@ == retained(
                        m0[self.event_queues.entries()[j].0@],
                        cutoff,
                    ) by {
                        if j < i {
                            assert(self.event_queues.entries()[j] == before.entries()[j]);
                        }
                    }
                    assert forall|j: int|
                        i + 1 <= j < self.event_queues.entries().len() implies m0.contains_key(
                        (#[trigger] self.event_queues.entries()[j]).0@,
                    ) && self.event_queues.entries()[j].1@ == m0[self.event_queues.entries()[j].0@] by {
                        assert(self.event_queues.entries()[j] == before.entries()[j]);
                    }
                }
                i = i + 1;
            }
        }
        proof {
            self.event_queues.lemma_entries();
            assert forall|k: Seq<char>| #[trigger]
                self.queues().contains_key(k) implies m0.contains_key(k) && self.queues()[k]
                == retained(m0[k], cutoff) && retained(m0[k], cutoff).len() > 0 by {
                let j = choose|j: int|
                    0 <= j < self.event_queues.entries().len()
                        && (#[trigger] self.event_queues.entries()[j]).0@ == k;
                assert(self.event_queues.entries()[j].1@ == retained(m0[k], cutoff));
            }
        }
    }

    /// Purges old events as of the current time.
    pub fn gc_old_events(&mut self)
        requires
            old(self).wf(),
        ensures
            final(self).wf(),
            exists|now: Timestamp|
                {
                    &&& now.in_clock_range()
                    &&& forall|k: Seq<char>| #[trigger]
                        final(self).queues().contains_key(k) <==> (old(self).queues().contains_key(k)
                            && retained(old(self).queues()[k], retention_cutoff(now)).len() > 0)
                    &&& forall|k: Seq<char>| #[trigger]
                        final(self).queues().contains_key(k) ==> final(self).queues()[k]
                            == retained(old(self).queues()[k], retention_cutoff(now))
                },
            final(self).house_hints == old(self).house_hints,
            final(self).invite_tokens == old(self).invite_tokens,
            final(self).member_acks == old(self).member_acks,
    {
        let now = utc_now();
        self.gc_old_events_at(now);
    }
}

} // verus!
