use vstd::prelude::*;
use vstd::string::StrSliceExecFns;

use crate::events::{trim_code, trimmed};
use crate::strlist::views;

verus! {

/// The HTTP methods the server tells apart.
#[derive(Clone, Copy, Debug, PartialEq, Eq, Structural)]
pub enum HttpMethod {
    Get,
    Post,
    Options,
    Other,
}

/// How a request is served.
#[derive(Clone, Copy, Debug, PartialEq, Eq, Structural)]
pub enum RequestKind {
    /// a CORS preflight, answered with 204
    Preflight,
    /// the liveness endpoint, answered with 200 "ok"
    Health,
    /// the REST interface
    Api,
    /// anything else: a WebSocket upgrade, or not found
    Other,
}

/// `s` begins with `prefix`.
pub open spec fn has_prefix(s: Seq<char>, prefix: Seq<char>) -> bool {
    s.len() >= prefix.len() && s.subrange(0, prefix.len() as int) == prefix
}

pub open spec fn request_kind(method: HttpMethod, path: Seq<char>) -> RequestKind {
    if method == HttpMethod::Options {
        RequestKind::Preflight
    } else if path == "/health"@ {
        RequestKind::Health
    } else if has_prefix(path, "/api/"@) {
        RequestKind::Api
    } else {
        RequestKind::Other
    }
}

/// The pieces of `s` between occurrences of `sep`, empty pieces included: `n` separators
/// give `n + 1` pieces.
pub open spec fn split_on(s: Seq<char>, sep: char) -> Seq<Seq<char>>
    decreases s.len(),
{
    if s.len() == 0 {
        seq![Seq::empty()]
    } else {
        let r = split_on(s.drop_last(), sep);
        if s.last() == sep {
            r.push(Seq::empty())
        } else {
            r.update(r.len() - 1, r.last().push(s.last()))
        }
    }
}

proof fn lemma_split_len(s: Seq<char>, sep: char)
    ensures
        split_on(s, sep).len() >= 1,
    decreases s.len(),
{
    if s.len() > 0 {
        lemma_split_len(s.drop_last(), sep);
    }
}

fn starts_with(s: &str, prefix: &str) -> (r: bool)
    ensures
        r == has_prefix(s@, prefix@),
{
    let n = s.unicode_len();
    let m = prefix.unicode_len();
    if n < m {
        return false;
    }
    let head = s.substring_char(0, m).to_owned();
    head == prefix.to_owned()
}

/// The pieces of `s` between occurrences of `sep`.
pub fn split_parts(s: &str, sep: char) -> (r: Vec<String>)
    ensures
        views(r@) == split_on(s@, sep),
{
    let n = s.unicode_len();
    let mut parts: Vec<String> = Vec::new();
    let mut start: usize = 0;
    let mut i: usize = 0;
    assert(views(parts@) =~= Seq::<Seq<char>>::empty());
    assert(s@.subrange(0, 0) =~= Seq::<char>::empty());
    assert(views(parts@).push(s@.subrange(0, 0)) =~= seq![Seq::<char>::empty()]);
    while i < n
        invariant
            n == s@.len(),
            start <= i <= n,
            views(parts@).push(s@.subrange(start as int, i as int)) == split_on(
                s@.subrange(0, i as int),
                sep,
            ),
        decreases n - i,
    {
        let c = s.get_char(i);
        let ghost prefix = s@.subrange(0, i + 1);
        proof {
            assert(prefix.drop_last() =~= s@.subrange(0, i as int));
            assert(prefix.last() == c);
            lemma_split_len(s@.subrange(0, i as int), sep);
        }
        if c == sep {
            let piece = s.substring_char(start, i).to_owned();
            proof {
                crate::strlist::lemma_views_push(parts@, piece);
            }
            parts.push(piece);
            start = i + 1;
            assert(s@.subrange(start as int, i + 1) =~= Seq::<char>::empty());
        } else {
            let ghost before = views(parts@).push(s@.subrange(start as int, i as int));
            assert(s@.subrange(start as int, i + 1) =~= s@.subrange(start as int, i as int).push(c));
            assert(views(parts@).push(s@.subrange(start as int, i + 1)) =~= before.update(
                before.len() - 1,
                before.last().push(c),
            ));
        }
        i = i + 1;
    }
    let last = s.substring_char(start, n).to_owned();
    proof {
        crate::strlist::lemma_views_push(parts@, last);
        assert(s@.subrange(0, n as int) =~= s@);
    }
    parts.push(last);
    parts
}

/// What `urlencoding::decode` makes of a string: its percent-decoding, or nothing when the
/// decoded bytes are not UTF-8.
pub uninterp spec fn url_decoded(s: Seq<char>) -> Option<Seq<char>>;

/// Relies on urlencoding::decode: percent-decoding, which fails only when the decoded
/// bytes are not UTF-8, and which hands back a string without '%' as it is.
#[verifier::external_body]
fn url_decode(s: &str) -> (r: Option<String>)
    ensures
        match r {
            Some(d) => url_decoded(s@) == Some(d@),
            None => url_decoded(s@) is None,
        },
        !s@.contains('%') ==> r is Some && r->Some_0@ == s@,
{
    match urlencoding::decode(s) {
        Ok(d) => Some(d.into_owned()),
        Err(_) => None,
    }
}

/// A path segment, percent-decoded when that gives valid text and as it is otherwise.
pub open spec fn segment_decoded(seg: Seq<char>) -> Seq<char> {
    match url_decoded(seg) {
        Some(d) => d,
        None => seg,
    }
}

pub fn decode_path_segment(seg: &str) -> (r: String)
    ensures
        r@ == segment_decoded(seg@),
{
    match url_decode(seg) {
        Some(d) => d,
        None => seg.to_owned(),
    }
}

/// The value of the first `since=` parameter among the pieces of a query string.
pub open spec fn since_param(params: Seq<Seq<char>>) -> Option<Seq<char>>
    decreases params.len(),
{
    if params.len() == 0 {
        None
    } else if has_prefix(params[0], "since="@) {
        Some(params[0].subrange("since="@.len() as int, params[0].len() as int))
    } else {
        since_param(params.subrange(1, params.len() as int))
    }
}

/// The operation a REST request asks for.
pub enum ApiRoute {
    /// no such endpoint under /api/
    NotFound,
    /// /api/invites without a code
    InviteEndpointNotFound,
    /// GET /api/invites/{code}
    InviteGet { code: String },
    /// POST /api/invites/{code}/redeem
    InviteRedeem { code: String },
    /// POST /api/invites/{code}/revoke
    InviteRevoke { code: String },
    /// another method or sub-path under /api/invites/{code}
    InviteMethodNotAllowed,
    /// /api/houses without a key
    HouseEndpointNotFound,
    /// POST /api/houses/{key}/register
    RegisterHint { signing_pubkey: String },
    /// POST /api/houses/{key}/invites
    CreateInvite { signing_pubkey: String },
    /// GET /api/houses/{key}/hint
    GetHint { signing_pubkey: String },
    /// POST /api/houses/{key}/events
    PostEvent { signing_pubkey: String },
    /// POST /api/houses/{key}/events/ack or POST /api/houses/{key}/ack
    Ack { signing_pubkey: String },
    /// GET /api/houses/{key}/events, with an optional `since` cursor
    ListEvents { signing_pubkey: String, since: Option<String> },
    /// another method or sub-path under /api/houses/{key}
    HouseMethodNotAllowed,
}

/// Piece `i` of `parts` exists and is `lit`.
pub open spec fn piece_is(parts: Seq<Seq<char>>, i: int, lit: Seq<char>) -> bool {
    i < parts.len() && parts[i] == lit
}

/// The route that a request with `method`, `path` and `query` takes.
pub open spec fn route_matches(r: ApiRoute, method: HttpMethod, path: Seq<char>, query: Seq<char>) -> bool {
    let parts = split_on(path, '/');
    if parts.len() < 3 || parts[1] != "api"@ {
        r is NotFound
    } else if parts[2] == "invites"@ {
        if parts.len() < 4 {
            r is InviteEndpointNotFound
        } else {
            let code = trimmed(segment_decoded(parts[3]));
            if method == HttpMethod::Post && piece_is(parts, 4, "redeem"@) {
                r is InviteRedeem && r->InviteRedeem_code@ == code
            } else if method == HttpMethod::Post && piece_is(parts, 4, "revoke"@) {
                r is InviteRevoke && r->InviteRevoke_code@ == code
            } else if method == HttpMethod::Get && parts.len() == 4 {
                r is InviteGet && r->InviteGet_code@ == code
            } else {
                r is InviteMethodNotAllowed
            }
        }
    } else if parts[2] == "houses"@ {
        if parts.len() < 4 {
            r is HouseEndpointNotFound
        } else {
            let key = segment_decoded(parts[3]);
            if method == HttpMethod::Post && piece_is(parts, 4, "register"@) {
                r is RegisterHint && r->RegisterHint_signing_pubkey@ == key
            } else if method == HttpMethod::Post && piece_is(parts, 4, "invites"@) {
                r is CreateInvite && r->CreateInvite_signing_pubkey@ == key
            } else if method == HttpMethod::Get && piece_is(parts, 4, "hint"@) {
                r is GetHint && r->GetHint_signing_pubkey@ == key
            } else if method == HttpMethod::Post && piece_is(parts, 4, "events"@) && piece_is(
                parts,
                5,
                "ack"@,
            ) {
                r is Ack && r->Ack_signing_pubkey@ == key
            } else if method == HttpMethod::Post && piece_is(parts, 4, "events"@) {
                r is PostEvent && r->PostEvent_signing_pubkey@ == key
            } else if method == HttpMethod::Get && piece_is(parts, 4, "events"@) {
                &&& r is ListEvents
                &&& r->ListEvents_signing_pubkey@ == key
                &&& match r->ListEvents_since {
                    Some(s) => since_param(split_on(query, '&')) == Some(s@),
                    None => since_param(split_on(query, '&')) is None,
                }
            } else if method == HttpMethod::Post && piece_is(parts, 4, "ack"@) {
                r is Ack && r->Ack_signing_pubkey@ == key
            } else {
                r is HouseMethodNotAllowed
            }
        }
    } else {
        r is NotFound
    }
}

fn piece_is_exec(parts: &Vec<String>, i: usize, lit: &str) -> (r: bool)
    ensures
        r == piece_is(views(parts@), i as int, lit@),
{
    if i < parts.len() {
        parts[i] == lit.to_owned()
    } else {
        false
    }
}

/// The value of the `since` parameter of a query string, if it has one.
pub fn since_from_query(query: &str) -> (r: Option<String>)
    ensures
        match r {
            Some(s) => since_param(split_on(query@, '&')) == Some(s@),
            None => since_param(split_on(query@, '&')) is None,
        },
{
    let params = split_parts(query, '&');
    let ghost ps = views(params@);
    let prefix = "since=";
    let m = prefix.unicode_len();
    let mut i: usize = 0;
    assert(ps.subrange(0, ps.len() as int) =~= ps);
    while i < params.len()
        invariant
            i <= params@.len(),
            ps == views(params@),
            ps == split_on(query@, '&'),
            m == prefix@.len(),
            prefix@ == "since="@,
            since_param(ps) == since_param(ps.subrange(i as int, ps.len() as int)),
        decreases params@.len() - i,
    {
        let p = params[i].as_str();
        let ghost rest = ps.subrange(i as int, ps.len() as int);
        assert(rest[0] == ps[i as int]);
        assert(ps[i as int] == params@[i as int]@);
        assert(rest.len() > 0);
        assert(prefix@ == "since="@);
        if starts_with(p, prefix) {
            let n = p.unicode_len();
            let v = p.substring_char(m, n).to_owned();
            assert(has_prefix(rest[0], "since="@));
            assert(since_param(rest) == Some(
                rest[0].subrange("since="@.len() as int, rest[0].len() as int),
            ));
            assert(v@ == rest[0].subrange("since="@.len() as int, rest[0].len() as int));
            return Some(v);
        }
        assert(rest.subrange(1, rest.len() as int) =~= ps.subrange(i + 1, ps.len() as int));
        i = i + 1;
    }
    None
}

/// How a request for `path` with `method` is served.
pub fn classify_request(method: HttpMethod, path: &str) -> (r: RequestKind)
    ensures
        r == request_kind(method, path@),
{
    if method == HttpMethod::Options {
        RequestKind::Preflight
    } else if path.to_owned() == "/health".to_owned() {
        RequestKind::Health
    } else if starts_with(path, "/api/") {
        RequestKind::Api
    } else {
        RequestKind::Other
    }
}

/// The route of a REST request, from its method, path and query string (empty when the
/// request has none).
pub fn route_api(method: HttpMethod, path: &str, query: &str) -> (r: ApiRoute)
    ensures
        route_matches(r, method, path@, query@),
{
    let parts = split_parts(path, '/');
    let ghost ps = views(parts@);
    if parts.len() < 3 || !piece_is_exec(&parts, 1, "api") {
        return ApiRoute::NotFound;
    }
    if piece_is_exec(&parts, 2, "invites") {
        if parts.len() < 4 {
            return ApiRoute::InviteEndpointNotFound;
        }
        let decoded = decode_path_segment(parts[3].as_str());
        let code = trim_code(decoded.as_str());
        if method == HttpMethod::Post && piece_is_exec(&parts, 4, "redeem") {
            ApiRoute::InviteRedeem { code }
        } else if method == HttpMethod::Post && piece_is_exec(&parts, 4, "revoke") {
            ApiRoute::InviteRevoke { code }
        } else if method == HttpMethod::Get && parts.len() == 4 {
            ApiRoute::InviteGet { code }
        } else {
            ApiRoute::InviteMethodNotAllowed
        }
    } else if piece_is_exec(&parts, 2, "houses") {
        if parts.len() < 4 {
            return ApiRoute::HouseEndpointNotFound;
        }
        let signing_pubkey = decode_path_segment(parts[3].as_str());
        if method == HttpMethod::Post && piece_is_exec(&parts, 4, "register") {
            ApiRoute::RegisterHint { signing_pubkey }
        } else if method == HttpMethod::Post && piece_is_exec(&parts, 4, "invites") {
            ApiRoute::CreateInvite { signing_pubkey }
        } else if method == HttpMethod::Get && piece_is_exec(&parts, 4, "hint") {
            ApiRoute::GetHint { signing_pubkey }
        } else if method == HttpMethod::Post && piece_is_exec(&parts, 4, "events")
            && piece_is_exec(&parts, 5, "ack") {
            ApiRoute::Ack { signing_pubkey }
        } else if method == HttpMethod::Post && piece_is_exec(&parts, 4, "events") {
            ApiRoute::PostEvent { signing_pubkey }
        } else if method == HttpMethod::Get && piece_is_exec(&parts, 4, "events") {
            let since = since_from_query(query);
            ApiRoute::ListEvents { signing_pubkey, since }
        } else if method == HttpMethod::Post && piece_is_exec(&parts, 4, "ack") {
            ApiRoute::Ack { signing_pubkey }
        } else {
            ApiRoute::HouseMethodNotAllowed
        }
    } else {
        ApiRoute::NotFound
    }
}

} // verus!
