use vstd::prelude::*;

use crate::strlist::{
    copy_strs, group_add, group_add_exec, group_drop, group_drop_exec, groups_view,
    lemma_with_member, lemma_without_contains, lemma_without_no_duplicates, strs_without, views,
    with_member, without,
};
use crate::strmap::StrMap;

verus! {

pub open spec fn opt_view(o: Option<String>) -> Option<Seq<char>> {
    match o {
        Some(s) => Some(s@),
        None => None,
    }
}

pub fn clone_opt(o: &Option<String>) -> (r: Option<String>)
    ensures
        r == *o,
{
    match o {
        Some(s) => Some(s.clone()),
        None => None,
    }
}

pub fn opt_str_eq(a: &Option<String>, b: &Option<String>) -> (r: bool)
    ensures
        r == (opt_view(*a) == opt_view(*b)),
{
    match (a, b) {
        (Some(x), Some(y)) => *x == *y,
        (None, None) => true,
        _ => false,
    }
}

/// One registered signaling identity.
pub struct PeerConnection {
    pub peer_id: String,
    pub house_id: String,
    pub signing_pubkey: Option<String>,
}

/// The house a peer belongs to, as a group name.
pub open spec fn house_of(c: PeerConnection) -> Option<Seq<char>> {
    Some(c.house_id@)
}

/// The house key a peer subscribed under, if any.
pub open spec fn key_of(c: PeerConnection) -> Option<Seq<char>> {
    opt_view(c.signing_pubkey)
}

/// The group that `p` belonged to under `key`, before a change.
pub open spec fn prior_group(
    peers: Map<Seq<char>, PeerConnection>,
    p: Seq<char>,
    key: spec_fn(PeerConnection) -> Option<Seq<char>>,
) -> Option<Seq<char>> {
    if peers.contains_key(p) {
        key(peers[p])
    } else {
        None
    }
}

/// Takes `p` out of group `g`, if there is one.
pub open spec fn drop_from(
    groups: Map<Seq<char>, Seq<Seq<char>>>,
    g: Option<Seq<char>>,
    p: Seq<char>,
) -> Map<Seq<char>, Seq<Seq<char>>> {
    match g {
        Some(x) => group_drop(groups, x, p),
        None => groups,
    }
}

/// Moves `p` from group `from` to group `to`; a peer that stays in its group keeps its place.
pub open spec fn regroup(
    groups: Map<Seq<char>, Seq<Seq<char>>>,
    from: Option<Seq<char>>,
    to: Option<Seq<char>>,
    p: Seq<char>,
) -> Map<Seq<char>, Seq<Seq<char>>> {
    let rest = if from == to {
        groups
    } else {
        drop_from(groups, from, p)
    };
    match to {
        Some(x) => group_add(rest, x, p),
        None => rest,
    }
}

/// `groups` lists exactly the peers under the group that `key` gives them, each once,
/// and holds no empty group.
pub open spec fn grouped_by(
    peers: Map<Seq<char>, PeerConnection>,
    groups: Map<Seq<char>, Seq<Seq<char>>>,
    key: spec_fn(PeerConnection) -> Option<Seq<char>>,
) -> bool {
    &&& forall|g: Seq<char>, p: Seq<char>|
        groups.contains_key(g) && #[trigger] groups[g].contains(p) ==> peers.contains_key(p)
            && key(peers[p]) == Some(g)
    &&& forall|p: Seq<char>|
        #[trigger] peers.contains_key(p) && key(peers[p]) is Some ==> groups.contains_key(
            key(peers[p])->Some_0,
        ) && groups[key(peers[p])->Some_0].contains(p)
    &&& forall|g: Seq<char>|
        #[trigger] groups.contains_key(g) ==> groups[g].len() > 0 && groups[g].no_duplicates()
}

proof fn lemma_group_add_members(
    groups: Map<Seq<char>, Seq<Seq<char>>>,
    x: Seq<char>,
    p: Seq<char>,
    g: Seq<char>,
    q: Seq<char>,
)
    ensures
        group_add(groups, x, p).contains_key(g) <==> (groups.contains_key(g) || g == x),
        group_add(groups, x, p).contains_key(g) ==> (group_add(groups, x, p)[g].contains(q) <==> (
        (groups.contains_key(g) && groups[g].contains(q)) || (g == x && q == p))),
        group_add(groups, x, p).contains_key(g) && (groups.contains_key(g) ==> groups[g].len() > 0)
            ==> group_add(groups, x, p)[g].len() > 0,
        group_add(groups, x, p).contains_key(g) && (groups.contains_key(g)
            ==> groups[g].no_duplicates()) ==> group_add(groups, x, p)[g].no_duplicates(),
{
    if groups.contains_key(x) {
        lemma_with_member(groups[x], p, q);
        if g == x {
            assert(with_member(groups[x], p).contains(p)) by {
                lemma_with_member(groups[x], p, p);
            }
        }
    } else if g == x {
        assert(seq![p].contains(q) <==> q == p) by {
            if q == p {
                assert(seq![p][0] == p);
            }
        }
        assert(seq![p].no_duplicates());
    }
}

proof fn lemma_group_drop_members(
    groups: Map<Seq<char>, Seq<Seq<char>>>,
    x: Seq<char>,
    p: Seq<char>,
    g: Seq<char>,
    q: Seq<char>,
)
    requires
        forall|h: Seq<char>| #[trigger]
            groups.contains_key(h) ==> groups[h].len() > 0 && groups[h].no_duplicates(),
    ensures
        group_drop(groups, x, p).contains_key(g) ==> groups.contains_key(g),
        group_drop(groups, x, p).contains_key(g) ==> (group_drop(groups, x, p)[g].contains(q) <==> (
        groups[g].contains(q) && !(g == x && q == p))),
        group_drop(groups, x, p).contains_key(g) ==> group_drop(groups, x, p)[g].len() > 0
            && group_drop(groups, x, p)[g].no_duplicates(),
        groups.contains_key(g) && g != x ==> group_drop(groups, x, p).contains_key(g),
        groups.contains_key(g) && groups[g].contains(q) && q != p ==> group_drop(
            groups,
            x,
            p,
        ).contains_key(g),
{
    if groups.contains_key(x) {
        lemma_without_contains(groups[x], p, q);
        lemma_without_no_duplicates(groups[x], p);
        if g == x && groups[g].contains(q) && q != p {
            assert(without(groups[x], p).contains(q));
            assert(without(groups[x], p).len() > 0);
        }
    }
}

proof fn lemma_regroup(
    peers: Map<Seq<char>, PeerConnection>,
    groups: Map<Seq<char>, Seq<Seq<char>>>,
    key: spec_fn(PeerConnection) -> Option<Seq<char>>,
    p: Seq<char>,
    info: PeerConnection,
)
    requires
        grouped_by(peers, groups, key),
    ensures
        grouped_by(
            peers.insert(p, info),
            regroup(groups, prior_group(peers, p, key), key(info), p),
            key,
        ),
{
    let from = prior_group(peers, p, key);
    let to = key(info);
    let rest = if from == to {
        groups
    } else {
        drop_from(groups, from, p)
    };
    let out = regroup(groups, from, to, p);
    let np = peers.insert(p, info);
    // what `rest` holds
    assert forall|g: Seq<char>, q: Seq<char>|
        rest.contains_key(g) && #[trigger] rest[g].contains(q) implies peers.contains_key(q)
        && key(peers[q]) == Some(g) && (q == p ==> from == to) by {
        match from {
            Some(x) => {
                if from != to {
                    lemma_group_drop_members(groups, x, p, g, q);
                }
            },
            None => {},
        }
        if q == p && from != to {
            assert(from == Some(g));
            match from {
                Some(x) => {
                    lemma_group_drop_members(groups, x, p, g, q);
                },
                None => {},
            }
        }
    }
    assert forall|g: Seq<char>| #[trigger]
        rest.contains_key(g) implies rest[g].len() > 0 && rest[g].no_duplicates() by {
        match from {
            Some(x) => {
                if from != to {
                    lemma_group_drop_members(groups, x, p, g, p);
                }
            },
            None => {},
        }
    }
    assert forall|q: Seq<char>|
        #[trigger] peers.contains_key(q) && q != p && key(peers[q]) is Some implies rest.contains_key(
            key(peers[q])->Some_0,
        ) && rest[key(peers[q])->Some_0].contains(q) by {
        let g = key(peers[q])->Some_0;
        assert(groups.contains_key(g) && groups[g].contains(q));
        match from {
            Some(x) => {
                if from != to {
                    lemma_group_drop_members(groups, x, p, g, q);
                }
            },
            None => {},
        }
    }
    // and then `out`
    assert forall|g: Seq<char>, q: Seq<char>|
        out.contains_key(g) && #[trigger] out[g].contains(q) implies np.contains_key(q) && key(
            np[q],
        ) == Some(g) by {
        match to {
            Some(x) => {
                lemma_group_add_members(rest, x, p, g, q);
                if q == p && rest.contains_key(g) && rest[g].contains(q) {
                    assert(from == to);
                    assert(key(peers[p]) == Some(g));
                }
            },
            None => {
                if q == p {
                    assert(from == to);
                }
            },
        }
    }
    assert forall|g: Seq<char>| #[trigger]
        out.contains_key(g) implies out[g].len() > 0 && out[g].no_duplicates() by {
        match to {
            Some(x) => {
                lemma_group_add_members(rest, x, p, g, p);
            },
            None => {},
        }
    }
    assert forall|q: Seq<char>|
        #[trigger] np.contains_key(q) && key(np[q]) is Some implies out.contains_key(
            key(np[q])->Some_0,
        ) && out[key(np[q])->Some_0].contains(q) by {
        let g = key(np[q])->Some_0;
        match to {
            Some(x) => {
                lemma_group_add_members(rest, x, p, g, q);
            },
            None => {},
        }
    }
}

proof fn lemma_drop_peer(
    peers: Map<Seq<char>, PeerConnection>,
    groups: Map<Seq<char>, Seq<Seq<char>>>,
    key: spec_fn(PeerConnection) -> Option<Seq<char>>,
    p: Seq<char>,
)
    requires
        grouped_by(peers, groups, key),
        peers.contains_key(p),
    ensures
        grouped_by(peers.remove(p), drop_from(groups, key(peers[p]), p), key),
{
    let out = drop_from(groups, key(peers[p]), p);
    let np = peers.remove(p);
    assert forall|g: Seq<char>, q: Seq<char>|
        out.contains_key(g) && #[trigger] out[g].contains(q) implies np.contains_key(q) && key(
            np[q],
        ) == Some(g) by {
        match key(peers[p]) {
            Some(x) => {
                lemma_group_drop_members(groups, x, p, g, q);
            },
            None => {},
        }
    }
    assert forall|g: Seq<char>| #[trigger]
        out.contains_key(g) implies out[g].len() > 0 && out[g].no_duplicates() by {
        match key(peers[p]) {
            Some(x) => {
                lemma_group_drop_members(groups, x, p, g, p);
            },
            None => {},
        }
    }
    assert forall|q: Seq<char>|
        #[trigger] np.contains_key(q) && key(np[q]) is Some implies out.contains_key(
            key(np[q])->Some_0,
        ) && out[key(np[q])->Some_0].contains(q) by {
        let g = key(np[q])->Some_0;
        match key(peers[p]) {
            Some(x) => {
                lemma_group_drop_members(groups, x, p, g, q);
            },
            None => {},
        }
    }
}

/// Registering a peer again in the house it is in, under the same house key, leaves every
/// roster and subscription as it was: a roster never holds a peer twice.
pub proof fn lemma_reregister_keeps_groups(
    peers: Map<Seq<char>, PeerConnection>,
    groups: Map<Seq<char>, Seq<Seq<char>>>,
    key: spec_fn(PeerConnection) -> Option<Seq<char>>,
    p: Seq<char>,
    info: PeerConnection,
)
    requires
        grouped_by(peers, groups, key),
        peers.contains_key(p),
        key(peers[p]) == key(info),
    ensures
        regroup(groups, prior_group(peers, p, key), key(info), p) == groups,
{
    match key(info) {
        Some(g) => {
            assert(groups.contains_key(g) && groups[g].contains(p));
            assert(group_add(groups, g, p) =~= groups);
        },
        None => {},
    }
}

/// A peer new to the registry is answered with the roster of its house as it stood before
/// (empty for a new house), in roster order; and it is appended at the end of that roster.
pub proof fn lemma_register_reply_is_prior_roster(
    peers: Map<Seq<char>, PeerConnection>,
    rosters: Map<Seq<char>, Seq<Seq<char>>>,
    p: Seq<char>,
    h: Seq<char>,
)
    requires
        grouped_by(peers, rosters, |c: PeerConnection| house_of(c)),
        !peers.contains_key(p),
    ensures
        ({
            let after = regroup(
                rosters,
                prior_group(peers, p, |c: PeerConnection| house_of(c)),
                Some(h),
                p,
            );
            let before = if rosters.contains_key(h) {
                rosters[h]
            } else {
                Seq::empty()
            };
            &&& after[h] == before.push(p)
            &&& without(after[h], p) == before
        }),
{
    let before = if rosters.contains_key(h) {
        rosters[h]
    } else {
        Seq::empty()
    };
    assert(!before.contains(p)) by {
        if before.contains(p) {
            let i = choose|i: int| 0 <= i < before.len() && before[i] == p;
            assert(rosters[h][i] == p);
        }
    }
    if !rosters.contains_key(h) {
        assert(seq![p] =~= before.push(p));
    }
    lemma_without_push_absent(before, p);
}

proof fn lemma_without_push_absent(s: Seq<Seq<char>>, p: Seq<char>)
    requires
        !s.contains(p),
    ensures
        without(s.push(p), p) == s,
    decreases s.len(),
{
    reveal(Seq::filter);
    assert(s.push(p).drop_last() =~= s);
    lemma_without_absent(s, p);
}

proof fn lemma_without_absent(s: Seq<Seq<char>>, p: Seq<char>)
    requires
        !s.contains(p),
    ensures
        without(s, p) == s,
    decreases s.len(),
{
    reveal(Seq::filter);
    if s.len() > 0 {
        let t = s.drop_last();
        assert(!t.contains(p)) by {
            if t.contains(p) {
                let i = choose|i: int| 0 <= i < t.len() && t[i] == p;
                assert(s[i] == p);
            }
        }
        lemma_without_absent(t, p);
        assert(s.last() != p) by {
            assert(s[s.len() - 1] == s.last());
        }
        assert(t.push(s.last()) =~= s);
    }
}

/// The connections that receive a broadcast to `members`, one per member that has one.
pub open spec fn conns_for(members: Seq<Seq<char>>, conns: Map<Seq<char>, String>) -> Seq<
    Seq<char>,
>
    decreases members.len(),
{
    if members.len() == 0 {
        Seq::empty()
    } else {
        let rest = conns_for(members.drop_last(), conns);
        if conns.contains_key(members.last()) {
            rest.push(conns[members.last()]@)
        } else {
            rest
        }
    }
}

/// The connection registry and signaling router: which peers are registered, in which
/// house, under which house key, and on which connection.
pub struct SignalingState {
    /// peer id -> its registration
    pub peers: StrMap<PeerConnection>,
    /// house id -> the peers registered in it, in order of registration
    pub houses: StrMap<Vec<String>>,
    /// house key -> the peers subscribed to broadcasts under it
    pub signing_houses: StrMap<Vec<String>>,
    /// peer id -> the connection its messages are delivered on
    pub peer_conns: StrMap<String>,
    /// connection id -> the peers registered on it
    pub conn_peers: StrMap<Vec<String>>,
}

impl SignalingState {
    pub open spec fn rosters(&self) -> Map<Seq<char>, Seq<Seq<char>>> {
        groups_view(self.houses@)
    }

    pub open spec fn subscriptions(&self) -> Map<Seq<char>, Seq<Seq<char>>> {
        groups_view(self.signing_houses@)
    }

    pub open spec fn conn_lists(&self) -> Map<Seq<char>, Seq<Seq<char>>> {
        groups_view(self.conn_peers@)
    }

    /// Peer `p` is listed under the connection it is delivered on.
    pub open spec fn listed_on_conn(&self, p: Seq<char>) -> bool {
        &&& self.conn_lists().contains_key(self.peer_conns@[p]@)
        &&& self.conn_lists()[self.peer_conns@[p]@].contains(p)
    }

    pub open spec fn wf(&self) -> bool {
        &&& self.peers.wf()
        &&& self.houses.wf()
        &&& self.signing_houses.wf()
        &&& self.peer_conns.wf()
        &&& self.conn_peers.wf()
        &&& self.peers@.dom() == self.peer_conns@.dom()
        &&& grouped_by(self.peers@, self.rosters(), |c: PeerConnection| house_of(c))
        &&& grouped_by(self.peers@, self.subscriptions(), |c: PeerConnection| key_of(c))
        &&& forall|p: Seq<char>| #[trigger]
            self.peers@.contains_key(p) ==> self.listed_on_conn(p)
    }

    pub fn new() -> (r: Self)
        ensures
            r.wf(),
            r.peers@.is_empty(),
            r.rosters().is_empty(),
            r.subscriptions().is_empty(),
            r.conn_lists().is_empty(),
    {
        let r = SignalingState {
            peers: StrMap::new(),
            houses: StrMap::new(),
            signing_houses: StrMap::new(),
            peer_conns: StrMap::new(),
            conn_peers: StrMap::new(),
        };
        assert(r.rosters() =~= Map::empty());
        assert(r.subscriptions() =~= Map::empty());
        assert(r.conn_lists() =~= Map::empty());
        assert(r.peers@.dom() =~= r.peer_conns@.dom());
        r
    }

    /// Registers `peer_id` in `house_id` on connection `conn_id`, subscribing it to
    /// broadcasts under `signing_pubkey` when one is given, and returns the other peers
    /// of that house in roster order. A peer registered before moves to its new house
    /// and key; registering it again in the same house keeps its place.
    pub fn register_peer(
        &mut self,
        conn_id: String,
        peer_id: String,
        house_id: String,
        signing_pubkey: Option<String>,
    ) -> (r: Vec<String>)
        requires
            old(self).wf(),
        ensures
            final(self).wf(),
            final(self).peers@ == old(self).peers@.insert(
                peer_id@,
                (PeerConnection { peer_id, house_id, signing_pubkey }),
            ),
            final(self).rosters() == regroup(
                old(self).rosters(),
                prior_group(old(self).peers@, peer_id@, |c: PeerConnection| house_of(c)),
                Some(house_id@),
                peer_id@,
            ),
            final(self).subscriptions() == regroup(
                old(self).subscriptions(),
                prior_group(old(self).peers@, peer_id@, |c: PeerConnection| key_of(c)),
                opt_view(signing_pubkey),
                peer_id@,
            ),
            final(self).peer_conns@ == old(self).peer_conns@.insert(peer_id@, conn_id),
            final(self).conn_lists() == group_add(old(self).conn_lists(), conn_id@, peer_id@),
            final(self).rosters().contains_key(house_id@),
            views(r@) == without(final(self).rosters()[house_id@], peer_id@),
    {
        let ghost old_self = *self;
        let ghost hk = |c: PeerConnection| house_of(c);
        let ghost kk = |c: PeerConnection| key_of(c);
        let prior: Option<(String, Option<String>)> = match self.peers.get(&peer_id) {
            Some(c) => Some((c.house_id.clone(), clone_opt(&c.signing_pubkey))),
            None => None,
        };
        let ghost info = PeerConnection {
            peer_id: peer_id,
            house_id: house_id,
            signing_pubkey: signing_pubkey,
        };
        proof {
            lemma_regroup(old_self.peers@, old_self.rosters(), hk, peer_id@, info);
            lemma_regroup(old_self.peers@, old_self.subscriptions(), kk, peer_id@, info);
            assert(prior_group(old_self.peers@, peer_id@, hk) == match prior {
                Some(pr) => Some(pr.0@),
                None => None::<Seq<char>>,
            });
            assert(prior_group(old_self.peers@, peer_id@, kk) == match prior {
                Some(pr) => opt_view(pr.1),
                None => None::<Seq<char>>,
            });
        }
        // house roster
        match &prior {
            Some((h0, _)) => {
                if *h0 != house_id {
                    group_drop_exec(&mut self.houses, h0, &peer_id);
                }
            },
            None => {},
        }
        group_add_exec(&mut self.houses, house_id.clone(), &peer_id);
        // house-key subscription
        let old_key: Option<String> = match &prior {
            Some((_, k)) => clone_opt(k),
            None => None,
        };
        if !opt_str_eq(&old_key, &signing_pubkey) {
            match &old_key {
                Some(k0) => {
                    group_drop_exec(&mut self.signing_houses, k0, &peer_id);
                },
                None => {},
            }
        }
        match &signing_pubkey {
            Some(k) => {
                group_add_exec(&mut self.signing_houses, k.clone(), &peer_id);
            },
            None => {},
        }
        assert(self.rosters() == regroup(
            old_self.rosters(),
            prior_group(old_self.peers@, peer_id@, hk),
            Some(house_id@),
            peer_id@,
        ));
        assert(self.subscriptions() == regroup(
            old_self.subscriptions(),
            prior_group(old_self.peers@, peer_id@, kk),
            opt_view(signing_pubkey),
            peer_id@,
        ));
        // connection bookkeeping
        self.peer_conns.insert(peer_id.clone(), conn_id.clone());
        group_add_exec(&mut self.conn_peers, conn_id, &peer_id);
        let others = match self.houses.get(&house_id) {
            Some(roster) => strs_without(roster, &peer_id),
            None => Vec::new(),
        };
        self.peers.insert(
            peer_id.clone(),
            PeerConnection { peer_id, house_id, signing_pubkey },
        );
        proof {
            assert(self.peers@ == old_self.peers@.insert(info.peer_id@, info));
            assert(self.peers@.dom() =~= self.peer_conns@.dom());
            assert forall|q: Seq<char>| #[trigger]
                self.peers@.contains_key(q) implies self.listed_on_conn(q) by {
                let c = self.peer_conns@[q]@;
                lemma_group_add_members(old_self.conn_lists(), conn_id@, info.peer_id@, c, q);
                if q != info.peer_id@ {
                    assert(old_self.listed_on_conn(q));
                }
            }
            lemma_group_add_members(
                old_self.rosters(),
                house_id@,
                info.peer_id@,
                house_id@,
                info.peer_id@,
            );
        }
        others
    }

    /// Removes `peer_id` from the registry, its house roster and its house-key
    /// subscription; a roster or subscription left empty is dropped.
    pub fn unregister_peer(&mut self, peer_id: &String)
        requires
            old(self).wf(),
        ensures
            final(self).wf(),
            final(self).peers@ == old(self).peers@.remove(peer_id@),
            final(self).peer_conns@ == old(self).peer_conns@.remove(peer_id@),
            final(self).conn_peers@ == old(self).conn_peers@,
            old(self).peers@.contains_key(peer_id@) ==> final(self).rosters() == group_drop(
                old(self).rosters(),
                old(self).peers@[peer_id@].house_id@,
                peer_id@,
            ),
            old(self).peers@.contains_key(peer_id@) ==> final(self).subscriptions() == drop_from(
                old(self).subscriptions(),
                key_of(old(self).peers@[peer_id@]),
                peer_id@,
            ),
            !old(self).peers@.contains_key(peer_id@) ==> final(self).rosters() == old(self).rosters() && final(self).subscriptions() == old(self).subscriptions(),
    {
        let ghost old_self = *self;
        match self.peers.remove(peer_id) {
            Some(conn) => {
                proof {
                    lemma_drop_peer(
                        old_self.peers@,
                        old_self.rosters(),
                        |c: PeerConnection| house_of(c),
                        peer_id@,
                    );
                    lemma_drop_peer(
                        old_self.peers@,
                        old_self.subscriptions(),
                        |c: PeerConnection| key_of(c),
                        peer_id@,
                    );
                }
                group_drop_exec(&mut self.houses, &conn.house_id, peer_id);
                match &conn.signing_pubkey {
                    Some(k) => {
                        group_drop_exec(&mut self.signing_houses, k, peer_id);
                    },
                    None => {},
                }
            },
            None => {
                assert(self.peers@ =~= old_self.peers@);
            },
        }
        self.peer_conns.remove(peer_id);
        proof {
            assert(self.peers@.dom() =~= self.peer_conns@.dom());
            assert forall|q: Seq<char>| #[trigger]
                self.peers@.contains_key(q) implies self.listed_on_conn(q) by {
                assert(old_self.listed_on_conn(q));
            }
        }
    }

    /// Releases every peer whose messages are delivered on `conn_id`, and forgets the
    /// connection.
    pub fn close_connection(&mut self, conn_id: &String)
        requires
            old(self).wf(),
        ensures
            final(self).wf(),
            forall|p: Seq<char>| #[trigger]
                final(self).peers@.contains_key(p) <==> (old(self).peers@.contains_key(p) && old(self).peer_conns@[p]@ != conn_id@),
            forall|p: Seq<char>| #[trigger]
                final(self).peers@.contains_key(p) ==> final(self).peers@[p] == old(self).peers@[p] && final(self).peer_conns@[p] == old(self).peer_conns@[p],
            final(self).conn_lists() == old(self).conn_lists().remove(conn_id@),
            forall|h: Seq<char>, p: Seq<char>|
                final(self).rosters().contains_key(h) && old(self).peers@.contains_key(p) && old(self).peer_conns@[p]@ == conn_id@ ==> !(#[trigger] final(self).rosters()[h].contains(p)),
            forall|h: Seq<char>| #[trigger]
                final(self).rosters().contains_key(h) ==> final(self).rosters()[h].len() > 0,
    {
        let ghost old_self = *self;
        let listed: Vec<String> = match self.conn_peers.get(conn_id) {
            Some(v) => copy_strs(v),
            None => Vec::new(),
        };
        let ghost lv = views(listed@);
        proof {
            if !old_self.conn_lists().contains_key(conn_id@) {
                assert(lv =~= Seq::<Seq<char>>::empty());
            }
        }
        let mut i: usize = 0;
        while i < listed.len()
            invariant
                self.wf(),
                i <= listed@.len(),
                lv == views(listed@),
                old_self.wf(),
                old_self.conn_lists().contains_key(conn_id@) ==> lv == old_self.conn_lists()[conn_id@],
                !old_self.conn_lists().contains_key(conn_id@) ==> lv.len() == 0,
                self.conn_peers@ == old_self.conn_peers@,
                forall|p: Seq<char>| #[trigger]
                    self.peers@.contains_key(p) <==> (old_self.peers@.contains_key(p) && !(
                    old_self.peer_conns@[p]@ == conn_id@ && lv.subrange(0, i as int).contains(p))),
                forall|p: Seq<char>| #[trigger]
                    self.peers@.contains_key(p) ==> self.peers@[p] == old_self.peers@[p]
                        && self.peer_conns@[p] == old_self.peer_conns@[p],
            decreases listed@.len() - i,
        {
            let p = &listed[i];
            let owned = match self.peer_conns.get(p) {
                Some(c) => *c == *conn_id,
                None => false,
            };
            let ghost before = *self;
            if owned {
                self.unregister_peer(p);
            }
            proof {
                assert(lv[i as int] == p@);
                assert forall|q: Seq<char>| #[trigger]
                    self.peers@.contains_key(q) <==> (old_self.peers@.contains_key(q) && !(
                    old_self.peer_conns@[q]@ == conn_id@ && lv.subrange(0, i + 1).contains(q))) by {
                    let s0 = lv.subrange(0, i as int);
                    let s1 = lv.subrange(0, i + 1);
                    assert(s1 =~= s0.push(p@));
                    if s1.contains(q) && q != p@ {
                        let j = choose|j: int| 0 <= j < s1.len() && s1[j] == q;
                        assert(s0[j] == q);
                    }
                    if s0.contains(q) {
                        let j = choose|j: int| 0 <= j < s0.len() && s0[j] == q;
                        assert(s1[j] == q);
                    }
                    if q == p@ {
                        assert(s1[i as int] == q);
                    }
                }
            }
            i = i + 1;
        }
        let ghost mid = *self;
        self.conn_peers.remove(conn_id);
        proof {
            assert(lv.subrange(0, lv.len() as int) =~= lv);
            assert(self.conn_lists() =~= old_self.conn_lists().remove(conn_id@));
            assert forall|q: Seq<char>| #[trigger]
                self.peers@.contains_key(q) implies self.listed_on_conn(q) by {
                assert(mid.listed_on_conn(q));
                assert(old_self.listed_on_conn(q));
                if self.peer_conns@[q]@ == conn_id@ {
                    assert(lv.contains(q));
                }
            }
        }
    }

    /// The house that `peer_id` is registered in.
    pub fn get_house(&self, peer_id: &String) -> (r: Option<String>)
        requires
            self.wf(),
        ensures
            match r {
                Some(h) => self.peers@.contains_key(peer_id@) && h == self.peers@[peer_id@].house_id,
                None => !self.peers@.contains_key(peer_id@),
            },
    {
        match self.peers.get(peer_id) {
            Some(c) => Some(c.house_id.clone()),
            None => None,
        }
    }

    /// The connection that messages to `peer_id` go to, if the peer is registered.
    pub fn peer_conn(&self, peer_id: &String) -> (r: Option<String>)
        requires
            self.wf(),
        ensures
            match r {
                Some(c) => self.peer_conns@.contains_key(peer_id@) && c == self.peer_conns@[peer_id@],
                None => !self.peer_conns@.contains_key(peer_id@),
            },
    {
        match self.peer_conns.get(peer_id) {
            Some(c) => Some(c.clone()),
            None => None,
        }
    }

    /// The roster of `house_id`, empty for an unknown house.
    pub fn roster(&self, house_id: &String) -> (r: Vec<String>)
        requires
            self.wf(),
        ensures
            self.rosters().contains_key(house_id@) ==> views(r@) == self.rosters()[house_id@],
            !self.rosters().contains_key(house_id@) ==> r@.len() == 0,
    {
        match self.houses.get(house_id) {
            Some(v) => copy_strs(v),
            None => Vec::new(),
        }
    }

    /// The connections that a broadcast under `signing_pubkey` goes to: one for each
    /// subscribed peer, in subscription order.
    pub fn subscriber_conns(&self, signing_pubkey: &String) -> (r: Vec<String>)
        requires
            self.wf(),
        ensures
            self.subscriptions().contains_key(signing_pubkey@) ==> views(r@) == conns_for(
                self.subscriptions()[signing_pubkey@],
                self.peer_conns@,
            ),
            !self.subscriptions().contains_key(signing_pubkey@) ==> r@.len() == 0,
    {
        let mut out: Vec<String> = Vec::new();
        match self.signing_houses.get(signing_pubkey) {
            Some(members) => {
                let ghost mv = views(members@);
                let mut i: usize = 0;
                while i < members.len()
                    invariant
                        self.wf(),
                        i <= members@.len(),
                        mv == views(members@),
                        views(out@) == conns_for(mv.subrange(0, i as int), self.peer_conns@),
                    decreases members@.len() - i,
                {
                    let ghost before = out@;
                    proof {
                        assert(mv.subrange(0, i + 1).drop_last() =~= mv.subrange(0, i as int));
                        assert(mv.subrange(0, i + 1).last() == members@[i as int]@);
                    }
                    match self.peer_conns.get(&members[i]) {
                        Some(c) => {
                            out.push(c.clone());
                            assert(views(out@) =~= views(before).push(c@));
                        },
                        None => {},
                    }
                    i = i + 1;
                }
                assert(mv.subrange(0, mv.len() as int) =~= mv);
            },
            None => {},
        }
        out
    }
}

} // verus!
