use vstd::prelude::*;

use crate::signaling::{clone_opt, opt_view};
use crate::strlist::{
    contains_str, copy_strs, lemma_views_push, lemma_without_contains, strs_without, views,
};
use crate::strmap::StrMap;

verus! {

/// The members of a list, as a set.
pub open spec fn set_of(s: Seq<Seq<char>>) -> Set<Seq<char>> {
    Set::new(|x: Seq<char>| s.contains(x))
}

/// The strings of a list, as a set.
pub open spec fn strset(v: Vec<String>) -> Set<Seq<char>> {
    set_of(views(v@))
}

/// What is known of one online user.
pub struct UserPresence {
    pub conns: Set<Seq<char>>,
    pub keys: Set<Seq<char>>,
    pub active: Option<Seq<char>>,
}

/// What one connection declared in its hello.
pub struct ConnPresence {
    pub user: Seq<char>,
    pub keys: Set<Seq<char>>,
}

/// Presence as the contracts see it.
pub struct PresenceModel {
    pub users: Map<Seq<char>, UserPresence>,
    pub conns: Map<Seq<char>, ConnPresence>,
}

/// A user's state after a hello on `conn`: the connection joins, the house keys are
/// merged in, and the active house key is replaced.
pub open spec fn after_hello(
    m: PresenceModel,
    conn: Seq<char>,
    user: Seq<char>,
    keys: Set<Seq<char>>,
    active: Option<Seq<char>>,
) -> PresenceModel {
    let prev = if m.users.contains_key(user) {
        m.users[user]
    } else {
        UserPresence { conns: Set::empty(), keys: Set::empty(), active: None }
    };
    PresenceModel {
        users: m.users.insert(
            user,
            UserPresence { conns: prev.conns.insert(conn), keys: prev.keys.union(keys), active },
        ),
        conns: m.conns.insert(conn, ConnPresence { user, keys }),
    }
}

/// Presence after `conn` goes away.
pub open spec fn after_disconnect(m: PresenceModel, conn: Seq<char>) -> PresenceModel {
    if !m.conns.contains_key(conn) {
        m
    } else {
        let user = m.conns[conn].user;
        let users = if !m.users.contains_key(user) {
            m.users
        } else if m.users[user].conns.remove(conn).is_empty() {
            m.users.remove(user)
        } else {
            m.users.insert(
                user,
                UserPresence {
                    conns: m.users[user].conns.remove(conn),
                    keys: m.users[user].keys,
                    active: m.users[user].active,
                },
            )
        };
        PresenceModel { users, conns: m.conns.remove(conn) }
    }
}

/// The user that went offline when `conn` went away, with every house key it was present
/// in; nothing while the user is still online elsewhere.
pub open spec fn went_offline(m: PresenceModel, conn: Seq<char>) -> Option<
    (Seq<char>, Set<Seq<char>>),
> {
    if m.conns.contains_key(conn) && m.users.contains_key(m.conns[conn].user)
        && m.users[m.conns[conn].user].conns.remove(conn).is_empty() {
        Some((m.conns[conn].user, m.users[m.conns[conn].user].keys))
    } else {
        None
    }
}

/// A user stays online while any of its connections is open: with two connections, closing
/// either one leaves it online, and closing the other as well takes it offline.
pub proof fn lemma_online_until_last_connection(
    m: PresenceModel,
    user: Seq<char>,
    c1: Seq<char>,
    c2: Seq<char>,
    keys1: Set<Seq<char>>,
    keys2: Set<Seq<char>>,
    active1: Option<Seq<char>>,
    active2: Option<Seq<char>>,
)
    requires
        c1 != c2,
        !m.users.contains_key(user),
        !m.conns.contains_key(c1),
        !m.conns.contains_key(c2),
    ensures
        ({
            let both = after_hello(after_hello(m, c1, user, keys1, active1), c2, user, keys2, active2);
            &&& both.users.contains_key(user)
            &&& went_offline(both, c1) is None
            &&& after_disconnect(both, c1).users.contains_key(user)
            &&& went_offline(after_disconnect(both, c1), c2) == Some((user, keys1.union(keys2)))
            &&& !after_disconnect(after_disconnect(both, c1), c2).users.contains_key(user)
            &&& went_offline(both, c2) is None
            &&& after_disconnect(both, c2).users.contains_key(user)
            &&& went_offline(after_disconnect(both, c2), c1) == Some((user, keys1.union(keys2)))
            &&& !after_disconnect(after_disconnect(both, c2), c1).users.contains_key(user)
        }),
{
    let one = after_hello(m, c1, user, keys1, active1);
    let both = after_hello(one, c2, user, keys2, active2);
    let cs = both.users[user].conns;
    assert(cs =~= set![c1, c2]);
    assert(!cs.remove(c1).is_empty()) by {
        assert(cs.remove(c1).contains(c2));
    }
    assert(!cs.remove(c2).is_empty()) by {
        assert(cs.remove(c2).contains(c1));
    }
    let d1 = after_disconnect(both, c1);
    assert(d1.users[user].conns.remove(c2) =~= Set::<Seq<char>>::empty());
    let d2 = after_disconnect(both, c2);
    assert(d2.users[user].conns.remove(c1) =~= Set::<Seq<char>>::empty());
}

/// One connection's hello: the user it speaks for and the house keys it asked about.
pub struct PresenceConn {
    pub user_id: String,
    pub signing_pubkeys: Vec<String>,
}

/// One online user: its open connections, the house keys it is present in, and the house
/// it has open, if any.
pub struct PresenceUser {
    pub conns: Vec<String>,
    pub signing_pubkeys: Vec<String>,
    pub active_signing_pubkey: Option<String>,
}

/// A user online in a house, and which house it has open.
pub struct PresenceUserStatus {
    pub user_id: String,
    pub active_signing_pubkey: Option<String>,
}

/// The users whose house keys include `key`, in stored order, each with its active house.
pub open spec fn snapshot_of(entries: Seq<(String, PresenceUser)>, key: Seq<char>) -> Seq<
    (Seq<char>, Option<Seq<char>>),
>
    decreases entries.len(),
{
    if entries.len() == 0 {
        Seq::empty()
    } else {
        let rest = snapshot_of(entries.drop_last(), key);
        let e = entries.last();
        if strset(e.1.signing_pubkeys).contains(key) {
            rest.push((e.0@, opt_view(e.1.active_signing_pubkey)))
        } else {
            rest
        }
    }
}

pub open spec fn status_view(s: Seq<PresenceUserStatus>) -> Seq<(Seq<char>, Option<Seq<char>>)> {
    s.map_values(|u: PresenceUserStatus| (u.user_id@, opt_view(u.active_signing_pubkey)))
}

fn set_insert(v: &mut Vec<String>, x: String)
    requires
        views(old(v)@).no_duplicates(),
    ensures
        views(final(v)@).no_duplicates(),
        strset(*final(v)) == strset(*old(v)).insert(x@),
{
    let ghost s0 = views(v@);
    if !contains_str(v, &x) {
        proof {
            lemma_views_push(v@, x);
        }
        v.push(x);
        proof {
            let s1 = views(v@);
            assert(s1 == s0.push(x@));
            assert forall|i: int, j: int|
                0 <= i < s1.len() && 0 <= j < s1.len() && i != j implies s1[i] != s1[j] by {
                if i < s0.len() && j < s0.len() {
                    assert(s1[i] == s0[i] && s1[j] == s0[j]);
                } else if i < s0.len() {
                    assert(s1[i] == s0[i]);
                    assert(s0.contains(s0[i]));
                } else {
                    assert(s1[j] == s0[j]);
                    assert(s0.contains(s0[j]));
                }
            }
            assert forall|y: Seq<char>| s1.contains(y) <==> (s0.contains(y) || y == x@) by {
                if s1.contains(y) {
                    let i = choose|i: int| 0 <= i < s1.len() && s1[i] == y;
                    if i < s0.len() {
                        assert(s0[i] == y);
                    }
                }
                if s0.contains(y) {
                    let i = choose|i: int| 0 <= i < s0.len() && s0[i] == y;
                    assert(s1[i] == y);
                }
                if y == x@ {
                    assert(s1[s0.len() as int] == y);
                }
            }
        }
    }
    assert(strset(*v) =~= strset(*old(v)).insert(x@));
}

/// Adds every string of `src` to the set `v`.
fn set_extend(v: &mut Vec<String>, src: &Vec<String>)
    requires
        views(old(v)@).no_duplicates(),
    ensures
        views(final(v)@).no_duplicates(),
        strset(*final(v)) == strset(*old(v)).union(strset(*src)),
{
    let ghost v0 = strset(*v);
    let mut i: usize = 0;
    while i < src.len()
        invariant
            i <= src@.len(),
            views(v@).no_duplicates(),
            strset(*v) == v0.union(set_of(views(src@).subrange(0, i as int))),
        decreases src@.len() - i,
    {
        set_insert(v, src[i].clone());
        proof {
            let a = views(src@).subrange(0, i as int);
            let b = views(src@).subrange(0, i + 1);
            assert(b =~= a.push(src@[i as int]@));
            assert forall|y: Seq<char>| b.contains(y) <==> (a.contains(y) || y == src@[i as int]@) by {
                if b.contains(y) {
                    let j = choose|j: int| 0 <= j < b.len() && b[j] == y;
                    if j < a.len() {
                        assert(a[j] == y);
                    }
                }
                if a.contains(y) {
                    let j = choose|j: int| 0 <= j < a.len() && a[j] == y;
                    assert(b[j] == y);
                }
                if y == src@[i as int]@ {
                    assert(b[i as int] == y);
                }
            }
            assert(strset(*v) =~= v0.union(set_of(b)));
        }
        i = i + 1;
    }
    assert(views(src@).subrange(0, src@.len() as int) =~= views(src@));
}

/// Presence of users across their connections.
pub struct PresenceState {
    pub presence_conns: StrMap<PresenceConn>,
    pub presence_users: StrMap<PresenceUser>,
}

impl PresenceState {
    pub open spec fn user_view(u: PresenceUser) -> UserPresence {
        UserPresence {
            conns: strset(u.conns),
            keys: strset(u.signing_pubkeys),
            active: opt_view(u.active_signing_pubkey),
        }
    }

    pub open spec fn conn_view(c: PresenceConn) -> ConnPresence {
        ConnPresence { user: c.user_id@, keys: strset(c.signing_pubkeys) }
    }

    pub open spec fn view(&self) -> PresenceModel {
        PresenceModel {
            users: self.presence_users@.map_values(|u: PresenceUser| Self::user_view(u)),
            conns: self.presence_conns@.map_values(|c: PresenceConn| Self::conn_view(c)),
        }
    }

    pub open spec fn wf(&self) -> bool {
        &&& self.presence_conns.wf()
        &&& self.presence_users.wf()
        &&& forall|u: Seq<char>| #[trigger]
            self.presence_users@.contains_key(u) ==> views(
                self.presence_users@[u].signing_pubkeys@,
            ).no_duplicates() && views(self.presence_users@[u].conns@).no_duplicates()
        &&& forall|c: Seq<char>| #[trigger]
            self.presence_conns@.contains_key(c) ==> views(
                self.presence_conns@[c].signing_pubkeys@,
            ).no_duplicates()
    }

    pub fn new() -> (r: Self)
        ensures
            r.wf(),
            r.view().users.is_empty(),
            r.view().conns.is_empty(),
    {
        let r = PresenceState { presence_conns: StrMap::new(), presence_users: StrMap::new() };
        assert(r.view().users =~= Map::empty());
        assert(r.view().conns =~= Map::empty());
        r
    }

    /// Records a hello from `user_id` on `conn_id` and returns every house key the user is
    /// now present in, each once.
    pub fn upsert_presence_hello(
        &mut self,
        conn_id: &String,
        user_id: String,
        signing_pubkeys: &Vec<String>,
        active_signing_pubkey: Option<String>,
    ) -> (r: Vec<String>)
        requires
            old(self).wf(),
        ensures
            final(self).wf(),
            final(self).view() == after_hello(
                old(self).view(),
                conn_id@,
                user_id@,
                strset(*signing_pubkeys),
                opt_view(active_signing_pubkey),
            ),
            set_of(views(r@)) == final(self).view().users[user_id@].keys,
            views(r@).no_duplicates(),
    {
        let ghost m0 = self.view();
        let mut keys: Vec<String> = Vec::new();
        set_extend(&mut keys, signing_pubkeys);
        assert(strset(keys) =~= strset(*signing_pubkeys));
        self.presence_conns.insert(
            conn_id.clone(),
            PresenceConn { user_id: user_id.clone(), signing_pubkeys: keys },
        );
        let mut u = match self.presence_users.remove(&user_id) {
            Some(u) => u,
            None => PresenceUser {
                conns: Vec::new(),
                signing_pubkeys: Vec::new(),
                active_signing_pubkey: None,
            },
        };
        proof {
            if !m0.users.contains_key(user_id@) {
                assert(strset(u.conns) =~= Set::<Seq<char>>::empty());
                assert(strset(u.signing_pubkeys) =~= Set::<Seq<char>>::empty());
            }
        }
        set_insert(&mut u.conns, conn_id.clone());
        set_extend(&mut u.signing_pubkeys, signing_pubkeys);
        u.active_signing_pubkey = active_signing_pubkey;
        let out = copy_strs(&u.signing_pubkeys);
        self.presence_users.insert(user_id, u);
        proof {
            let m1 = after_hello(
                m0,
                conn_id@,
                user_id@,
                strset(*signing_pubkeys),
                opt_view(active_signing_pubkey),
            );
            assert(self.view().users =~= m1.users);
            assert(self.view().conns =~= m1.conns);
        }
        out
    }

    /// Sets the active house of a user that is online, returning its house keys; nothing
    /// for a user that is not.
    pub fn update_presence_active(
        &mut self,
        user_id: &String,
        active_signing_pubkey: Option<String>,
    ) -> (r: Option<Vec<String>>)
        requires
            old(self).wf(),
        ensures
            final(self).wf(),
            old(self).view().users.contains_key(user_id@) ==> final(self).view() == (PresenceModel {
                users: old(self).view().users.insert(
                    user_id@,
                    (UserPresence {
                        conns: old(self).view().users[user_id@].conns,
                        keys: old(self).view().users[user_id@].keys,
                        active: opt_view(active_signing_pubkey),
                    }),
                ),
                conns: old(self).view().conns,
            }),
            !old(self).view().users.contains_key(user_id@) ==> final(self).view() == old(
                self,
            ).view(),
            match r {
                Some(keys) => old(self).view().users.contains_key(user_id@) && set_of(views(keys@))
                    == old(self).view().users[user_id@].keys && views(keys@).no_duplicates(),
                None => !old(self).view().users.contains_key(user_id@),
            },
    {
        let ghost m0 = self.view();
        match self.presence_users.remove(user_id) {
            Some(mut u) => {
                u.active_signing_pubkey = active_signing_pubkey;
                let out = copy_strs(&u.signing_pubkeys);
                self.presence_users.insert(user_id.clone(), u);
                proof {
                    assert(self.view().users =~= m0.users.insert(
                        user_id@,
                        UserPresence {
                            conns: m0.users[user_id@].conns,
                            keys: m0.users[user_id@].keys,
                            active: opt_view(active_signing_pubkey),
                        },
                    ));
                    assert(self.view().conns =~= m0.conns);
                }
                Some(out)
            },
            None => {
                proof {
                    assert(self.presence_users@ =~= old(self).presence_users@);
                }
                None
            },
        }
    }

    /// Detaches `conn_id`. When it was its user's last connection, the user goes offline
    /// and is returned with every house key it was present in.
    pub fn remove_presence_conn(&mut self, conn_id: &String) -> (r: Option<(String, Vec<String>)>)
        requires
            old(self).wf(),
        ensures
            final(self).wf(),
            final(self).view() == after_disconnect(old(self).view(), conn_id@),
            match r {
                Some((u, keys)) => went_offline(old(self).view(), conn_id@) == Some(
                    (u@, set_of(views(keys@))),
                ) && views(keys@).no_duplicates(),
                None => went_offline(old(self).view(), conn_id@) is None,
            },
    {
        let ghost m0 = self.view();
        let conn = match self.presence_conns.remove(conn_id) {
            Some(c) => c,
            None => {
                assert(self.presence_conns@ =~= old(self).presence_conns@);
                return None;
            },
        };
        let user_id = conn.user_id;
        match self.presence_users.remove(&user_id) {
            Some(mut u) => {
                let rest = strs_without(&u.conns, conn_id);
                proof {
                    assert(set_of(views(rest@)) =~= strset(u.conns).remove(conn_id@)) by {
                        assert forall|x: Seq<char>|
                            set_of(views(rest@)).contains(x) <==> strset(u.conns).remove(
                                conn_id@,
                            ).contains(x) by {
                            lemma_without_contains(views(u.conns@), conn_id@, x);
                        }
                    }
                }
                if rest.len() == 0 {
                    proof {
                        assert(set_of(views(rest@)) =~= Set::<Seq<char>>::empty());
                        assert(self.view().users =~= after_disconnect(m0, conn_id@).users);
                        assert(self.view().conns =~= after_disconnect(m0, conn_id@).conns);
                    }
                    return Some((user_id, u.signing_pubkeys));
                }
                proof {
                    assert(views(rest@).len() > 0);
                    assert(set_of(views(rest@)).contains(views(rest@)[0]));
                    crate::strlist::lemma_without_no_duplicates(views(u.conns@), conn_id@);
                }
                u.conns = rest;
                self.presence_users.insert(user_id, u);
                proof {
                    assert(self.view().users =~= after_disconnect(m0, conn_id@).users);
                    assert(self.view().conns =~= after_disconnect(m0, conn_id@).conns);
                }
                None
            },
            None => {
                proof {
                    assert(self.presence_users@ =~= old(self).presence_users@);
                    assert(self.view().users =~= after_disconnect(m0, conn_id@).users);
                    assert(self.view().conns =~= after_disconnect(m0, conn_id@).conns);
                }
                None
            },
        }
    }

    /// Every online user present under `signing_pubkey`, with its active house.
    pub fn presence_snapshot_for(&self, signing_pubkey: &String) -> (r: Vec<PresenceUserStatus>)
        requires
            self.wf(),
        ensures
            status_view(r@) == snapshot_of(self.presence_users.entries(), signing_pubkey@),
    {
        let mut out: Vec<PresenceUserStatus> = Vec::new();
        let ghost es = self.presence_users.entries();
        let mut i: usize = 0;
        while i < self.presence_users.len()
            invariant
                i <= es.len(),
                es == self.presence_users.entries(),
                status_view(out@) == snapshot_of(es.subrange(0, i as int), signing_pubkey@),
            decreases es.len() - i,
        {
            let u = self.presence_users.value_at(i);
            let ghost before = out@;
            proof {
                assert(es.subrange(0, i + 1).drop_last() =~= es.subrange(0, i as int));
                assert(es.subrange(0, i + 1).last() == es[i as int]);
            }
            if contains_str(&u.signing_pubkeys, signing_pubkey) {
                let s = PresenceUserStatus {
                    user_id: self.presence_users.key_at(i).clone(),
                    active_signing_pubkey: clone_opt(&u.active_signing_pubkey),
                };
                out.push(s);
                assert(status_view(out@) =~= status_view(before).push(
                    (es[i as int].0@, opt_view(es[i as int].1.active_signing_pubkey)),
                ));
            }
            i = i + 1;
        }
        assert(es.subrange(0, es.len() as int) =~= es);
        out
    }
}

} // verus!
