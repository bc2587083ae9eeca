use vstd::prelude::*;

use crate::signaling::clone_opt;
use crate::strlist::views;
use crate::strmap::StrMap;

verus! {

/// The latest known display metadata of a user.
pub struct ProfileRecord {
    pub display_name: String,
    pub real_name: Option<String>,
    pub show_real_name: bool,
    pub rev: i64,
}

impl Clone for ProfileRecord {
    fn clone(&self) -> (r: Self)
        ensures
            r == *self,
    {
        ProfileRecord {
            display_name: self.display_name.clone(),
            real_name: clone_opt(&self.real_name),
            show_real_name: self.show_real_name,
            rev: self.rev,
        }
    }
}

/// A user's profile as handed out in a snapshot.
pub struct ProfileSnapshotRecord {
    pub user_id: String,
    pub display_name: String,
    pub real_name: Option<String>,
    pub show_real_name: bool,
    pub rev: i64,
}

pub open spec fn snapshot_view(s: Seq<ProfileSnapshotRecord>) -> Seq<(Seq<char>, ProfileRecord)> {
    s.map_values(
        |p: ProfileSnapshotRecord|
            (
                p.user_id@,
                ProfileRecord {
                    display_name: p.display_name,
                    real_name: p.real_name,
                    show_real_name: p.show_real_name,
                    rev: p.rev,
                },
            ),
    )
}

/// An announce at revision `rev` is taken iff nothing is stored for the user or `rev` is
/// strictly newer than what is.
pub open spec fn accepts(m: Map<Seq<char>, ProfileRecord>, user: Seq<char>, rev: i64) -> bool {
    !m.contains_key(user) || rev > m[user].rev
}

/// The store after an announce: last writer wins by revision.
pub open spec fn after_announce(
    m: Map<Seq<char>, ProfileRecord>,
    user: Seq<char>,
    rec: ProfileRecord,
) -> Map<Seq<char>, ProfileRecord> {
    if accepts(m, user, rec.rev) {
        m.insert(user, rec)
    } else {
        m
    }
}

/// The known profiles among `ids`, in the order asked, skipping unknown users.
pub open spec fn known_profiles(ids: Seq<Seq<char>>, m: Map<Seq<char>, ProfileRecord>) -> Seq<
    (Seq<char>, ProfileRecord),
>
    decreases ids.len(),
{
    if ids.len() == 0 {
        Seq::empty()
    } else {
        let rest = known_profiles(ids.drop_last(), m);
        if m.contains_key(ids.last()) {
            rest.push((ids.last(), m[ids.last()]))
        } else {
            rest
        }
    }
}

/// A stored revision never goes down: an older or equal announce leaves the store as it
/// was, and a newer one replaces the record.
pub proof fn lemma_revision_monotone(
    m: Map<Seq<char>, ProfileRecord>,
    user: Seq<char>,
    rec: ProfileRecord,
)
    ensures
        after_announce(m, user, rec).contains_key(user),
        m.contains_key(user) ==> after_announce(m, user, rec)[user].rev >= m[user].rev,
        m.contains_key(user) && rec.rev <= m[user].rev ==> after_announce(m, user, rec) == m,
        (!m.contains_key(user) || rec.rev > m[user].rev) ==> after_announce(m, user, rec)[user]
            == rec,
        forall|u: Seq<char>|
            u != user ==> #[trigger] after_announce(m, user, rec).contains_key(u)
                == m.contains_key(u) && (m.contains_key(u) ==> after_announce(m, user, rec)[u]
                == m[u]),
{
}

/// Profile replication: the latest record per user.
pub struct ProfileState {
    pub profiles: StrMap<ProfileRecord>,
}

impl ProfileState {
    pub open spec fn wf(&self) -> bool {
        self.profiles.wf()
    }

    pub fn new() -> (r: Self)
        ensures
            r.wf(),
            r.profiles@.is_empty(),
    {
        ProfileState { profiles: StrMap::new() }
    }

    /// Applies an announce for `user_id`. Returns whether it was taken, and the record now
    /// stored, which is what gets broadcast either way.
    pub fn announce_profile(&mut self, user_id: &String, rec: ProfileRecord) -> (r: (
        bool,
        ProfileRecord,
    ))
        requires
            old(self).wf(),
        ensures
            final(self).wf(),
            r.0 == accepts(old(self).profiles@, user_id@, rec.rev),
            final(self).profiles@ == after_announce(old(self).profiles@, user_id@, rec),
            final(self).profiles@.contains_key(user_id@),
            r.1 == final(self).profiles@[user_id@],
    {
        let kept: Option<ProfileRecord> = match self.profiles.get(user_id) {
            Some(existing) => {
                if rec.rev > existing.rev {
                    None
                } else {
                    Some(existing.clone())
                }
            },
            None => None,
        };
        match kept {
            Some(current) => (false, current),
            None => {
                let current = rec.clone();
                self.profiles.insert(user_id.clone(), rec);
                (true, current)
            },
        }
    }

    /// The stored profiles of the users in `user_ids`, in that order; users with no record
    /// are left out.
    pub fn profiles_for(&self, user_ids: &Vec<String>) -> (r: Vec<ProfileSnapshotRecord>)
        requires
            self.wf(),
        ensures
            snapshot_view(r@) == known_profiles(views(user_ids@), self.profiles@),
    {
        let mut out: Vec<ProfileSnapshotRecord> = Vec::new();
        let ghost ids = views(user_ids@);
        let mut i: usize = 0;
        while i < user_ids.len()
            invariant
                self.wf(),
                i <= user_ids@.len(),
                ids == views(user_ids@),
                snapshot_view(out@) == known_profiles(ids.subrange(0, i as int), self.profiles@),
            decreases user_ids@.len() - i,
        {
            let ghost before = out@;
            proof {
                assert(ids.subrange(0, i + 1).drop_last() =~= ids.subrange(0, i as int));
                assert(ids.subrange(0, i + 1).last() == user_ids@[i as int]@);
            }
            match self.profiles.get(&user_ids[i]) {
                Some(rec) => {
                    let c = rec.clone();
                    out.push(
                        ProfileSnapshotRecord {
                            user_id: user_ids[i].clone(),
                            display_name: c.display_name,
                            real_name: c.real_name,
                            show_real_name: c.show_real_name,
                            rev: c.rev,
                        },
                    );
                    assert(snapshot_view(out@) =~= snapshot_view(before).push(
                        (user_ids@[i as int]@, self.profiles@[user_ids@[i as int]@]),
                    ));
                },
                None => {},
            }
            i = i + 1;
        }
        assert(ids.subrange(0, ids.len() as int) =~= ids);
        out
    }
}

} // verus!
