use vstd::prelude::*;

use crate::strmap::StrMap;

verus! {

/// The character sequences of a list of strings.
pub open spec fn views(s: Seq<String>) -> Seq<Seq<char>> {
    s.map_values(|x: String| x@)
}

/// `s` without any occurrence of `p`, the rest in order.
pub open spec fn without(s: Seq<Seq<char>>, p: Seq<char>) -> Seq<Seq<char>> {
    s.filter(|q: Seq<char>| q != p)
}

/// A group list with `p` appended unless it is already there.
pub open spec fn with_member(s: Seq<Seq<char>>, p: Seq<char>) -> Seq<Seq<char>> {
    if s.contains(p) {
        s
    } else {
        s.push(p)
    }
}

/// Named lists of members, as the contracts see them.
pub open spec fn groups_view(m: Map<Seq<char>, Vec<String>>) -> Map<Seq<char>, Seq<Seq<char>>> {
    m.map_values(|v: Vec<String>| views(v@))
}

/// Adds `p` to the group `key`, creating the group when it is missing.
pub open spec fn group_add(g: Map<Seq<char>, Seq<Seq<char>>>, key: Seq<char>, p: Seq<char>) -> Map<
    Seq<char>,
    Seq<Seq<char>>,
> {
    if g.contains_key(key) {
        g.insert(key, with_member(g[key], p))
    } else {
        g.insert(key, seq![p])
    }
}

/// Takes `p` out of the group `key`, and the group out of the map once it is empty.
pub open spec fn group_drop(g: Map<Seq<char>, Seq<Seq<char>>>, key: Seq<char>, p: Seq<char>) -> Map<
    Seq<char>,
    Seq<Seq<char>>,
> {
    if !g.contains_key(key) {
        g
    } else if without(g[key], p).len() == 0 {
        g.remove(key)
    } else {
        g.insert(key, without(g[key], p))
    }
}

pub proof fn lemma_views_push(s: Seq<String>, x: String)
    ensures
        views(s.push(x)) == views(s).push(x@),
{
    assert(views(s.push(x)) =~= views(s).push(x@));
}

pub proof fn lemma_without_step(s: Seq<Seq<char>>, p: Seq<char>, i: int)
    requires
        0 <= i < s.len(),
    ensures
        without(s.subrange(0, i + 1), p) == if s[i] != p {
            without(s.subrange(0, i), p).push(s[i])
        } else {
            without(s.subrange(0, i), p)
        },
{
    let t = s.subrange(0, i + 1);
    assert(t.drop_last() =~= s.subrange(0, i));
    reveal(Seq::filter);
}

/// Membership after taking `p` out.
pub proof fn lemma_without_contains(s: Seq<Seq<char>>, p: Seq<char>, q: Seq<char>)
    ensures
        without(s, p).contains(q) <==> (s.contains(q) && q != p),
    decreases s.len(),
{
    reveal(Seq::filter);
    if s.len() > 0 {
        let t = s.drop_last();
        lemma_without_contains(t, p, q);
        assert(s =~= t.push(s.last()));
        assert(s.contains(q) <==> (t.contains(q) || s.last() == q)) by {
            if s.contains(q) {
                let i = choose|i: int| 0 <= i < s.len() && s[i] == q;
                if i < t.len() {
                    assert(t[i] == q);
                }
            }
            if t.contains(q) {
                let i = choose|i: int| 0 <= i < t.len() && t[i] == q;
                assert(s[i] == q);
            }
            if s.last() == q {
                assert(s[s.len() - 1] == q);
            }
        }
        let w = without(t, p);
        if s.last() != p {
            assert(without(s, p) == w.push(s.last()));
            assert(w.push(s.last()).contains(q) <==> (w.contains(q) || s.last() == q)) by {
                let ws = w.push(s.last());
                if ws.contains(q) {
                    let i = choose|i: int| 0 <= i < ws.len() && ws[i] == q;
                    if i < w.len() {
                        assert(w[i] == q);
                    }
                }
                if w.contains(q) {
                    let i = choose|i: int| 0 <= i < w.len() && w[i] == q;
                    assert(ws[i] == q);
                }
                if s.last() == q {
                    assert(ws[ws.len() - 1] == q);
                }
            }
        } else {
            assert(without(s, p) == w);
        }
    }
}

/// Taking a member out keeps a list free of duplicates.
pub proof fn lemma_without_no_duplicates(s: Seq<Seq<char>>, p: Seq<char>)
    requires
        s.no_duplicates(),
    ensures
        without(s, p).no_duplicates(),
    decreases s.len(),
{
    reveal(Seq::filter);
    if s.len() > 0 {
        let t = s.drop_last();
        assert(t.no_duplicates()) by {
            assert forall|i: int, j: int|
                0 <= i < t.len() && 0 <= j < t.len() && i != j implies t[i] != t[j] by {
                assert(t[i] == s[i] && t[j] == s[j]);
            }
        }
        lemma_without_no_duplicates(t, p);
        let w = without(t, p);
        if s.last() != p {
            lemma_without_contains(t, p, s.last());
            assert(!t.contains(s.last())) by {
                if t.contains(s.last()) {
                    let i = choose|i: int| 0 <= i < t.len() && t[i] == s.last();
                    assert(s[i] == s[s.len() - 1]);
                }
            }
            let ws = w.push(s.last());
            assert forall|i: int, j: int|
                0 <= i < ws.len() && 0 <= j < ws.len() && i != j implies ws[i] != ws[j] by {
                if i < w.len() && j < w.len() {
                    assert(ws[i] == w[i] && ws[j] == w[j]);
                } else if i < w.len() {
                    assert(ws[i] == w[i]);
                    assert(w.contains(w[i]));
                } else {
                    assert(ws[j] == w[j]);
                    assert(w.contains(w[j]));
                }
            }
        }
    }
}

/// Appending a new member: membership and freedom from duplicates.
pub proof fn lemma_with_member(s: Seq<Seq<char>>, p: Seq<char>, q: Seq<char>)
    ensures
        with_member(s, p).contains(q) <==> (s.contains(q) || q == p),
        s.no_duplicates() ==> with_member(s, p).no_duplicates(),
{
    if !s.contains(p) {
        let w = s.push(p);
        if w.contains(q) {
            let i = choose|i: int| 0 <= i < w.len() && w[i] == q;
            if i < s.len() {
                assert(s[i] == q);
            }
        }
        if s.contains(q) {
            let i = choose|i: int| 0 <= i < s.len() && s[i] == q;
            assert(w[i] == q);
        }
        if q == p {
            assert(w[s.len() as int] == q);
        }
        if s.no_duplicates() {
            assert forall|i: int, j: int|
                0 <= i < w.len() && 0 <= j < w.len() && i != j implies w[i] != w[j] by {
                if i < s.len() && j < s.len() {
                    assert(w[i] == s[i] && w[j] == s[j]);
                } else if i < s.len() {
                    assert(w[i] == s[i]);
                } else {
                    assert(w[j] == s[j]);
                }
            }
        }
    }
}

/// Whether `k` is among the strings of `v`.
pub fn contains_str(v: &Vec<String>, k: &String) -> (r: bool)
    ensures
        r == views(v@).contains(k@),
{
    let mut i: usize = 0;
    while i < v.len()
        invariant
            i <= v@.len(),
            forall|j: int| 0 <= j < i ==> (#[trigger] v@[j])@ != k@,
        decreases v@.len() - i,
    {
        if v[i] == *k {
            assert(views(v@)[i as int] == k@);
            return true;
        }
        i = i + 1;
    }
    assert forall|j: int| 0 <= j < views(v@).len() implies views(v@)[j] != k@ by {
        assert(views(v@)[j] == v@[j]@);
    }
    false
}

/// A copy of a list of strings.
pub fn copy_strs(v: &Vec<String>) -> (r: Vec<String>)
    ensures
        r@ == v@,
{
    let mut out: Vec<String> = Vec::new();
    let mut i: usize = 0;
    while i < v.len()
        invariant
            i <= v@.len(),
            out@ == v@.subrange(0, i as int),
        decreases v@.len() - i,
    {
        out.push(v[i].clone());
        i = i + 1;
        assert(out@ =~= v@.subrange(0, i as int));
    }
    assert(v@.subrange(0, v@.len() as int) =~= v@);
    out
}

/// The strings of `v` other than `k`, in order.
pub fn strs_without(v: &Vec<String>, k: &String) -> (r: Vec<String>)
    ensures
        views(r@) == without(views(v@), k@),
{
    let mut out: Vec<String> = Vec::new();
    let mut i: usize = 0;
    while i < v.len()
        invariant
            i <= v@.len(),
            views(out@) == without(views(v@).subrange(0, i as int), k@),
        decreases v@.len() - i,
    {
        proof {
            lemma_without_step(views(v@), k@, i as int);
        }
        if v[i] != *k {
            proof {
                lemma_views_push(out@, v@[i as int]);
            }
            out.push(v[i].clone());
        }
        i = i + 1;
    }
    assert(views(v@).subrange(0, v@.len() as int) =~= views(v@));
    out
}

/// Adds `p` to the group `key` of `g`.
pub fn group_add_exec(g: &mut StrMap<Vec<String>>, key: String, p: &String)
    requires
        old(g).wf(),
    ensures
        final(g).wf(),
        groups_view(final(g)@) == group_add(groups_view(old(g)@), key@, p@),
{
    let ghost g0 = groups_view(g@);
    let members = match g.remove(&key) {
        Some(mut v) => {
            if !contains_str(&v, p) {
                proof {
                    lemma_views_push(v@, *p);
                }
                v.push(p.clone());
            }
            v
        },
        None => {
            let mut v: Vec<String> = Vec::new();
            v.push(p.clone());
            assert(views(v@) =~= seq![p@]);
            v
        },
    };
    g.insert(key, members);
    assert(groups_view(g@) =~= group_add(g0, key@, p@));
}

/// Takes `p` out of the group `key` of `g`, dropping the group once empty.
pub fn group_drop_exec(g: &mut StrMap<Vec<String>>, key: &String, p: &String)
    requires
        old(g).wf(),
    ensures
        final(g).wf(),
        groups_view(final(g)@) == group_drop(groups_view(old(g)@), key@, p@),
{
    let ghost g0 = groups_view(g@);
    match g.remove(key) {
        Some(v) => {
            let rest = strs_without(&v, p);
            if rest.len() == 0 {
                assert(groups_view(g@) =~= group_drop(g0, key@, p@));
            } else {
                g.insert(key.clone(), rest);
                assert(groups_view(g@) =~= group_drop(g0, key@, p@));
            }
        },
        None => {
            assert(groups_view(g@) =~= g0);
        },
    }
}

} // verus!
