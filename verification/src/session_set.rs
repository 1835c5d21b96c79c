//! Sessions as a keyed collection.  Both the cache and the monitor hold
//! their sessions in a vector that is kept free of duplicate names; the
//! spec functions and lemmas here describe such vectors, and the small
//! executable helpers look sessions up by name.

use vstd::prelude::*;
use crate::models::{VpnUser, VpnUserView};

verus! {

/// Some session in `s` is named `n`.
pub open spec fn has_name(s: Seq<VpnUserView>, n: Seq<char>) -> bool {
    exists|i: int| 0 <= i < s.len() && s[i].name == n
}

/// The index of the session named `n` (meaningful when `has_name` holds
/// and names are unique).
pub open spec fn name_index(s: Seq<VpnUserView>, n: Seq<char>) -> int {
    choose|i: int| 0 <= i < s.len() && s[i].name == n
}

/// No two sessions share a name.
pub open spec fn unique_names(s: Seq<VpnUserView>) -> bool {
    forall|i: int, j: int| 0 <= i < j < s.len() ==> s[i].name != s[j].name
}

/// `s` without every session named `n`.
pub open spec fn remove_name(s: Seq<VpnUserView>, n: Seq<char>) -> Seq<VpnUserView> {
    s.filter(|u: VpnUserView| u.name != n)
}

/// `s` with duplicate names collapsed: of several sessions sharing a
/// name the last one survives, and settles at the position of its last
/// occurrence.
pub open spec fn dedup_keep_last(s: Seq<VpnUserView>) -> Seq<VpnUserView>
    decreases s.len(),
{
    if s.len() == 0 {
        Seq::<VpnUserView>::empty()
    } else {
        remove_name(dedup_keep_last(s.drop_last()), s.last().name).push(s.last())
    }
}

pub proof fn lemma_remove_name_has(s: Seq<VpnUserView>, n: Seq<char>, m: Seq<char>)
    ensures
        has_name(remove_name(s, n), m) <==> (has_name(s, m) && m != n),
    decreases s.len(),
{
    reveal(Seq::filter);
    let pred = |u: VpnUserView| u.name != n;
    if s.len() == 0 {
        assert(!has_name(remove_name(s, n), m));
        assert(!has_name(s, m));
    } else {
        let d = s.drop_last();
        lemma_remove_name_has(d, n, m);
        if pred(s.last()) {
            assert(remove_name(s, n) == remove_name(d, n).push(s.last()));
            if has_name(remove_name(s, n), m) {
                let i = choose|i: int|
                    0 <= i < remove_name(s, n).len() && remove_name(s, n)[i].name == m;
                if i == remove_name(d, n).len() {
                    assert(s[s.len() - 1].name == m);
                } else {
                    assert(remove_name(d, n)[i].name == m);
                    let j = choose|j: int| 0 <= j < d.len() && d[j].name == m;
                    assert(s[j].name == m);
                }
            }
            if has_name(s, m) && m != n {
                let i = choose|i: int| 0 <= i < s.len() && s[i].name == m;
                if i == s.len() - 1 {
                    assert(remove_name(s, n)[remove_name(d, n).len() as int].name == m);
                } else {
                    assert(d[i].name == m);
                    let j = choose|j: int|
                        0 <= j < remove_name(d, n).len() && remove_name(d, n)[j].name == m;
                    assert(remove_name(s, n)[j].name == m);
                }
            }
        } else {
            assert(remove_name(s, n) == remove_name(d, n));
            assert(s.last().name == n);
            if has_name(s, m) && m != n {
                let i = choose|i: int| 0 <= i < s.len() && s[i].name == m;
                assert(d[i].name == m);
            }
            if has_name(d, m) {
                let i = choose|i: int| 0 <= i < d.len() && d[i].name == m;
                assert(s[i].name == m);
            }
        }
    }
}

pub proof fn lemma_remove_name_id(s: Seq<VpnUserView>, n: Seq<char>)
    requires
        !has_name(s, n),
    ensures
        remove_name(s, n) == s,
    decreases s.len(),
{
    reveal(Seq::filter);
    if s.len() > 0 {
        let d = s.drop_last();
        assert forall|i: int| 0 <= i < d.len() implies d[i].name != n by {
            assert(s[i].name != n);
        }
        assert(!has_name(d, n));
        lemma_remove_name_id(d, n);
        assert(s.last().name != n);
        assert(remove_name(s, n) == d.push(s.last()));
        assert(d.push(s.last()) =~= s);
    } else {
        assert(remove_name(s, n) =~= s);
    }
}

pub proof fn lemma_remove_name_unique(s: Seq<VpnUserView>, n: Seq<char>)
    requires
        unique_names(s),
    ensures
        unique_names(remove_name(s, n)),
        !has_name(remove_name(s, n), n),
    decreases s.len(),
{
    reveal(Seq::filter);
    lemma_remove_name_has(s, n, n);
    if s.len() > 0 {
        let d = s.drop_last();
        assert(unique_names(d)) by {
            assert forall|i: int, j: int| 0 <= i < j < d.len() implies d[i].name != d[j].name by {
                assert(s[i].name != s[j].name);
            }
        }
        lemma_remove_name_unique(d, n);
        let pred = |u: VpnUserView| u.name != n;
        if pred(s.last()) {
            assert(remove_name(s, n) == remove_name(d, n).push(s.last()));
            assert(!has_name(d, s.last().name)) by {
                if has_name(d, s.last().name) {
                    let i = choose|i: int| 0 <= i < d.len() && d[i].name == s.last().name;
                    assert(s[i].name == s[s.len() - 1].name);
                }
            }
            lemma_remove_name_has(d, n, s.last().name);
            let r = remove_name(s, n);
            assert forall|i: int, j: int| 0 <= i < j < r.len() implies r[i].name != r[j].name by {
                if j == r.len() - 1 {
                    assert(r[i] == remove_name(d, n)[i]);
                    if r[i].name == s.last().name {
                        assert(has_name(remove_name(d, n), s.last().name));
                    }
                }
            }
        } else {
            assert(remove_name(s, n) == remove_name(d, n));
        }
    }
}

/// On a duplicate-free sequence, removing a name removes exactly the one
/// session bearing it.
pub proof fn lemma_remove_name_split(s: Seq<VpnUserView>, n: Seq<char>, i: int)
    requires
        unique_names(s),
        0 <= i < s.len(),
        s[i].name == n,
    ensures
        remove_name(s, n) == s.subrange(0, i) + s.subrange(i + 1, s.len() as int),
    decreases s.len(),
{
    reveal(Seq::filter);
    let d = s.drop_last();
    assert(unique_names(d)) by {
        assert forall|p: int, q: int| 0 <= p < q < d.len() implies d[p].name != d[q].name by {
            assert(s[p].name != s[q].name);
        }
    }
    if i == s.len() - 1 {
        assert(!has_name(d, n)) by {
            if has_name(d, n) {
                let p = choose|p: int| 0 <= p < d.len() && d[p].name == n;
                assert(s[p].name == s[i].name);
            }
        }
        lemma_remove_name_id(d, n);
        assert(remove_name(s, n) == d);
        assert(d =~= s.subrange(0, i) + s.subrange(i + 1, s.len() as int));
    } else {
        assert(d[i].name == n);
        lemma_remove_name_split(d, n, i);
        assert(s.last().name != n) by {
            assert(s[i].name != s[s.len() - 1].name);
        }
        assert(remove_name(s, n) == remove_name(d, n).push(s.last()));
        assert(remove_name(d, n).push(s.last()) =~= s.subrange(0, i) + s.subrange(
            i + 1,
            s.len() as int,
        ));
    }
}

pub proof fn lemma_dedup_has(s: Seq<VpnUserView>, m: Seq<char>)
    ensures
        has_name(dedup_keep_last(s), m) <==> has_name(s, m),
    decreases s.len(),
{
    if s.len() > 0 {
        let d = s.drop_last();
        lemma_dedup_has(d, m);
        lemma_remove_name_has(dedup_keep_last(d), s.last().name, m);
        let r = dedup_keep_last(s);
        let body = remove_name(dedup_keep_last(d), s.last().name);
        if m == s.last().name {
            assert(r[r.len() - 1].name == m);
            assert(s[s.len() - 1].name == m);
        } else {
            if has_name(r, m) {
                let i = choose|i: int| 0 <= i < r.len() && r[i].name == m;
                assert(body[i].name == m);
                let j = choose|j: int| 0 <= j < d.len() && d[j].name == m;
                assert(s[j].name == m);
            }
            if has_name(s, m) {
                let i = choose|i: int| 0 <= i < s.len() && s[i].name == m;
                assert(d[i].name == m);
                let j = choose|j: int| 0 <= j < body.len() && body[j].name == m;
                assert(r[j].name == m);
            }
        }
    }
}

pub proof fn lemma_dedup_unique(s: Seq<VpnUserView>)
    ensures
        unique_names(dedup_keep_last(s)),
    decreases s.len(),
{
    if s.len() > 0 {
        let d = s.drop_last();
        lemma_dedup_unique(d);
        lemma_remove_name_unique(dedup_keep_last(d), s.last().name);
        let body = remove_name(dedup_keep_last(d), s.last().name);
        let r = dedup_keep_last(s);
        assert forall|i: int, j: int| 0 <= i < j < r.len() implies r[i].name != r[j].name by {
            if j == r.len() - 1 {
                assert(r[i] == body[i]);
                if r[i].name == s.last().name {
                    assert(has_name(body, s.last().name));
                }
            }
        }
    }
}

/// A fetch without duplicate names is its own collapsed form.
pub proof fn lemma_dedup_of_unique(s: Seq<VpnUserView>)
    requires
        unique_names(s),
    ensures
        dedup_keep_last(s) == s,
    decreases s.len(),
{
    if s.len() > 0 {
        let d = s.drop_last();
        assert(unique_names(d)) by {
            assert forall|p: int, q: int| 0 <= p < q < d.len() implies d[p].name != d[q].name by {
                assert(s[p].name != s[q].name);
            }
        }
        lemma_dedup_of_unique(d);
        assert(!has_name(d, s.last().name)) by {
            if has_name(d, s.last().name) {
                let p = choose|p: int| 0 <= p < d.len() && d[p].name == s.last().name;
                assert(s[p].name == s[s.len() - 1].name);
            }
        }
        lemma_remove_name_id(d, s.last().name);
        assert(dedup_keep_last(s) == d.push(s.last()));
        assert(d.push(s.last()) =~= s);
    } else {
        assert(dedup_keep_last(s) =~= s);
    }
}

/// The index of the session named `name`, scanning from the front.
pub fn find_index_by_name(users: &Vec<VpnUser>, name: &String) -> (r: Option<usize>)
    ensures
        r matches Some(i) ==> i < users.len() && users.deep_view()[i as int].name == name@,
        r is None <==> !has_name(users.deep_view(), name@),
{
    let ghost dv = users.deep_view();
    let mut i: usize = 0;
    while i < users.len()
        invariant
            i <= users.len(),
            dv == users.deep_view(),
            dv.len() == users.len(),
            forall|p: int| 0 <= p < i ==> dv[p].name != name@,
        decreases users.len() - i,
    {
        proof {
            assert(dv[i as int] == users[i as int].deep_view());
        }
        if users[i].name == *name {
            return Some(i);
        }
        i = i + 1;
    }
    proof {
        if has_name(dv, name@) {
            let p = choose|p: int| 0 <= p < dv.len() && dv[p].name == name@;
            assert(dv[p].name != name@);
        }
    }
    None
}

/// A copy of `users`, element for element.
pub fn clone_sessions(users: &Vec<VpnUser>) -> (r: Vec<VpnUser>)
    ensures
        r.deep_view() == users.deep_view(),
{
    let ghost dv = users.deep_view();
    let mut r: Vec<VpnUser> = Vec::new();
    let mut i: usize = 0;
    while i < users.len()
        invariant
            i <= users.len(),
            dv == users.deep_view(),
            dv.len() == users.len(),
            r@.len() == i as int,
            forall|p: int| 0 <= p < i ==> (#[trigger] r@[p]).deep_view() == dv[p],
        decreases users.len() - i,
    {
        let u = users[i].clone();
        proof {
            assert(u.deep_view() == dv[i as int]);
        }
        r.push(u);
        i = i + 1;
    }
    proof {
        assert forall|p: int| 0 <= p < dv.len() implies r.deep_view()[p] == dv[p] by {
            assert(r.deep_view()[p] == r@[p].deep_view());
        }
        assert(r.deep_view() =~= dv);
    }
    r
}

/// Whether some session in `users` is named `name`.
pub fn contains_name(users: &Vec<VpnUser>, name: &String) -> (r: bool)
    ensures
        r == has_name(users.deep_view(), name@),
{
    match find_index_by_name(users, name) {
        Some(i) => {
            proof {
                assert(users.deep_view()[i as int].name == name@);
            }
            true
        },
        None => false,
    }
}

} // verus!
