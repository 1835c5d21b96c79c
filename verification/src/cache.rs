//! The connection cache: the one store of the last-known session set,
//! keyed by session name.  Readers get snapshots; the session set is
//! replaced wholesale by a reconciliation pass, and latency is folded in
//! per session.  Every operation keeps the set free of duplicate names.

use vstd::prelude::*;
use vstd::pervasive::VecAdditionalExecFns;
use crate::models::{VpnUser, VpnUserView};
use crate::session_set::{
    clone_sessions, dedup_keep_last, find_index_by_name, has_name, lemma_dedup_of_unique,
    lemma_dedup_unique, lemma_remove_name_id, lemma_remove_name_split, lemma_remove_name_unique,
    name_index, remove_name, unique_names,
};

verus! {

/// In-memory store of the current sessions.
pub struct InMemoryCache {
    users: Vec<VpnUser>,
}

impl InMemoryCache {
    /// The stored sessions, in storage order.
    pub closed spec fn users_view(&self) -> Seq<VpnUserView> {
        self.users.deep_view()
    }

    /// The store never holds two sessions with the same name.
    pub open spec fn wf(&self) -> bool {
        unique_names(self.users_view())
    }

    pub fn new() -> (r: Self)
        ensures
            r.users_view() == Seq::<VpnUserView>::empty(),
            r.wf(),
    {
        let r = Self { users: Vec::new() };
        proof {
            assert(r.users.deep_view() =~= Seq::<VpnUserView>::empty());
        }
        r
    }

    /// A snapshot of the sessions, or `None` while nothing is loaded.
    pub fn get_vpn_users(&self) -> (r: Option<Vec<VpnUser>>)
        ensures
            r is Some <==> self.users_view().len() > 0,
            r matches Some(v) ==> v.deep_view() == self.users_view(),
    {
        if self.users.is_empty() {
            None
        } else {
            Some(clone_sessions(&self.users))
        }
    }

    /// Replaces the whole session set.  Of duplicate names in the given
    /// list the last record wins; a duplicate-free list is installed
    /// exactly as given.
    pub fn set_vpn_users(&mut self, users: Vec<VpnUser>)
        requires
            old(self).wf(),
        ensures
            final(self).wf(),
            final(self).users_view() == dedup_keep_last(users.deep_view()),
            unique_names(users.deep_view()) ==> final(self).users_view() == users.deep_view(),
    {
        let ghost fdv = users.deep_view();
        self.users.clear();
        proof {
            assert(self.users.deep_view() =~= Seq::<VpnUserView>::empty());
            assert(self.users.deep_view() =~= dedup_keep_last(fdv.take(0)));
        }
        let mut k: usize = 0;
        while k < users.len()
            invariant
                k <= users.len(),
                fdv == users.deep_view(),
                fdv.len() == users.len(),
                unique_names(self.users.deep_view()),
                self.users.deep_view() == dedup_keep_last(fdv.take(k as int)),
            decreases users.len() - k,
        {
            let u = users[k].clone();
            proof {
                assert(u.deep_view() == fdv[k as int]);
            }
            let ghost cur = self.users.deep_view();
            match find_index_by_name(&self.users, &u.name) {
                Some(i) => {
                    proof {
                        lemma_remove_name_split(cur, u.name@, i as int);
                    }
                    self.users.remove(i);
                    proof {
                        assert(self.users.deep_view() =~= cur.subrange(0, i as int) + cur.subrange(
                            i + 1,
                            cur.len() as int,
                        ));
                    }
                },
                None => {
                    proof {
                        lemma_remove_name_id(cur, u.name@);
                    }
                },
            }
            proof {
                assert(self.users.deep_view() == remove_name(cur, u.name@));
                lemma_remove_name_unique(cur, u.name@);
            }
            let ghost removed = self.users.deep_view();
            self.users.push(u);
            k = k + 1;
            proof {
                assert(self.users.deep_view() =~= removed.push(fdv[(k - 1) as int]));
                assert(fdv.take(k as int).drop_last() =~= fdv.take(k - 1));
                assert(fdv.take(k as int).last() == fdv[(k - 1) as int]);
                assert(self.users.deep_view() == dedup_keep_last(fdv.take(k as int)));
                assert(unique_names(self.users.deep_view())) by {
                    lemma_dedup_unique(fdv.take(k as int));
                }
            }
        }
        proof {
            assert(fdv.take(users.len() as int) =~= fdv);
            if unique_names(fdv) {
                lemma_dedup_of_unique(fdv);
            }
        }
    }

    /// Folds one measurement into the matching session; a name no longer
    /// present leaves the store exactly as it was.
    pub fn set_user_latency(&mut self, user_name: &String, latency: Option<u64>)
        requires
            old(self).wf(),
        ensures
            final(self).wf(),
            !has_name(old(self).users_view(), user_name@) ==> final(self).users_view() == old(
                self,
            ).users_view(),
            has_name(old(self).users_view(), user_name@) ==> final(self).users_view() == old(
                self,
            ).users_view().update(
                name_index(old(self).users_view(), user_name@),
                (VpnUserView {
                    latency,
                    ..old(self).users_view()[name_index(old(self).users_view(), user_name@)]
                }),
            ),
    {
        let ghost cur = self.users.deep_view();
        match find_index_by_name(&self.users, user_name) {
            Some(i) => {
                let mut u = self.users[i].clone();
                u.update_latency(latency);
                proof {
                    assert(u.deep_view() == (VpnUserView { latency, ..cur[i as int] }));
                }
                self.users.set(i, u);
                proof {
                    let idx = name_index(cur, user_name@);
                    assert(cur[idx].name == user_name@);
                    assert(idx == i) by {
                        if idx != i {
                            assert(cur[idx].name == cur[i as int].name);
                        }
                    }
                    assert(self.users.deep_view() =~= cur.update(
                        i as int,
                        (VpnUserView { latency, ..cur[i as int] }),
                    ));
                    assert(unique_names(self.users.deep_view())) by {
                        assert forall|p: int, q: int|
                            0 <= p < q < self.users.deep_view().len() implies self.users.deep_view()[p].name
                            != self.users.deep_view()[q].name by {
                            assert(self.users.deep_view()[p].name == cur[p].name);
                            assert(self.users.deep_view()[q].name == cur[q].name);
                        }
                    }
                }
            },
            None => {
            },
        }
    }

    /// Removes the session named `user_name`, if any; removing an absent
    /// name is a no-op.
    pub fn clear_user(&mut self, user_name: &String)
        requires
            old(self).wf(),
        ensures
            final(self).wf(),
            final(self).users_view() == remove_name(old(self).users_view(), user_name@),
            !has_name(old(self).users_view(), user_name@) ==> final(self).users_view() == old(
                self,
            ).users_view(),
    {
        let ghost cur = self.users.deep_view();
        match find_index_by_name(&self.users, user_name) {
            Some(i) => {
                proof {
                    lemma_remove_name_split(cur, user_name@, i as int);
                }
                self.users.remove(i);
                proof {
                    assert(self.users.deep_view() =~= cur.subrange(0, i as int) + cur.subrange(
                        i + 1,
                        cur.len() as int,
                    ));
                    lemma_remove_name_unique(cur, user_name@);
                }
            },
            None => {
                proof {
                    lemma_remove_name_id(cur, user_name@);
                }
            },
        }
    }

    /// The latest measurement stored for `user_name`, `None` when the
    /// session is absent or still unmeasured.
    pub fn get_user_latency(&self, user_name: &String) -> (r: Option<u64>)
        requires
            self.wf(),
        ensures
            has_name(self.users_view(), user_name@) ==> r == self.users_view()[name_index(
                self.users_view(),
                user_name@,
            )].latency,
            !has_name(self.users_view(), user_name@) ==> r is None,
    {
        let ghost cur = self.users.deep_view();
        match find_index_by_name(&self.users, user_name) {
            Some(i) => {
                proof {
                    let idx = name_index(cur, user_name@);
                    assert(cur[idx].name == user_name@);
                    if idx != i {
                        assert(cur[idx].name == cur[i as int].name);
                    }
                }
                self.users[i].latency
            },
            None => None,
        }
    }
}

} // verus!
