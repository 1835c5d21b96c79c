//! A session repository keyed by name: the fallback store behind the
//! cache, with save/delete/lookup semantics of its own (deleting or
//! updating an unknown name is an error here, unlike in the cache).

use vstd::prelude::*;
use vstd::pervasive::VecAdditionalExecFns;
use crate::models::{DomainError, VpnUser, VpnUserView};
use crate::session_set::{
    clone_sessions, find_index_by_name, has_name, lemma_remove_name_id, lemma_remove_name_split,
    lemma_remove_name_unique, name_index, remove_name, unique_names,
};

verus! {

/// In-memory session repository.
pub struct InMemoryVpnUserRepository {
    users: Vec<VpnUser>,
}

impl InMemoryVpnUserRepository {
    /// The stored sessions, in storage order.
    pub closed spec fn users_view(&self) -> Seq<VpnUserView> {
        self.users.deep_view()
    }

    /// The store never holds two sessions with the same name.
    pub open spec fn wf(&self) -> bool {
        unique_names(self.users_view())
    }

    pub fn new() -> (r: Self)
        ensures
            r.users_view() == Seq::<VpnUserView>::empty(),
            r.wf(),
    {
        let r = Self { users: Vec::new() };
        proof {
            assert(r.users.deep_view() =~= Seq::<VpnUserView>::empty());
        }
        r
    }

    /// Every stored session; never fails.
    pub fn find_all(&self) -> (r: Result<Vec<VpnUser>, DomainError>)
        ensures
            r is Ok,
            r matches Ok(v) ==> v.deep_view() == self.users_view(),
    {
        Ok(clone_sessions(&self.users))
    }

    /// The session named `name`, when stored; never fails.
    pub fn find_by_name(&self, name: &String) -> (r: Result<Option<VpnUser>, DomainError>)
        requires
            self.wf(),
        ensures
            r is Ok,
            r matches Ok(o) ==> (o is Some <==> has_name(self.users_view(), name@)) && (
            o matches Some(u) ==> u.deep_view() == self.users_view()[name_index(
                self.users_view(),
                name@,
            )]),
    {
        let ghost dv = self.users.deep_view();
        match find_index_by_name(&self.users, name) {
            Some(i) => {
                let u = self.users[i].clone();
                proof {
                    assert(u.deep_view() == dv[i as int]);
                    let idx = name_index(dv, name@);
                    assert(dv[idx].name == name@);
                    if idx != i {
                        assert(dv[idx].name == dv[i as int].name);
                    }
                }
                Ok(Some(u))
            },
            None => Ok(None),
        }
    }

    /// Stores the session, replacing any session of the same name.
    pub fn save(&mut self, user: &VpnUser) -> (r: Result<(), DomainError>)
        requires
            old(self).wf(),
        ensures
            r matches Ok(()),
            final(self).wf(),
            final(self).users_view() == remove_name(old(self).users_view(), user@.name).push(
                user.deep_view(),
            ),
    {
        let ghost cur = self.users.deep_view();
        match find_index_by_name(&self.users, &user.name) {
            Some(i) => {
                proof {
                    lemma_remove_name_split(cur, user@.name, i as int);
                }
                self.users.remove(i);
                proof {
                    assert(self.users.deep_view() =~= cur.subrange(0, i as int) + cur.subrange(
                        i + 1,
                        cur.len() as int,
                    ));
                }
            },
            None => {
                proof {
                    lemma_remove_name_id(cur, user@.name);
                }
            },
        }
        proof {
            assert(self.users.deep_view() == remove_name(cur, user@.name));
            lemma_remove_name_unique(cur, user@.name);
        }
        let ghost removed = self.users.deep_view();
        let u = user.clone();
        proof {
            assert(u.deep_view() == user.deep_view());
        }
        self.users.push(u);
        proof {
            assert(self.users.deep_view() =~= removed.push(user.deep_view()));
            assert forall|p: int, q: int|
                0 <= p < q < self.users.deep_view().len() implies self.users.deep_view()[p].name
                != self.users.deep_view()[q].name by {
                if q == self.users.deep_view().len() - 1 {
                    crate::session_set::lemma_remove_name_has(cur, user@.name, removed[p].name);
                    assert(removed[p].name != user@.name) by {
                        if removed[p].name == user@.name {
                            assert(has_name(removed, user@.name));
                        }
                    }
                }
            }
        }
        Ok(())
    }

    /// Deletes the session named `name`; an unknown name is an error.
    pub fn delete(&mut self, name: &String) -> (r: Result<(), DomainError>)
        requires
            old(self).wf(),
        ensures
            final(self).wf(),
            r is Ok <==> has_name(old(self).users_view(), name@),
            r matches Err(e) ==> e == DomainError::UserNotFound(*name) && final(self).users_view()
                == old(self).users_view(),
            final(self).users_view() == remove_name(old(self).users_view(), name@),
    {
        let ghost cur = self.users.deep_view();
        match find_index_by_name(&self.users, name) {
            Some(i) => {
                proof {
                    lemma_remove_name_split(cur, name@, i as int);
                }
                self.users.remove(i);
                proof {
                    assert(self.users.deep_view() =~= cur.subrange(0, i as int) + cur.subrange(
                        i + 1,
                        cur.len() as int,
                    ));
                    lemma_remove_name_unique(cur, name@);
                }
                Ok(())
            },
            None => {
                proof {
                    lemma_remove_name_id(cur, name@);
                }
                Err(DomainError::UserNotFound(name.clone()))
            },
        }
    }

    /// Replaces the stored latency of the session named `name`; an
    /// unknown name is an error.
    pub fn update_latency(&mut self, name: &String, latency: Option<u64>) -> (r: Result<
        (),
        DomainError,
    >)
        requires
            old(self).wf(),
        ensures
            final(self).wf(),
            r is Ok <==> has_name(old(self).users_view(), name@),
            r matches Err(e) ==> e == DomainError::UserNotFound(*name),
            !has_name(old(self).users_view(), name@) ==> final(self).users_view() == old(
                self,
            ).users_view(),
            has_name(old(self).users_view(), name@) ==> final(self).users_view() == old(
                self,
            ).users_view().update(
                name_index(old(self).users_view(), name@),
                (VpnUserView {
                    latency,
                    ..old(self).users_view()[name_index(old(self).users_view(), name@)]
                }),
            ),
    {
        let ghost cur = self.users.deep_view();
        match find_index_by_name(&self.users, name) {
            Some(i) => {
                let mut u = self.users[i].clone();
                u.update_latency(latency);
                proof {
                    assert(u.deep_view() == (VpnUserView { latency, ..cur[i as int] }));
                }
                self.users.set(i, u);
                proof {
                    let idx = name_index(cur, name@);
                    assert(cur[idx].name == name@);
                    assert(idx == i) by {
                        if idx != i {
                            assert(cur[idx].name == cur[i as int].name);
                        }
                    }
                    assert(self.users.deep_view() =~= cur.update(
                        i as int,
                        (VpnUserView { latency, ..cur[i as int] }),
                    ));
                    assert(unique_names(self.users.deep_view())) by {
                        assert forall|p: int, q: int|
                            0 <= p < q < self.users.deep_view().len() implies self.users.deep_view()[p].name
                            != self.users.deep_view()[q].name by {
                            assert(self.users.deep_view()[p].name == cur[p].name);
                            assert(self.users.deep_view()[q].name == cur[q].name);
                        }
                    }
                }
                Ok(())
            },
            None => Err(DomainError::UserNotFound(name.clone())),
        }
    }
}

} // verus!
