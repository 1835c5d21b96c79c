//! The reconciliation engine.  It owns the connection cache, the peer
//! monitor and the fallback repository, and is the only component that
//! mutates them.  A reconciliation pass diffs a freshly fetched session
//! list against the cached one, stops monitoring for sessions that
//! disappeared, starts it for new ones, and installs the fetch as the
//! new session set.  Talking to the device happens outside: the fetch
//! result, and the device's answer to a termination request, are handed
//! in as values.

use vstd::prelude::*;
use crate::auth::AuthRepository;
use crate::cache::InMemoryCache;
use crate::ipv4::is_ipv4;
use crate::models::{AuthUser, DomainError, LatencyUpdate, VpnUser, VpnUserView};
use crate::monitor::PingMonitor;
use crate::repository::InMemoryVpnUserRepository;
use crate::session_set::{
    clone_sessions, contains_name, dedup_keep_last, has_name, lemma_dedup_has,
    lemma_dedup_of_unique, lemma_remove_name_has, name_index, remove_name, unique_names,
};

verus! {

/// Some session in `s` is named `n` and carries a parseable address.
pub open spec fn valid_session_named(s: Seq<VpnUserView>, n: Seq<char>) -> bool {
    exists|i: int| 0 <= i < s.len() && s[i].name == n && is_ipv4(s[i].address)
}

/// The monitoring-set invariant: the monitored names are exactly the
/// names of the sessions whose address parses.
pub open spec fn monitoring_consistent_with(
    mon: Seq<VpnUserView>,
    sessions: Seq<VpnUserView>,
) -> bool {
    forall|n: Seq<char>|
        #![trigger has_name(mon, n)]
        #![trigger valid_session_named(sessions, n)]
        has_name(mon, n) <==> valid_session_named(sessions, n)
}

/// Between two fetches, a session present in both keeps the validity of
/// its address (it may still change address).
pub open spec fn validity_stable(olds: Seq<VpnUserView>, news: Seq<VpnUserView>) -> bool {
    forall|i: int|
        0 <= i < news.len() && has_name(olds, (#[trigger] news[i]).name) ==> (is_ipv4(
            news[i].address,
        ) <==> is_ipv4(olds[name_index(olds, news[i].name)].address))
}

/// How one reconciliation pass rewrites the monitored set, name by name:
/// a name stays monitored unless its session disappeared from the fetch,
/// and a name foreign to the old session set becomes monitored exactly
/// when the fetch holds a session of that name with a parseable address.
pub open spec fn reconciled_monitoring(
    old_mon: Seq<VpnUserView>,
    old_sess: Seq<VpnUserView>,
    freshv: Seq<VpnUserView>,
    new_mon: Seq<VpnUserView>,
) -> bool {
    forall|n: Seq<char>|
        #![trigger has_name(new_mon, n)]
        has_name(new_mon, n) <==> ((has_name(old_mon, n) && !(has_name(old_sess, n) && !has_name(
            freshv,
            n,
        ))) || (!has_name(old_sess, n) && valid_session_named(freshv, n)))
}

/// The session set one reconciliation pass leaves behind: the fetch
/// itself, with duplicate names collapsed to their last record.  The
/// prior session set has no influence on it.
pub open spec fn reconciled_sessions(
    old_sess: Seq<VpnUserView>,
    freshv: Seq<VpnUserView>,
) -> Seq<VpnUserView> {
    dedup_keep_last(freshv)
}

/// Reconciling one fetch and then another leaves exactly the second
/// fetch's sessions, whatever set the passes started from: nothing of
/// the first fetch, or of the state before it, is merged in.
pub proof fn lemma_second_fetch_wins(
    initial: Seq<VpnUserView>,
    f1: Seq<VpnUserView>,
    f2: Seq<VpnUserView>,
)
    requires
        unique_names(f2),
    ensures
        reconciled_sessions(reconciled_sessions(initial, f1), f2) == f2,
{
    lemma_dedup_of_unique(f2);
}

/// Empty stores satisfy the monitoring-set invariant: nothing is
/// monitored and nothing is cached.
pub proof fn lemma_empty_monitoring_consistent()
    ensures
        monitoring_consistent_with(Seq::<VpnUserView>::empty(), Seq::<VpnUserView>::empty()),
{
    assert forall|n: Seq<char>|
        #![trigger has_name(Seq::<VpnUserView>::empty(), n)]
        #![trigger valid_session_named(Seq::<VpnUserView>::empty(), n)]
        has_name(Seq::<VpnUserView>::empty(), n) <==> valid_session_named(
            Seq::<VpnUserView>::empty(),
            n,
        ) by {
        assert(!has_name(Seq::<VpnUserView>::empty(), n));
        assert(!valid_session_named(Seq::<VpnUserView>::empty(), n));
    }
}

/// Removing a name from a session sequence removes exactly that name
/// from the valid-address names as well.
pub proof fn lemma_remove_name_valid(s: Seq<VpnUserView>, n: Seq<char>, m: Seq<char>)
    ensures
        valid_session_named(remove_name(s, n), m) <==> (valid_session_named(s, m) && m != n),
    decreases s.len(),
{
    reveal(Seq::filter);
    let pred = |u: VpnUserView| u.name != n;
    if s.len() == 0 {
        assert(!valid_session_named(remove_name(s, n), m));
        assert(!valid_session_named(s, m));
    } else {
        let d = s.drop_last();
        lemma_remove_name_valid(d, n, m);
        if pred(s.last()) {
            assert(remove_name(s, n) == remove_name(d, n).push(s.last()));
            if valid_session_named(remove_name(s, n), m) {
                let i = choose|i: int|
                    0 <= i < remove_name(s, n).len() && remove_name(s, n)[i].name == m && is_ipv4(
                        remove_name(s, n)[i].address,
                    );
                if i == remove_name(d, n).len() {
                    assert(s[s.len() - 1].name == m && is_ipv4(s[s.len() - 1].address));
                } else {
                    assert(remove_name(d, n)[i].name == m && is_ipv4(remove_name(d, n)[i].address));
                    let j = choose|j: int|
                        0 <= j < d.len() && d[j].name == m && is_ipv4(d[j].address);
                    assert(s[j].name == m && is_ipv4(s[j].address));
                }
            }
            if valid_session_named(s, m) && m != n {
                let i = choose|i: int| 0 <= i < s.len() && s[i].name == m && is_ipv4(s[i].address);
                if i == s.len() - 1 {
                    let r = remove_name(s, n);
                    assert(r[r.len() - 1].name == m && is_ipv4(r[r.len() - 1].address));
                } else {
                    assert(d[i].name == m && is_ipv4(d[i].address));
                    let j = choose|j: int|
                        0 <= j < remove_name(d, n).len() && remove_name(d, n)[j].name == m
                            && is_ipv4(remove_name(d, n)[j].address);
                    assert(remove_name(s, n)[j].name == m && is_ipv4(remove_name(s, n)[j].address));
                }
            }
        } else {
            assert(remove_name(s, n) == remove_name(d, n));
            assert(s.last().name == n);
            if valid_session_named(s, m) && m != n {
                let i = choose|i: int| 0 <= i < s.len() && s[i].name == m && is_ipv4(s[i].address);
                assert(d[i].name == m && is_ipv4(d[i].address));
            }
            if valid_session_named(d, m) {
                let i = choose|i: int| 0 <= i < d.len() && d[i].name == m && is_ipv4(d[i].address);
                assert(s[i].name == m && is_ipv4(s[i].address));
            }
        }
    }
}

/// The monitoring-set invariant survives a reconciliation pass: if the
/// monitored names matched the valid-address session names before, the
/// fetch is free of duplicate names, and no session present in both the
/// old set and the fetch changed the validity of its address, then after
/// the rewrite described by [`reconciled_monitoring`] the monitored
/// names match the valid-address names of the installed session set.
pub proof fn lemma_reconcile_keeps_monitoring_consistent(
    old_mon: Seq<VpnUserView>,
    old_sess: Seq<VpnUserView>,
    freshv: Seq<VpnUserView>,
    new_mon: Seq<VpnUserView>,
)
    requires
        unique_names(old_sess),
        unique_names(freshv),
        monitoring_consistent_with(old_mon, old_sess),
        validity_stable(old_sess, freshv),
        reconciled_monitoring(old_mon, old_sess, freshv, new_mon),
    ensures
        monitoring_consistent_with(new_mon, dedup_keep_last(freshv)),
{
    lemma_dedup_of_unique(freshv);
    assert forall|n: Seq<char>|
        #![trigger has_name(new_mon, n)]
        #![trigger valid_session_named(freshv, n)]
        has_name(new_mon, n) <==> valid_session_named(freshv, n) by {
        if has_name(old_sess, n) {
            let oi = choose|i: int| 0 <= i < old_sess.len() && old_sess[i].name == n;
            let idx = name_index(old_sess, n);
            assert(old_sess[idx].name == n);
            if has_name(freshv, n) {
                let fi = choose|i: int| 0 <= i < freshv.len() && freshv[i].name == n;
                assert(has_name(old_sess, freshv[fi].name));
                assert(is_ipv4(freshv[fi].address) <==> is_ipv4(old_sess[idx].address));
                // the old record is valid exactly when some old session
                // named n is valid, names being unique
                assert(valid_session_named(old_sess, n) <==> is_ipv4(old_sess[idx].address)) by {
                    if valid_session_named(old_sess, n) {
                        let vi = choose|i: int|
                            0 <= i < old_sess.len() && old_sess[i].name == n && is_ipv4(
                                old_sess[i].address,
                            );
                        if vi != idx {
                            assert(old_sess[vi].name == old_sess[idx].name);
                        }
                    }
                }
                assert(valid_session_named(freshv, n) <==> is_ipv4(freshv[fi].address)) by {
                    if valid_session_named(freshv, n) {
                        let vi = choose|i: int|
                            0 <= i < freshv.len() && freshv[i].name == n && is_ipv4(
                                freshv[i].address,
                            );
                        if vi != fi {
                            assert(freshv[vi].name == freshv[fi].name);
                        }
                    }
                }
            } else {
                assert(!valid_session_named(freshv, n)) by {
                    if valid_session_named(freshv, n) {
                        let vi = choose|i: int|
                            0 <= i < freshv.len() && freshv[i].name == n && is_ipv4(
                                freshv[i].address,
                            );
                        assert(has_name(freshv, n));
                    }
                }
            }
        } else {
            assert(!valid_session_named(old_sess, n)) by {
                if valid_session_named(old_sess, n) {
                    let vi = choose|i: int|
                        0 <= i < old_sess.len() && old_sess[i].name == n && is_ipv4(
                            old_sess[i].address,
                        );
                    assert(has_name(old_sess, n));
                }
            }
        }
    }
}

/// The orchestrator: owns the cache, the monitor and the repository.
pub struct VpnUserUseCase {
    cache: InMemoryCache,
    monitor: PingMonitor,
    repository: InMemoryVpnUserRepository,
}

impl VpnUserUseCase {
    /// The cached session set.
    pub closed spec fn sessions(&self) -> Seq<VpnUserView> {
        self.cache.users_view()
    }

    /// The monitored peers.
    pub closed spec fn monitored(&self) -> Seq<VpnUserView> {
        self.monitor.monitored_view()
    }

    /// The fallback repository's contents.
    pub closed spec fn repo_view(&self) -> Seq<VpnUserView> {
        self.repository.users_view()
    }

    pub open spec fn wf(&self) -> bool {
        &&& unique_names(self.sessions())
        &&& unique_names(self.monitored())
        &&& unique_names(self.repo_view())
        &&& forall|i: int|
            0 <= i < self.monitored().len() ==> is_ipv4(#[trigger] self.monitored()[i].address)
    }

    /// The monitoring-set invariant, tied to this engine's own stores.
    pub open spec fn monitoring_consistent(&self) -> bool {
        monitoring_consistent_with(self.monitored(), self.sessions())
    }

    pub fn new(
        cache: InMemoryCache,
        monitor: PingMonitor,
        repository: InMemoryVpnUserRepository,
    ) -> (r: Self)
        requires
            cache.wf(),
            monitor.wf(),
            repository.wf(),
        ensures
            r.wf(),
            r.sessions() == cache.users_view(),
            r.monitored() == monitor.monitored_view(),
            r.repo_view() == repository.users_view(),
    {
        Self { cache, monitor, repository }
    }

    /// The session snapshot for on-demand reads: the cache when it holds
    /// anything, the repository otherwise.  A read never fails and never
    /// triggers a fetch.
    pub fn get_all_users(&self) -> (r: Result<Vec<VpnUser>, DomainError>)
        requires
            self.wf(),
        ensures
            r is Ok,
            self.sessions().len() > 0 ==> (r matches Ok(v) && v.deep_view() == self.sessions()),
            self.sessions().len() == 0 ==> (r matches Ok(v) && v.deep_view() == self.repo_view()),
    {
        match self.cache.get_vpn_users() {
            Some(users) => Ok(users),
            None => self.repository.find_all(),
        }
    }

    /// The stored session named `name`, from the repository.
    pub fn get_user_by_name(&self, name: &String) -> (r: Result<Option<VpnUser>, DomainError>)
        requires
            self.wf(),
        ensures
            r is Ok,
            r matches Ok(o) ==> (o is Some <==> has_name(self.repo_view(), name@)),
    {
        self.repository.find_by_name(name)
    }

    /// Folds one latency measurement into the cache.  A name that is no
    /// longer cached leaves every store untouched: a probe result racing
    /// against removal is expected and tolerated.
    pub fn update_user_latency(&mut self, update: &LatencyUpdate) -> (r: Result<(), DomainError>)
        requires
            old(self).wf(),
        ensures
            r is Ok,
            final(self).wf(),
            final(self).monitored() == old(self).monitored(),
            final(self).repo_view() == old(self).repo_view(),
            !has_name(old(self).sessions(), update.user_name@) ==> final(self).sessions() == old(
                self,
            ).sessions(),
            has_name(old(self).sessions(), update.user_name@) ==> final(self).sessions() == old(
                self,
            ).sessions().update(
                name_index(old(self).sessions(), update.user_name@),
                (VpnUserView {
                    latency: update.latency,
                    ..old(self).sessions()[name_index(old(self).sessions(), update.user_name@)]
                }),
            ),
            old(self).monitoring_consistent() ==> final(self).monitoring_consistent(),
    {
        let ghost sess0 = self.cache.users_view();
        self.cache.set_user_latency(&update.user_name, update.latency);
        proof {
            let sess1 = self.cache.users_view();
            assert forall|n: Seq<char>|
                #![trigger valid_session_named(sess1, n)]
                #![trigger valid_session_named(sess0, n)]
                valid_session_named(sess1, n) <==> valid_session_named(sess0, n) by {
                assert(sess1.len() == sess0.len());
                assert forall|i: int| 0 <= i < sess1.len() implies sess1[i].name == sess0[i].name
                    && sess1[i].address == sess0[i].address by {}
                if valid_session_named(sess1, n) {
                    let i = choose|i: int|
                        0 <= i < sess1.len() && sess1[i].name == n && is_ipv4(sess1[i].address);
                    assert(sess0[i].name == n && is_ipv4(sess0[i].address));
                }
                if valid_session_named(sess0, n) {
                    let i = choose|i: int|
                        0 <= i < sess0.len() && sess0[i].name == n && is_ipv4(sess0[i].address);
                    assert(sess1[i].name == n && is_ipv4(sess1[i].address));
                }
            }
        }
        Ok(())
    }

    /// Terminates a session.  The device has already been asked; its
    /// answer is `gateway_result`.  Success removes the session from the
    /// cache and stops its monitoring at once, without waiting for the
    /// next reconciliation pass; any device-side failure is handed back
    /// unchanged and leaves every store as it was.
    pub fn disconnect_user(
        &mut self,
        user_name: &String,
        gateway_result: Result<(), DomainError>,
    ) -> (r: Result<(), DomainError>)
        requires
            old(self).wf(),
        ensures
            final(self).wf(),
            final(self).repo_view() == old(self).repo_view(),
            r is Ok <==> gateway_result is Ok,
            gateway_result matches Err(e) ==> (r matches Err(e2) && e2 == e && final(self).sessions()
                == old(self).sessions() && final(self).monitored() == old(self).monitored()),
            gateway_result is Ok ==> (final(self).sessions() == remove_name(
                old(self).sessions(),
                user_name@,
            ) && final(self).monitored() == remove_name(old(self).monitored(), user_name@)
                && !has_name(final(self).sessions(), user_name@)),
            old(self).monitoring_consistent() ==> final(self).monitoring_consistent(),
    {
        match gateway_result {
            Err(e) => Err(e),
            Ok(()) => {
                let stop_result = self.monitor.stop_monitoring(user_name);
                proof {
                    assert(stop_result is Ok);
                }
                self.cache.clear_user(user_name);
                proof {
                    lemma_remove_name_has(old(self).sessions(), user_name@, user_name@);
                    if old(self).monitoring_consistent() {
                        let mon0 = old(self).monitored();
                        let sess0 = old(self).sessions();
                        assert forall|n: Seq<char>|
                            #![trigger has_name(self.monitored(), n)]
                            #![trigger valid_session_named(self.sessions(), n)]
                            has_name(self.monitored(), n) <==> valid_session_named(
                                self.sessions(),
                                n,
                            ) by {
                            lemma_remove_name_has(mon0, user_name@, n);
                            lemma_remove_name_valid(sess0, user_name@, n);
                        }
                    }
                }
                Ok(())
            },
        }
    }

    /// The diff step of a reconciliation pass: stops monitoring (and
    /// drops from the cache) every session absent from the fetch, and
    /// starts monitoring every newly fetched session whose address
    /// parses; an address that does not parse is skipped, not an error.
    fn process_user_changes(&mut self, old_users: &Vec<VpnUser>, new_users: &Vec<VpnUser>)
        requires
            old(self).wf(),
        ensures
            final(self).wf(),
            final(self).repo_view() == old(self).repo_view(),
            final(self).monitor_interval() == old(self).monitor_interval(),
            reconciled_monitoring(
                old(self).monitored(),
                old_users.deep_view(),
                new_users.deep_view(),
                final(self).monitored(),
            ),
    {
        let ghost mon0 = self.monitor.monitored_view();
        let ghost repo0 = self.repository;
        let ghost old_dv = old_users.deep_view();
        let ghost new_dv = new_users.deep_view();
        let mut k: usize = 0;
        while k < old_users.len()
            invariant
                k <= old_users.len(),
                old_dv == old_users.deep_view(),
                new_dv == new_users.deep_view(),
                old_dv.len() == old_users.len(),
                self.cache.wf(),
                self.monitor.wf(),
                self.repository == repo0,
                self.monitor.interval_view() == old(self).monitor_interval(),
                forall|n: Seq<char>|
                    #![trigger has_name(self.monitor.monitored_view(), n)]
                    has_name(self.monitor.monitored_view(), n) <==> (has_name(mon0, n) && !(
                    has_name(old_dv.take(k as int), n) && !has_name(new_dv, n))),
            decreases old_users.len() - k,
        {
            let ghost mon_pre = self.monitor.monitored_view();
            let ghost nm = old_dv[k as int].name;
            proof {
                assert(old_users.deep_view()[k as int] == old_users@[k as int].deep_view());
            }
            let in_new = contains_name(new_users, &old_users[k].name);
            if !in_new {
                let stop_result = self.monitor.stop_monitoring(&old_users[k].name);
                self.cache.clear_user(&old_users[k].name);
                proof {
                    assert(self.monitor.monitored_view() == remove_name(mon_pre, nm));
                    assert forall|n: Seq<char>|
                        #![trigger has_name(self.monitor.monitored_view(), n)]
                        has_name(self.monitor.monitored_view(), n) <==> (has_name(mon0, n) && !(
                        has_name(old_dv.take(k + 1), n) && !has_name(new_dv, n))) by {
                        lemma_remove_name_has(mon_pre, nm, n);
                        assert(old_dv.take(k + 1)[k as int].name == nm);
                        if n != nm {
                            assert(has_name(old_dv.take(k + 1), n) == has_name(
                                old_dv.take(k as int),
                                n,
                            )) by {
                                if has_name(old_dv.take(k + 1), n) {
                                    let p = choose|p: int|
                                        0 <= p < old_dv.take(k + 1).len() && (#[trigger] old_dv.take(
                                            k + 1,
                                        )[p]).name == n;
                                    assert(p != k);
                                    assert(old_dv.take(k as int)[p].name == n);
                                }
                                if has_name(old_dv.take(k as int), n) {
                                    let p = choose|p: int|
                                        0 <= p < old_dv.take(k as int).len() && (#[trigger] old_dv.take(
                                            k as int,
                                        )[p]).name == n;
                                    assert(old_dv.take(k + 1)[p].name == n);
                                }
                            }
                        }
                    }
                }
            } else {
                proof {
                    assert(has_name(new_dv, nm));
                    assert forall|n: Seq<char>|
                        #![trigger has_name(self.monitor.monitored_view(), n)]
                        has_name(self.monitor.monitored_view(), n) <==> (has_name(mon0, n) && !(
                        has_name(old_dv.take(k + 1), n) && !has_name(new_dv, n))) by {
                        assert(old_dv.take(k + 1)[k as int].name == nm);
                        if n != nm {
                            assert(has_name(old_dv.take(k + 1), n) == has_name(
                                old_dv.take(k as int),
                                n,
                            )) by {
                                if has_name(old_dv.take(k + 1), n) {
                                    let p = choose|p: int|
                                        0 <= p < old_dv.take(k + 1).len() && (#[trigger] old_dv.take(
                                            k + 1,
                                        )[p]).name == n;
                                    assert(p != k);
                                    assert(old_dv.take(k as int)[p].name == n);
                                }
                                if has_name(old_dv.take(k as int), n) {
                                    let p = choose|p: int|
                                        0 <= p < old_dv.take(k as int).len() && (#[trigger] old_dv.take(
                                            k as int,
                                        )[p]).name == n;
                                    assert(old_dv.take(k + 1)[p].name == n);
                                }
                            }
                        }
                    }
                }
            }
            k = k + 1;
        }
        proof {
            assert(old_dv.take(old_users.len() as int) =~= old_dv);
        }
        let ghost mon1 = self.monitor.monitored_view();
        let mut k2: usize = 0;
        while k2 < new_users.len()
            invariant
                k2 <= new_users.len(),
                old_dv == old_users.deep_view(),
                new_dv == new_users.deep_view(),
                new_dv.len() == new_users.len(),
                self.cache.wf(),
                self.monitor.wf(),
                self.repository == repo0,
                self.monitor.interval_view() == old(self).monitor_interval(),
                forall|n: Seq<char>|
                    #![trigger has_name(self.monitor.monitored_view(), n)]
                    has_name(self.monitor.monitored_view(), n) <==> (has_name(mon1, n) || (
                    !has_name(old_dv, n) && exists|p: int|
                        0 <= p < k2 && (#[trigger] new_dv[p]).name == n && is_ipv4(
                            new_dv[p].address,
                        ))),
            decreases new_users.len() - k2,
        {
            let ghost mon_pre = self.monitor.monitored_view();
            let ghost nm = new_dv[k2 as int].name;
            proof {
                assert(new_users.deep_view()[k2 as int] == new_users@[k2 as int].deep_view());
            }
            let in_old = contains_name(old_users, &new_users[k2].name);
            if !in_old {
                let start_result = self.monitor.start_monitoring(&new_users[k2]);
                proof {
                    let monv = self.monitor.monitored_view();
                    if is_ipv4(new_dv[k2 as int].address) {
                        assert(monv == remove_name(mon_pre, nm).push(new_dv[k2 as int]));
                        assert forall|n: Seq<char>|
                            #![trigger has_name(monv, n)]
                            has_name(monv, n) <==> (has_name(mon1, n) || (!has_name(old_dv, n)
                                && exists|p: int|
                                0 <= p < k2 + 1 && (#[trigger] new_dv[p]).name == n && is_ipv4(
                                    new_dv[p].address,
                                ))) by {
                            lemma_remove_name_has(mon_pre, nm, n);
                            if n == nm {
                                assert(monv[monv.len() - 1].name == n);
                                assert(new_dv[k2 as int].name == n && is_ipv4(
                                    new_dv[k2 as int].address,
                                ));
                            } else {
                                assert(has_name(monv, n) == has_name(
                                    remove_name(mon_pre, nm),
                                    n,
                                )) by {
                                    if has_name(monv, n) {
                                        let p = choose|p: int|
                                            0 <= p < monv.len() && monv[p].name == n;
                                        assert(p != monv.len() - 1);
                                        assert(remove_name(mon_pre, nm)[p].name == n);
                                    }
                                    if has_name(remove_name(mon_pre, nm), n) {
                                        let p = choose|p: int|
                                            0 <= p < remove_name(mon_pre, nm).len() && remove_name(
                                                mon_pre,
                                                nm,
                                            )[p].name == n;
                                        assert(monv[p].name == n);
                                    }
                                }
                            }
                        }
                    } else {
                        assert(monv == mon_pre);
                        assert forall|n: Seq<char>|
                            #![trigger has_name(monv, n)]
                            has_name(monv, n) <==> (has_name(mon1, n) || (!has_name(old_dv, n)
                                && exists|p: int|
                                0 <= p < k2 + 1 && (#[trigger] new_dv[p]).name == n && is_ipv4(
                                    new_dv[p].address,
                                ))) by {}
                    }
                }
            } else {
                proof {
                    let monv = self.monitor.monitored_view();
                    assert(has_name(old_dv, nm));
                    assert forall|n: Seq<char>|
                        #![trigger has_name(monv, n)]
                        has_name(monv, n) <==> (has_name(mon1, n) || (!has_name(old_dv, n)
                            && exists|p: int|
                            0 <= p < k2 + 1 && (#[trigger] new_dv[p]).name == n && is_ipv4(
                                new_dv[p].address,
                            ))) by {}
                }
            }
            k2 = k2 + 1;
        }
        proof {
            let monf = self.monitor.monitored_view();
            assert forall|n: Seq<char>|
                #![trigger has_name(monf, n)]
                has_name(monf, n) <==> ((has_name(mon0, n) && !(has_name(old_dv, n) && !has_name(
                    new_dv,
                    n,
                ))) || (!has_name(old_dv, n) && valid_session_named(new_dv, n))) by {}
        }
    }

    /// The monitor's probe period, carried unchanged through every pass.
    pub closed spec fn monitor_interval(&self) -> u64 {
        self.monitor.interval_view()
    }

    /// One reconciliation pass over an already fetched session list:
    /// diffs it against the cached set, adjusts monitoring, installs the
    /// fetch as the new session set, and hands the list back for
    /// publishing.  A failed fetch never reaches this point, so a pass
    /// that runs leaves no store half-updated.
    pub fn reconcile(&mut self, fresh_users: Vec<VpnUser>) -> (published: Vec<VpnUser>)
        requires
            old(self).wf(),
        ensures
            final(self).wf(),
            published.deep_view() == fresh_users.deep_view(),
            final(self).sessions() == reconciled_sessions(
                old(self).sessions(),
                fresh_users.deep_view(),
            ),
            forall|n: Seq<char>|
                #![trigger has_name(final(self).sessions(), n)]
                has_name(final(self).sessions(), n) <==> has_name(fresh_users.deep_view(), n),
            unique_names(fresh_users.deep_view()) ==> final(self).sessions()
                == fresh_users.deep_view(),
            final(self).repo_view() == old(self).repo_view(),
            final(self).monitor_interval() == old(self).monitor_interval(),
            reconciled_monitoring(
                old(self).monitored(),
                old(self).sessions(),
                fresh_users.deep_view(),
                final(self).monitored(),
            ),
            (old(self).monitoring_consistent() && unique_names(fresh_users.deep_view())
                && validity_stable(old(self).sessions(), fresh_users.deep_view()))
                ==> final(self).monitoring_consistent(),
    {
        let ghost sess0 = self.cache.users_view();
        let old_users: Vec<VpnUser> = match self.cache.get_vpn_users() {
            Some(v) => v,
            None => Vec::new(),
        };
        proof {
            if sess0.len() == 0 {
                assert(old_users.deep_view() =~= sess0);
            }
            assert(old_users.deep_view() == sess0);
        }
        self.process_user_changes(&old_users, &fresh_users);
        let installed = clone_sessions(&fresh_users);
        self.cache.set_vpn_users(installed);
        proof {
            assert forall|n: Seq<char>|
                #![trigger has_name(self.cache.users_view(), n)]
                has_name(self.cache.users_view(), n) <==> has_name(
                    fresh_users.deep_view(),
                    n,
                ) by {
                lemma_dedup_has(fresh_users.deep_view(), n);
            }
            if old(self).monitoring_consistent() && unique_names(fresh_users.deep_view())
                && validity_stable(sess0, fresh_users.deep_view()) {
                lemma_reconcile_keeps_monitoring_consistent(
                    old(self).monitored(),
                    sess0,
                    fresh_users.deep_view(),
                    self.monitor.monitored_view(),
                );
            }
        }
        fresh_users
    }

    /// A snapshot of the monitored peers, for one probe cycle.
    pub fn monitored_snapshot(&self) -> (r: Vec<VpnUser>)
        ensures
            r.deep_view() == self.monitored(),
    {
        self.monitor.monitored_snapshot()
    }
}

/// The login flow: checks credentials against whatever repository backs
/// it.
pub struct AuthUseCase<R: AuthRepository> {
    auth_repository: R,
}

impl<R: AuthRepository> AuthUseCase<R> {
    /// The repository this use case consults.
    pub closed spec fn repository(&self) -> R {
        self.auth_repository
    }

    pub fn new(auth_repository: R) -> (r: Self)
        ensures
            r.repository() == auth_repository,
    {
        Self { auth_repository }
    }

    /// Checks the pair against the repository and hands its verdict
    /// through unchanged.
    pub fn authenticate(&self, username: &str, password: &str) -> (r: Result<
        AuthUser,
        DomainError,
    >)
        ensures
            r matches Ok(us) ==> self.repository().accepts(username@, password@) && us.username@
                == username@ && us.is_authenticated,
            r matches Err(e) ==> !self.repository().accepts(username@, password@) && e
                == DomainError::AuthenticationFailed,
    {
        self.auth_repository.authenticate(username, password)
    }

    /// Looks a username up without checking a password.
    pub fn get_user_by_username(&self, username: &str) -> (r: Result<Option<AuthUser>, DomainError>)
        ensures
            r is Ok,
            r matches Ok(o) ==> (o is Some <==> self.repository().knows(username@)),
    {
        self.auth_repository.find_by_username(username)
    }
}

} // verus!
