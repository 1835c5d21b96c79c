//! The peer monitor: the registry of exactly those peers that are being
//! probed for latency.  A peer enters the registry only with a parseable
//! address, leaves it when its session disappears, and the probe cycle
//! works off snapshots of the registry.

use vstd::prelude::*;
use crate::ipv4::is_ipv4;
use crate::models::{DomainError, VpnUser, VpnUserView};
use crate::session_set::{
    clone_sessions, find_index_by_name, has_name, lemma_remove_name_id, lemma_remove_name_split,
    lemma_remove_name_unique, remove_name, unique_names,
};

verus! {

/// One probe measurement, clamped from microseconds into the stored
/// range.
pub fn latency_from_micros(micros: u128) -> (r: u64)
    ensures
        micros <= u64::MAX ==> r == micros,
        micros > u64::MAX ==> r == u64::MAX,
{
    if micros > u64::MAX as u128 {
        u64::MAX
    } else {
        micros as u64
    }
}

/// The registry of peers under latency monitoring, plus the fixed probe
/// period.
pub struct PingMonitor {
    monitored_users: Vec<VpnUser>,
    ping_interval_seconds: u64,
}

impl PingMonitor {
    /// The monitored peers, in registry order.
    pub closed spec fn monitored_view(&self) -> Seq<VpnUserView> {
        self.monitored_users.deep_view()
    }

    /// The probe period in seconds.
    pub closed spec fn interval_view(&self) -> u64 {
        self.ping_interval_seconds
    }

    /// No duplicate names, and every monitored peer has a parseable
    /// address.
    pub open spec fn wf(&self) -> bool {
        &&& unique_names(self.monitored_view())
        &&& forall|i: int|
            0 <= i < self.monitored_view().len() ==> is_ipv4(
                #[trigger] self.monitored_view()[i].address,
            )
    }

    pub fn new(ping_interval_seconds: u64) -> (r: Self)
        ensures
            r.monitored_view() == Seq::<VpnUserView>::empty(),
            r.interval_view() == ping_interval_seconds,
            r.wf(),
    {
        let r = Self { monitored_users: Vec::new(), ping_interval_seconds };
        proof {
            assert(r.monitored_users.deep_view() =~= Seq::<VpnUserView>::empty());
        }
        r
    }

    pub fn ping_interval_seconds(&self) -> (r: u64)
        ensures
            r == self.interval_view(),
    {
        self.ping_interval_seconds
    }

    /// Starts (or refreshes) monitoring of `user`.  An address that does
    /// not parse is refused and changes nothing; otherwise any previous
    /// entry of the same name is replaced.
    pub fn start_monitoring(&mut self, user: &VpnUser) -> (r: Result<(), DomainError>)
        requires
            old(self).wf(),
        ensures
            final(self).wf(),
            final(self).interval_view() == old(self).interval_view(),
            !is_ipv4(user@.address) ==> (r matches Err(e) && e == DomainError::InvalidIpAddress(
                user.address,
            ) && final(self).monitored_view() == old(self).monitored_view()),
            is_ipv4(user@.address) ==> r is Ok && final(self).monitored_view() == remove_name(
                old(self).monitored_view(),
                user@.name,
            ).push(user.deep_view()),
    {
        if user.get_ip_address().is_none() {
            return Err(DomainError::InvalidIpAddress(user.address.clone()));
        }
        let ghost cur = self.monitored_users.deep_view();
        match find_index_by_name(&self.monitored_users, &user.name) {
            Some(i) => {
                proof {
                    lemma_remove_name_split(cur, user@.name, i as int);
                }
                self.monitored_users.remove(i);
                proof {
                    assert(self.monitored_users.deep_view() =~= cur.subrange(0, i as int)
                        + cur.subrange(i + 1, cur.len() as int));
                }
            },
            None => {
                proof {
                    lemma_remove_name_id(cur, user@.name);
                }
            },
        }
        proof {
            assert(self.monitored_users.deep_view() == remove_name(cur, user@.name));
            lemma_remove_name_unique(cur, user@.name);
        }
        let ghost removed = self.monitored_users.deep_view();
        let u = user.clone();
        proof {
            assert(u.deep_view() == user.deep_view());
        }
        self.monitored_users.push(u);
        proof {
            let dv = self.monitored_users.deep_view();
            assert(dv =~= removed.push(user.deep_view()));
            assert forall|p: int, q: int| 0 <= p < q < dv.len() implies dv[p].name != dv[q].name by {
                if q == dv.len() - 1 {
                    crate::session_set::lemma_remove_name_has(cur, user@.name, removed[p].name);
                    assert(removed[p].name != user@.name) by {
                        if removed[p].name == user@.name {
                            assert(has_name(removed, user@.name));
                        }
                    }
                }
            }
            assert forall|p: int| 0 <= p < dv.len() implies is_ipv4(dv[p].address) by {
            }
        }
        Ok(())
    }

    /// Stops monitoring the named peer.  A name that was never monitored
    /// is not an error and leaves the registry untouched.
    pub fn stop_monitoring(&mut self, user_name: &String) -> (r: Result<(), DomainError>)
        requires
            old(self).wf(),
        ensures
            final(self).wf(),
            final(self).interval_view() == old(self).interval_view(),
            r is Ok,
            final(self).monitored_view() == remove_name(old(self).monitored_view(), user_name@),
            !has_name(old(self).monitored_view(), user_name@) ==> final(self).monitored_view()
                == old(self).monitored_view(),
    {
        let ghost cur = self.monitored_users.deep_view();
        match find_index_by_name(&self.monitored_users, user_name) {
            Some(i) => {
                proof {
                    lemma_remove_name_split(cur, user_name@, i as int);
                }
                self.monitored_users.remove(i);
                proof {
                    assert(self.monitored_users.deep_view() =~= cur.subrange(0, i as int)
                        + cur.subrange(i + 1, cur.len() as int));
                    lemma_remove_name_unique(cur, user_name@);
                }
            },
            None => {
                proof {
                    lemma_remove_name_id(cur, user_name@);
                }
            },
        }
        Ok(())
    }

    /// A snapshot of the monitored peers, for one probe cycle.
    pub fn monitored_snapshot(&self) -> (r: Vec<VpnUser>)
        ensures
            r.deep_view() == self.monitored_view(),
    {
        clone_sessions(&self.monitored_users)
    }
}

} // verus!
