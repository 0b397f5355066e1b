//! The backend registry: the ordered, fixed set of upstream addresses
//! together with each one's health state.
//!
//! The registry is the single piece of state shared between the health
//! checker (its only writer) and the request path (its readers). The set of
//! addresses never changes after construction; only the health fields of
//! each record do.

use vstd::prelude::*;

verus! {

/// One upstream server: its address (`host:port`, the backend's identity),
/// whether it is currently considered healthy, how many probes in a row
/// have failed, and when it was last probed.
pub struct Backend {
    pub address: String,
    pub healthy: bool,
    pub consecutive_failures: u64,
    pub last_check: u64,
}

impl Clone for Backend {
    fn clone(&self) -> (r: Self)
        ensures
            r == *self,
    {
        Backend {
            address: self.address.clone(),
            healthy: self.healthy,
            consecutive_failures: self.consecutive_failures,
            last_check: self.last_check,
        }
    }
}

/// The ordered collection of backends, plus the failure threshold the
/// health checker applies: a backend is unhealthy exactly while it has
/// accumulated at least `threshold` consecutive probe failures.
pub struct Registry {
    pub backends: Vec<Backend>,
    pub threshold: u64,
}

impl Registry {
    /// A registry is well formed when its threshold is positive: with a
    /// threshold of 0 no probe outcome could ever mark a backend healthy.
    pub open spec fn wf(self) -> bool {
        self.threshold >= 1
    }

    /// The healthy backends, in registry order.
    pub open spec fn healthy_seq(self) -> Seq<Backend> {
        self.backends@.filter(|b: Backend| b.healthy)
    }

    /// Builds the registry from the static address list. Every backend
    /// starts healthy with a clean failure count.
    pub fn new(addresses: Vec<String>, threshold: u64) -> (r: Registry)
        requires
            threshold >= 1,
        ensures
            r.wf(),
            r.threshold == threshold,
            r.backends@.len() == addresses@.len(),
            forall|i: int| 0 <= i < addresses@.len() ==> {
                &&& (#[trigger] r.backends@[i]).address == addresses@[i]
                &&& r.backends@[i].healthy == true
                &&& r.backends@[i].consecutive_failures == 0
                &&& r.backends@[i].last_check == 0
            },
    {
        let mut backends: Vec<Backend> = Vec::new();
        let mut i: usize = 0;
        while i < addresses.len()
            invariant
                i <= addresses@.len(),
                backends@.len() == i,
                forall|j: int| 0 <= j < i as int ==> {
                    &&& (#[trigger] backends@[j]).address == addresses@[j]
                    &&& backends@[j].healthy == true
                    &&& backends@[j].consecutive_failures == 0
                    &&& backends@[j].last_check == 0
                },
            decreases addresses@.len() - i,
        {
            backends.push(Backend {
                address: addresses[i].clone(),
                healthy: true,
                consecutive_failures: 0,
                last_check: 0,
            });
            i = i + 1;
        }
        Registry { backends, threshold }
    }

    /// Number of registered backends (healthy or not).
    pub fn len(&self) -> (r: usize)
        ensures
            r == self.backends@.len(),
    {
        self.backends.len()
    }

    /// A snapshot of the healthy backends, in registry order. An empty
    /// result is the caller's signal that no backend is available; it is
    /// not an error of the registry itself.
    pub fn list_healthy(&self) -> (r: Vec<Backend>)
        ensures
            r@ == self.healthy_seq(),
    {
        let mut out: Vec<Backend> = Vec::new();
        let mut i: usize = 0;
        proof {
            assert(self.backends@.subrange(0, 0).filter(|b: Backend| b.healthy) =~= Seq::<
                Backend,
            >::empty()) by {
                reveal(Seq::filter);
            }
        }
        while i < self.backends.len()
            invariant
                i <= self.backends@.len(),
                out@ == self.backends@.subrange(0, i as int).filter(|b: Backend| b.healthy),
            decreases self.backends@.len() - i,
        {
            let ghost prefix = self.backends@.subrange(0, i as int);
            let ghost next_prefix = self.backends@.subrange(0, i as int + 1);
            if self.backends[i].healthy {
                out.push(self.backends[i].clone());
            }
            proof {
                assert(next_prefix.drop_last() =~= prefix);
                assert(next_prefix.last() == self.backends@[i as int]);
                reveal(Seq::filter);
            }
            i = i + 1;
        }
        proof {
            assert(self.backends@.subrange(0, self.backends@.len() as int) =~= self.backends@);
        }
        out
    }

    /// Sets the health flag of every backend registered under `address`,
    /// leaving all other fields and all other backends untouched. Applying
    /// the same mark twice is the same as applying it once.
    pub fn mark(&mut self, address: &String, healthy: bool)
        ensures
            final(self).threshold == old(self).threshold,
            final(self).backends@.len() == old(self).backends@.len(),
            forall|i: int| 0 <= i < old(self).backends@.len() ==> {
                &&& (#[trigger] final(self).backends@[i]).address == old(self).backends@[i].address
                &&& final(self).backends@[i].consecutive_failures == old(
                    self,
                ).backends@[i].consecutive_failures
                &&& final(self).backends@[i].last_check == old(self).backends@[i].last_check
                &&& final(self).backends@[i].healthy == if old(self).backends@[i].address@
                    == address@ {
                    healthy
                } else {
                    old(self).backends@[i].healthy
                }
            },
    {
        let mut i: usize = 0;
        while i < self.backends.len()
            invariant
                i <= self.backends@.len(),
                self.threshold == old(self).threshold,
                self.backends@.len() == old(self).backends@.len(),
                forall|j: int| i as int <= j < old(self).backends@.len() ==> (
                #[trigger] self.backends@[j]) == old(self).backends@[j],
                forall|j: int| 0 <= j < i as int ==> {
                    &&& (#[trigger] self.backends@[j]).address == old(self).backends@[j].address
                    &&& self.backends@[j].consecutive_failures == old(
                        self,
                    ).backends@[j].consecutive_failures
                    &&& self.backends@[j].last_check == old(self).backends@[j].last_check
                    &&& self.backends@[j].healthy == if old(self).backends@[j].address@
                        == address@ {
                        healthy
                    } else {
                        old(self).backends@[j].healthy
                    }
                },
            decreases self.backends@.len() - i,
        {
            if self.backends[i].address == *address {
                let mut b = self.backends[i].clone();
                b.healthy = healthy;
                self.backends[i] = b;
            }
            i = i + 1;
        }
    }
}

} // verus!
