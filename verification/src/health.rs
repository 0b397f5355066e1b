//! The health checker's bookkeeping: how a probe outcome updates one
//! backend record, and how a whole probe round updates the registry.
//!
//! The probing itself (opening a transport connection with a bounded
//! timeout) is network I/O and happens outside; each probe hands back a
//! [`ProbeResult`], and the rules here are total in that result, whatever
//! the network did. A probe failure is routine data, never an error.

use vstd::prelude::*;
use crate::registry::{Backend, Registry};

verus! {

/// The outcome of one probe of one backend: whether the transport
/// connection could be established, and how long the attempt took.
/// Produced per probe, consumed immediately, then discarded.
pub struct ProbeResult {
    pub address: String,
    pub reachable: bool,
    pub latency: u64,
}

/// How the checker paces itself: how often a probe round starts and how
/// long one probe may wait. A round must be able to finish before the
/// next begins, so the timeout stays strictly below the interval.
pub struct CheckSchedule {
    pub interval_ms: u64,
    pub timeout_ms: u64,
}

impl CheckSchedule {
    /// A schedule is well formed when its probe timeout is positive and
    /// strictly shorter than its interval.
    pub open spec fn wf(self) -> bool {
        0 < self.timeout_ms < self.interval_ms
    }

    /// Builds a schedule, refusing a timeout of zero and one that would
    /// reach into the next probe round.
    pub fn new(interval_ms: u64, timeout_ms: u64) -> (r: Option<CheckSchedule>)
        ensures
            r is Some <==> 0 < timeout_ms < interval_ms,
            r matches Some(s) ==> {
                &&& s.interval_ms == interval_ms
                &&& s.timeout_ms == timeout_ms
                &&& s.wf()
            },
    {
        if 0 < timeout_ms && timeout_ms < interval_ms {
            Some(CheckSchedule { interval_ms, timeout_ms })
        } else {
            None
        }
    }
}

/// The failure counter after one probe: a success clears it, a failure
/// increments it (saturating, so a long outage cannot wrap it around).
pub open spec fn next_failures(cf: u64, reachable: bool) -> u64 {
    if reachable {
        0
    } else if cf < u64::MAX {
        (cf + 1) as u64
    } else {
        u64::MAX
    }
}

/// One backend record after one probe at time `now`: the address never
/// changes, the failure counter advances by [`next_failures`], and the
/// backend is healthy exactly while the counter is below the threshold.
/// With a threshold of 1 this is fail-fast: the first failure marks the
/// backend unhealthy, and any success marks it healthy again.
pub open spec fn probe_step(b: Backend, reachable: bool, threshold: u64, now: u64) -> Backend {
    Backend {
        address: b.address,
        healthy: next_failures(b.consecutive_failures, reachable) < threshold,
        consecutive_failures: next_failures(b.consecutive_failures, reachable),
        last_check: now,
    }
}

/// A backend record after a whole sequence of probe outcomes (`true`
/// meaning reachable), all taken at time `now`.
pub open spec fn after_probes(b: Backend, outcomes: Seq<bool>, threshold: u64, now: u64) -> Backend
    decreases outcomes.len(),
{
    if outcomes.len() == 0 {
        b
    } else {
        probe_step(after_probes(b, outcomes.drop_last(), threshold, now), outcomes.last(), threshold, now)
    }
}

/// Applies one probe result to the registry: every backend registered
/// under the probed address takes one [`probe_step`]; every other record
/// is untouched, and the address set never changes.
pub fn apply_probe(reg: &mut Registry, result: &ProbeResult, now: u64)
    ensures
        final(reg).threshold == old(reg).threshold,
        final(reg).backends@.len() == old(reg).backends@.len(),
        forall|i: int| 0 <= i < old(reg).backends@.len() ==> (#[trigger] final(reg).backends@[i])
            == if old(reg).backends@[i].address@ == result.address@ {
            probe_step(old(reg).backends@[i], result.reachable, old(reg).threshold, now)
        } else {
            old(reg).backends@[i]
        },
{
    let mut i: usize = 0;
    while i < reg.backends.len()
        invariant
            i <= reg.backends@.len(),
            reg.threshold == old(reg).threshold,
            reg.backends@.len() == old(reg).backends@.len(),
            forall|j: int| i as int <= j < old(reg).backends@.len() ==> (
            #[trigger] reg.backends@[j]) == old(reg).backends@[j],
            forall|j: int| 0 <= j < i as int ==> (#[trigger] reg.backends@[j]) == if old(
                reg,
            ).backends@[j].address@ == result.address@ {
                probe_step(old(reg).backends@[j], result.reachable, old(reg).threshold, now)
            } else {
                old(reg).backends@[j]
            },
        decreases reg.backends@.len() - i,
    {
        if reg.backends[i].address == result.address {
            let b = probe_step_exec(&reg.backends[i], result.reachable, reg.threshold, now);
            reg.backends[i] = b;
        }
        i = i + 1;
    }
}

/// Applies one probe round to the registry: `outcomes[i]` is the result of
/// probing backend `i`, so every record takes exactly one [`probe_step`].
/// The probes themselves ran independently; this only records what they saw.
pub fn apply_probe_round(reg: &mut Registry, outcomes: &Vec<bool>, now: u64)
    requires
        outcomes@.len() == old(reg).backends@.len(),
    ensures
        final(reg).threshold == old(reg).threshold,
        final(reg).backends@.len() == old(reg).backends@.len(),
        forall|i: int| 0 <= i < old(reg).backends@.len() ==> (#[trigger] final(reg).backends@[i])
            == probe_step(old(reg).backends@[i], outcomes@[i], old(reg).threshold, now),
{
    let mut i: usize = 0;
    while i < reg.backends.len()
        invariant
            i <= reg.backends@.len(),
            outcomes@.len() == old(reg).backends@.len(),
            reg.threshold == old(reg).threshold,
            reg.backends@.len() == old(reg).backends@.len(),
            forall|j: int| i as int <= j < old(reg).backends@.len() ==> (
            #[trigger] reg.backends@[j]) == old(reg).backends@[j],
            forall|j: int| 0 <= j < i as int ==> (#[trigger] reg.backends@[j]) == probe_step(
                old(reg).backends@[j],
                outcomes@[j],
                old(reg).threshold,
                now,
            ),
        decreases reg.backends@.len() - i,
    {
        let b = probe_step_exec(&reg.backends[i], outcomes[i], reg.threshold, now);
        reg.backends[i] = b;
        i = i + 1;
    }
}

/// The executable counterpart of [`probe_step`].
fn probe_step_exec(b: &Backend, reachable: bool, threshold: u64, now: u64) -> (r: Backend)
    ensures
        r == probe_step(*b, reachable, threshold, now),
{
    let cf: u64 = if reachable {
        0
    } else if b.consecutive_failures < u64::MAX {
        b.consecutive_failures + 1
    } else {
        u64::MAX
    };
    Backend { address: b.address.clone(), healthy: cf < threshold, consecutive_failures: cf, last_check: now }
}

/// Under any all-failure history the failure counter is at least the
/// number of probes, up to its saturation point.
proof fn lemma_failures_accumulate(b: Backend, outcomes: Seq<bool>, threshold: u64, now: u64)
    requires
        forall|j: int| 0 <= j < outcomes.len() ==> !outcomes[j],
    ensures
        after_probes(b, outcomes, threshold, now).consecutive_failures >= outcomes.len()
            || after_probes(b, outcomes, threshold, now).consecutive_failures == u64::MAX,
    decreases outcomes.len(),
{
    if outcomes.len() > 0 {
        lemma_failures_accumulate(b, outcomes.drop_last(), threshold, now);
    }
}

/// A backend that fails `m` consecutive probes, for any `m` at or above
/// the registry's threshold, is unhealthy once those probes are recorded:
/// it is marked down no later than `m` probe intervals after the first
/// failure, whatever its state was before.
pub proof fn lemma_consecutive_failures_mark_unhealthy(
    b: Backend,
    outcomes: Seq<bool>,
    threshold: u64,
    now: u64,
)
    requires
        threshold >= 1,
        outcomes.len() >= threshold,
        forall|j: int| 0 <= j < outcomes.len() ==> !outcomes[j],
    ensures
        !after_probes(b, outcomes, threshold, now).healthy,
{
    lemma_failures_accumulate(b, outcomes.drop_last(), threshold, now);
}

/// A backend that then succeeds once is healthy again on that very probe,
/// whatever failure history it carries: flapping recovery is immediate
/// and idempotent.
pub proof fn lemma_success_restores_health(
    b: Backend,
    outcomes: Seq<bool>,
    threshold: u64,
    now: u64,
)
    requires
        threshold >= 1,
    ensures
        after_probes(b, outcomes.push(true), threshold, now).healthy,
        after_probes(b, outcomes.push(true), threshold, now).consecutive_failures == 0,
{
    assert(outcomes.push(true).drop_last() =~= outcomes);
}

} // verus!
