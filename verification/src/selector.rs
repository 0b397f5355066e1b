//! The selector: given the current healthy snapshot and a selection key,
//! deterministically pick one backend.
//!
//! The default algorithm is round-robin: a shared monotonically advancing
//! counter indexes the healthy snapshot as `counter mod length`. The
//! selection key is accepted (so a keyed algorithm such as consistent
//! hashing can be substituted behind the same contract) but round-robin
//! ignores it. An empty healthy snapshot yields no backend, never an error.

use vstd::prelude::*;
use vstd::arithmetic::div_mod::{
    lemma_basic_div, lemma_div_plus_one, lemma_fundamental_div_mod,
    lemma_fundamental_div_mod_converse_mod, lemma_mod_division_less_than_divisor,
    lemma_mod_sub_multiples_vanish, lemma_small_mod,
};
use crate::registry::Backend;

verus! {

/// The index round-robin picks when the counter stands at `c` and the
/// healthy snapshot holds `k` backends.
pub open spec fn rr_index(c: nat, k: nat) -> nat
    recommends
        k >= 1,
{
    c % k
}

/// How many of the `n` selections made with counter values
/// `c, c + 1, ..., c + n - 1` pick index `i` of a stable healthy snapshot
/// of `k` backends.
pub open spec fn selection_count(c: nat, n: nat, k: nat, i: nat) -> nat
    recommends
        k >= 1,
    decreases n,
{
    if n == 0 {
        0
    } else {
        selection_count(c, (n - 1) as nat, k, i) + if rr_index((c + n - 1) as nat, k) == i {
            1nat
        } else {
            0nat
        }
    }
}

/// How far from counter value `c` the next selection of index `i` lies.
pub open spec fn rr_offset(c: nat, k: nat, i: nat) -> int
    recommends
        k >= 1,
{
    (i as int - c as int) % (k as int)
}

/// The round-robin selector: the counter shared by all selections. Its
/// holder must serialize increments; each call advances the counter by
/// exactly one, so no index position is skipped or handed out twice under
/// a stable healthy snapshot.
pub struct RoundRobinSelector {
    pub counter: u64,
}

impl RoundRobinSelector {
    /// A fresh selector, starting its cycle at the first healthy backend.
    pub fn new() -> (r: RoundRobinSelector)
        ensures
            r.counter == 0,
    {
        RoundRobinSelector { counter: 0 }
    }

    /// Picks one backend from the healthy snapshot: `None` exactly when
    /// the snapshot is empty, otherwise the backend at
    /// `counter mod length`, after which the counter advances by one
    /// (wrapping only at the top of `u64`). The key is ignored by
    /// round-robin; a keyed algorithm may use it without changing this
    /// calling contract.
    pub fn select(&mut self, _key: &Vec<u8>, healthy: &Vec<Backend>) -> (r: Option<Backend>)
        ensures
            healthy@.len() == 0 ==> r is None && *final(self) == *old(self),
            healthy@.len() > 0 ==> {
                &&& r == Some(
                    healthy@[rr_index(old(self).counter as nat, healthy@.len() as nat) as int],
                )
                &&& final(self).counter == if old(self).counter < u64::MAX {
                    old(self).counter + 1
                } else {
                    0
                }
            },
    {
        if healthy.len() == 0 {
            return None;
        }
        let idx: usize = (self.counter % (healthy.len() as u64)) as usize;
        proof {
            lemma_mod_division_less_than_divisor(self.counter as int, healthy@.len() as int);
        }
        let chosen = healthy[idx].clone();
        self.counter = if self.counter < u64::MAX {
            self.counter + 1
        } else {
            0
        };
        Some(chosen)
    }
}

/// For `d` in `[0, k)`, counter value `c + d` selects index `i` exactly
/// when `d` is the offset of `i` from `c`.
proof fn lemma_hit_iff(c: nat, d: int, k: nat, i: nat)
    requires
        k >= 1,
        i < k,
        0 <= d < k,
    ensures
        ((c + d) % (k as int) == i) <==> (d == rr_offset(c, k, i)),
{
    let ki = k as int;
    let ci = c as int;
    let ii = i as int;
    let d0 = rr_offset(c, k, i);
    lemma_mod_division_less_than_divisor(ii - ci, ki);
    lemma_fundamental_div_mod(ii - ci, ki);
    let q0 = (ii - ci) / ki;
    assert(ii - ci == ki * q0 + d0);
    if d == d0 {
        assert(ci + d0 == (-q0) * ki + ii) by (nonlinear_arith)
            requires
                ii - ci == ki * q0 + d0,
                d == d0,
        ;
        lemma_fundamental_div_mod_converse_mod(ci + d0, ki, -q0, ii);
    }
    if (ci + d) % ki == ii {
        lemma_fundamental_div_mod(ci + d, ki);
        let q1 = (ci + d) / ki;
        assert(ci + d == ki * q1 + ii);
        assert(d - d0 == ki * (q1 + q0)) by (nonlinear_arith)
            requires
                ci + d == ki * q1 + ii,
                ii - ci == ki * q0 + d0,
        ;
        assert(q1 + q0 == 0) by (nonlinear_arith)
            requires
                d - d0 == ki * (q1 + q0),
                -ki < d - d0 < ki,
                ki >= 1,
        ;
    }
}

/// Counting selections splits at any point of the counter sequence.
proof fn lemma_count_splits(c: nat, a: nat, b: nat, k: nat, i: nat)
    requires
        k >= 1,
    ensures
        selection_count(c, (a + b) as nat, k, i) == selection_count(c, a, k, i) + selection_count(
            (c + a) as nat,
            b,
            k,
            i,
        ),
    decreases b,
{
    if b > 0 {
        lemma_count_splits(c, a, (b - 1) as nat, k, i);
    }
}

/// Within any window of `m <= k` consecutive counter values, index `i` is
/// selected once if its offset falls inside the window and otherwise not
/// at all.
proof fn lemma_window_count(c: nat, m: nat, k: nat, i: nat)
    requires
        k >= 1,
        i < k,
        m <= k,
    ensures
        selection_count(c, m, k, i) == if rr_offset(c, k, i) < m {
            1int
        } else {
            0int
        },
    decreases m,
{
    lemma_mod_division_less_than_divisor(i as int - c as int, k as int);
    if m > 0 {
        lemma_window_count(c, (m - 1) as nat, k, i);
        lemma_hit_iff(c, m as int - 1, k, i);
        assert((c + m - 1) % (k as int) == rr_index((c + m - 1) as nat, k));
    }
}

/// Within one full cycle — any `k` consecutive selections against a
/// stable healthy snapshot of `k >= 1` backends — every index is picked
/// exactly once: no backend is skipped and none is repeated before the
/// cycle closes.
pub proof fn lemma_full_cycle_visits_each_once(c: nat, k: nat, i: nat)
    requires
        k >= 1,
        i < k,
    ensures
        selection_count(c, k, k, i) == 1,
{
    lemma_window_count(c, k, k, i);
    lemma_mod_division_less_than_divisor(i as int - c as int, k as int);
}

/// Round-robin fairness: over any `n` consecutive selections against a
/// stable healthy snapshot of `k >= 1` backends, each index `i` is picked
/// either `n / k` or `n / k + 1` times — that is, exactly ⌊n/k⌋ or ⌈n/k⌉
/// times — and exactly `n / k` times when `k` divides `n`. Every healthy
/// backend is therefore visited once per full cycle before any is repeated.
pub proof fn lemma_round_robin_fair(c: nat, n: nat, k: nat, i: nat)
    requires
        k >= 1,
        i < k,
    ensures
        n / k <= selection_count(c, n, k, i) <= n / k + 1,
        n % k == 0 ==> selection_count(c, n, k, i) == n / k,
    decreases n,
{
    if n < k {
        lemma_window_count(c, n, k, i);
        lemma_basic_div(n as int, k as int);
        lemma_small_mod(n, k);
    } else {
        lemma_count_splits(c, k, (n - k) as nat, k, i);
        lemma_window_count(c, k, k, i);
        lemma_mod_division_less_than_divisor(i as int - c as int, k as int);
        lemma_round_robin_fair((c + k) as nat, (n - k) as nat, k, i);
        lemma_div_plus_one((n - k) as int, k as int);
        lemma_mod_sub_multiples_vanish(n as int, k as int);
        assert(1 + (n - k) / (k as int) == (k + (n - k)) / (k as int));
        assert((-(k as int) + n) % (k as int) == (n as int) % (k as int));
    }
}

} // verus!
