use proxy_core::registry::{Backend, Registry};
use proxy_core::selector::RoundRobinSelector;

fn addresses(list: &[&str]) -> Vec<String> {
    list.iter().map(|a| a.to_string()).collect()
}

#[test]
fn round_robin_cycles_through_all_healthy() {
    let reg = Registry::new(addresses(&["a:1", "b:2", "c:3"]), 1);
    let healthy = reg.list_healthy();
    assert_eq!(healthy.len(), 3);
    let mut sel = RoundRobinSelector::new();
    let key: Vec<u8> = Vec::new();
    let picks: Vec<String> = (0..6)
        .map(|_| sel.select(&key, &healthy).unwrap().address)
        .collect();
    assert_eq!(picks, vec!["a:1", "b:2", "c:3", "a:1", "b:2", "c:3"]);
}

#[test]
fn round_robin_visit_counts_are_floor_or_ceil() {
    // Seven selections over three healthy backends: 7/3 rounds to
    // visit counts 3, 2, 2 — each exactly floor(7/3) or ceil(7/3).
    let reg = Registry::new(addresses(&["a:1", "b:2", "c:3"]), 1);
    let healthy = reg.list_healthy();
    let mut sel = RoundRobinSelector::new();
    let key: Vec<u8> = Vec::new();
    let mut counts = [0usize; 3];
    for _ in 0..7 {
        let picked = sel.select(&key, &healthy).unwrap();
        let idx = healthy
            .iter()
            .position(|b| b.address == picked.address)
            .unwrap();
        counts[idx] += 1;
    }
    assert_eq!(counts, [3, 2, 2]);
    for c in counts {
        assert!(c == 7 / 3 || c == 7 / 3 + 1);
    }
}

#[test]
fn one_cycle_visits_each_backend_exactly_once() {
    let reg = Registry::new(addresses(&["a:1", "b:2", "c:3", "d:4"]), 1);
    let healthy = reg.list_healthy();
    let mut sel = RoundRobinSelector::new();
    sel.counter = 7;
    let key: Vec<u8> = Vec::new();
    let mut counts = [0usize; 4];
    for _ in 0..4 {
        let picked = sel.select(&key, &healthy).unwrap();
        let idx = healthy
            .iter()
            .position(|b| b.address == picked.address)
            .unwrap();
        counts[idx] += 1;
    }
    assert_eq!(counts, [1, 1, 1, 1]);
}

#[test]
fn round_robin_skips_unhealthy() {
    // Registry = {A healthy, B unhealthy}, empty key: three consecutive
    // selections all return A.
    let mut reg = Registry::new(addresses(&["a:1", "b:2"]), 1);
    reg.mark(&"b:2".to_string(), false);
    let healthy = reg.list_healthy();
    assert_eq!(healthy.len(), 1);
    let mut sel = RoundRobinSelector::new();
    let key: Vec<u8> = Vec::new();
    for _ in 0..3 {
        let picked = sel.select(&key, &healthy).unwrap();
        assert_eq!(picked.address, "a:1");
    }
}

#[test]
fn empty_healthy_set_yields_none() {
    let mut reg = Registry::new(addresses(&["a:1", "b:2"]), 1);
    reg.mark(&"a:1".to_string(), false);
    reg.mark(&"b:2".to_string(), false);
    let healthy = reg.list_healthy();
    assert!(healthy.is_empty());
    let mut sel = RoundRobinSelector::new();
    let key: Vec<u8> = Vec::new();
    for _ in 0..3 {
        assert!(sel.select(&key, &healthy).is_none());
    }
    // A failed attempt does not advance the cycle.
    assert_eq!(sel.counter, 0);
}

#[test]
fn selection_key_is_ignored_by_round_robin() {
    let reg = Registry::new(addresses(&["a:1", "b:2"]), 1);
    let healthy = reg.list_healthy();
    let mut sel_empty = RoundRobinSelector::new();
    let mut sel_keyed = RoundRobinSelector::new();
    let empty_key: Vec<u8> = Vec::new();
    let keyed: Vec<u8> = b"client-affinity".to_vec();
    for _ in 0..4 {
        let a = sel_empty.select(&empty_key, &healthy).unwrap();
        let b = sel_keyed.select(&keyed, &healthy).unwrap();
        assert_eq!(a.address, b.address);
    }
}

#[test]
fn counter_continues_over_changed_healthy_set() {
    // The counter advances over whatever snapshot each selection sees:
    // no reset when the healthy set changes mid-cycle.
    let mut reg = Registry::new(addresses(&["a:1", "b:2", "c:3"]), 1);
    let mut sel = RoundRobinSelector::new();
    let key: Vec<u8> = Vec::new();
    let healthy = reg.list_healthy();
    assert_eq!(sel.select(&key, &healthy).unwrap().address, "a:1");
    assert_eq!(sel.select(&key, &healthy).unwrap().address, "b:2");
    reg.mark(&"b:2".to_string(), false);
    let healthy = reg.list_healthy();
    // Counter stands at 2; the new snapshot is [a:1, c:3], so 2 % 2 = 0.
    assert_eq!(sel.select(&key, &healthy).unwrap().address, "a:1");
    assert_eq!(sel.counter, 3);
}

#[test]
fn counter_wraps_at_top() {
    let reg = Registry::new(addresses(&["a:1", "b:2"]), 1);
    let healthy = reg.list_healthy();
    let mut sel = RoundRobinSelector::new();
    sel.counter = u64::MAX;
    let key: Vec<u8> = Vec::new();
    // u64::MAX is odd, so MAX % 2 picks the second backend.
    assert_eq!(sel.select(&key, &healthy).unwrap().address, "b:2");
    assert_eq!(sel.counter, 0);
    assert_eq!(sel.select(&key, &healthy).unwrap().address, "a:1");
}

#[test]
fn registry_starts_fully_healthy() {
    let reg = Registry::new(addresses(&["a:1", "b:2"]), 2);
    assert_eq!(reg.len(), 2);
    let healthy = reg.list_healthy();
    assert_eq!(healthy.len(), 2);
    for b in &healthy {
        assert!(b.healthy);
        assert_eq!(b.consecutive_failures, 0);
        assert_eq!(b.last_check, 0);
    }
    assert_eq!(healthy[0].address, "a:1");
    assert_eq!(healthy[1].address, "b:2");
}

#[test]
fn mark_is_idempotent_and_targeted() {
    let mut reg = Registry::new(addresses(&["a:1", "b:2"]), 1);
    reg.mark(&"b:2".to_string(), false);
    reg.mark(&"b:2".to_string(), false);
    let healthy = reg.list_healthy();
    assert_eq!(healthy.len(), 1);
    assert_eq!(healthy[0].address, "a:1");
    // An address nobody registered changes nothing.
    reg.mark(&"nobody:9".to_string(), false);
    assert_eq!(reg.list_healthy().len(), 1);
    // Marking healthy again restores the backend.
    reg.mark(&"b:2".to_string(), true);
    assert_eq!(reg.list_healthy().len(), 2);
}

#[test]
fn backend_clone_keeps_every_field() {
    let b = Backend {
        address: "a:1".to_string(),
        healthy: false,
        consecutive_failures: 4,
        last_check: 17,
    };
    let c = b.clone();
    assert_eq!(c.address, "a:1");
    assert!(!c.healthy);
    assert_eq!(c.consecutive_failures, 4);
    assert_eq!(c.last_check, 17);
}
