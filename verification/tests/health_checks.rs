use proxy_core::health::{apply_probe, apply_probe_round, CheckSchedule, ProbeResult};
use proxy_core::registry::Registry;

fn addresses(list: &[&str]) -> Vec<String> {
    list.iter().map(|a| a.to_string()).collect()
}

#[test]
fn three_failed_probes_then_recovery() {
    // A backend that refuses connections for 3 consecutive intervals is
    // reported unhealthy after the 3rd probe; one later success reports
    // it healthy again.
    let mut reg = Registry::new(addresses(&["a:1"]), 3);
    apply_probe_round(&mut reg, &vec![false], 1);
    assert!(reg.backends[0].healthy);
    apply_probe_round(&mut reg, &vec![false], 2);
    assert!(reg.backends[0].healthy);
    apply_probe_round(&mut reg, &vec![false], 3);
    assert!(!reg.backends[0].healthy);
    assert_eq!(reg.backends[0].consecutive_failures, 3);
    apply_probe_round(&mut reg, &vec![true], 4);
    assert!(reg.backends[0].healthy);
    assert_eq!(reg.backends[0].consecutive_failures, 0);
    assert_eq!(reg.backends[0].last_check, 4);
}

#[test]
fn fail_fast_threshold_marks_on_first_failure() {
    let mut reg = Registry::new(addresses(&["a:1", "b:2"]), 1);
    apply_probe_round(&mut reg, &vec![false, true], 1);
    assert!(!reg.backends[0].healthy);
    assert!(reg.backends[1].healthy);
    apply_probe_round(&mut reg, &vec![true, true], 2);
    assert!(reg.backends[0].healthy);
    assert!(reg.backends[1].healthy);
}

#[test]
fn probe_by_address_touches_only_that_backend() {
    let mut reg = Registry::new(addresses(&["a:1", "b:2"]), 1);
    let result = ProbeResult {
        address: "b:2".to_string(),
        reachable: false,
        latency: 40,
    };
    apply_probe(&mut reg, &result, 9);
    assert!(reg.backends[0].healthy);
    assert_eq!(reg.backends[0].last_check, 0);
    assert!(!reg.backends[1].healthy);
    assert_eq!(reg.backends[1].consecutive_failures, 1);
    assert_eq!(reg.backends[1].last_check, 9);
}

#[test]
fn probe_for_unknown_address_changes_nothing() {
    let mut reg = Registry::new(addresses(&["a:1"]), 1);
    let result = ProbeResult {
        address: "nobody:9".to_string(),
        reachable: false,
        latency: 3,
    };
    apply_probe(&mut reg, &result, 5);
    assert!(reg.backends[0].healthy);
    assert_eq!(reg.backends[0].consecutive_failures, 0);
    assert_eq!(reg.backends[0].last_check, 0);
}

#[test]
fn failure_counter_saturates() {
    let mut reg = Registry::new(addresses(&["a:1"]), 2);
    reg.backends[0].consecutive_failures = u64::MAX;
    reg.backends[0].healthy = false;
    apply_probe_round(&mut reg, &vec![false], 1);
    assert_eq!(reg.backends[0].consecutive_failures, u64::MAX);
    assert!(!reg.backends[0].healthy);
    apply_probe_round(&mut reg, &vec![true], 2);
    assert_eq!(reg.backends[0].consecutive_failures, 0);
    assert!(reg.backends[0].healthy);
}

#[test]
fn flapping_recovery_is_idempotent() {
    let mut reg = Registry::new(addresses(&["a:1"]), 1);
    for round in 0..4u64 {
        apply_probe_round(&mut reg, &vec![false], 2 * round);
        assert!(!reg.backends[0].healthy);
        apply_probe_round(&mut reg, &vec![true], 2 * round + 1);
        assert!(reg.backends[0].healthy);
        assert_eq!(reg.backends[0].consecutive_failures, 0);
    }
}

#[test]
fn probe_timeout_must_fit_inside_the_interval() {
    let ok = CheckSchedule::new(2000, 500).unwrap();
    assert_eq!(ok.interval_ms, 2000);
    assert_eq!(ok.timeout_ms, 500);
    assert!(CheckSchedule::new(2000, 2000).is_none());
    assert!(CheckSchedule::new(2000, 2500).is_none());
    assert!(CheckSchedule::new(2000, 0).is_none());
    assert!(CheckSchedule::new(0, 0).is_none());
}

#[test]
fn probes_update_every_backend_in_one_round() {
    let mut reg = Registry::new(addresses(&["a:1", "b:2", "c:3"]), 1);
    apply_probe_round(&mut reg, &vec![true, false, true], 7);
    let healthy = reg.list_healthy();
    assert_eq!(healthy.len(), 2);
    assert_eq!(healthy[0].address, "a:1");
    assert_eq!(healthy[1].address, "c:3");
    for b in &reg.backends {
        assert_eq!(b.last_check, 7);
    }
}
