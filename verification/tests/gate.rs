use lapsphere::hw_gate::{disable, enabled, rearm_all, HwGate};

const CAP_A: &str = "test capability a";
const CAP_B: &str = "test capability b";
const CAP_C: &str = "test capability c";

#[test]
fn capability_is_enabled_until_first_failure() {
    let mut gate = HwGate::new();
    assert!(enabled(&gate, CAP_A));
    assert!(disable(&mut gate, CAP_A), "first failure must report a transition");
    assert!(!enabled(&gate, CAP_A));
}

#[test]
fn later_failures_are_not_transitions() {
    let mut gate = HwGate::new();
    assert!(disable(&mut gate, CAP_B));
    assert!(!disable(&mut gate, CAP_B), "second failure must not log again");
    assert!(!enabled(&gate, CAP_B));
}

#[test]
fn capabilities_are_independent() {
    let mut gate = HwGate::new();
    disable(&mut gate, CAP_C);
    assert!(!enabled(&gate, CAP_C));
    // Unrelated capabilities are unaffected by CAP_C being disabled.
    assert!(enabled(&gate, "unrelated capability"));
}

#[test]
fn rearm_all_clears_disabled_capabilities() {
    let mut gate = HwGate::new();
    disable(&mut gate, CAP_C);
    let rearmed = rearm_all(&mut gate);
    assert!(rearmed.contains(&CAP_C));
    assert!(enabled(&gate, CAP_C));
}
