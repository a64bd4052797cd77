use latch::commands::kill::{kill_step, KillStep, GRACE_PERIOD_MS, POLL_INTERVAL_MS};

#[test]
fn kill_waits_then_forces() {
    assert_eq!(kill_step(true, true, false), KillStep::Wait);
    assert_eq!(kill_step(true, true, true), KillStep::ForceKill);
    assert_eq!(kill_step(true, false, false), KillStep::Finished);
    assert_eq!(kill_step(false, true, false), KillStep::Finished);
    assert_eq!(GRACE_PERIOD_MS, 3000);
    assert_eq!(POLL_INTERVAL_MS, 100);
}
