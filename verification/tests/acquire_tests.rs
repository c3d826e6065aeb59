use pickup_calendar::acquire::{
    AcquireAction, AcquireWait, Ipv4Config, POLL_INTERVAL_MS,
};

fn cfg() -> Ipv4Config {
    Ipv4Config { octet0: 192, octet1: 168, octet2: 0, octet3: 17, prefix_len: 24 }
}

#[test]
fn waits_for_link_then_for_configuration() {
    let mut wait = AcquireWait::new();
    assert_eq!(wait.step(false, None), AcquireAction::Retry(POLL_INTERVAL_MS));
    assert_eq!(wait.step(false, None), AcquireAction::Retry(POLL_INTERVAL_MS));
    assert_eq!(wait.step(true, None), AcquireAction::Advance);
    assert_eq!(wait.step(true, None), AcquireAction::Retry(POLL_INTERVAL_MS));
    assert_eq!(wait.step(true, Some(cfg())), AcquireAction::Complete(cfg()));
}

#[test]
fn wait_has_no_timeout_outcome() {
    // Many negative polls in a row always just retry after the fixed
    // interval; the wait is unbounded by design.
    let mut wait = AcquireWait::new();
    for _ in 0..1000 {
        assert_eq!(wait.step(false, None), AcquireAction::Retry(POLL_INTERVAL_MS));
    }
    assert_eq!(wait.step(true, None), AcquireAction::Advance);
    for _ in 0..1000 {
        assert_eq!(wait.step(true, None), AcquireAction::Retry(POLL_INTERVAL_MS));
    }
    assert_eq!(wait.step(true, Some(cfg())), AcquireAction::Complete(cfg()));
}

#[test]
fn link_state_is_ignored_once_the_link_phase_is_passed() {
    // The second phase polls only the configuration, as the original
    // two-loop wait does.
    let mut wait = AcquireWait::new();
    assert_eq!(wait.step(true, None), AcquireAction::Advance);
    assert_eq!(wait.step(false, Some(cfg())), AcquireAction::Complete(cfg()));
}
