use pickup_calendar::link::{
    LinkAction, LinkEvent, LinkState, Supervisor, BACKOFF_MS, COOLDOWN_MS, SCAN_CAP,
};

#[test]
fn first_bringup_then_association() {
    let mut sup = Supervisor::new();
    let a = sup.step(LinkEvent::Observed { connected: false, radio_started: false });
    assert_eq!(a, LinkAction::BringUpRadio(SCAN_CAP));
    let a = sup.step(LinkEvent::RadioReady);
    assert_eq!(a, LinkAction::Associate);
    assert_eq!(sup.link_state(), LinkState::Associating);
}

#[test]
fn connected_link_is_monitored_and_disconnects_are_debounced() {
    let mut sup = Supervisor::new();
    let a = sup.step(LinkEvent::Observed { connected: true, radio_started: true });
    assert_eq!(a, LinkAction::AwaitDisconnect);
    assert_eq!(sup.link_state(), LinkState::Connected);
    let a = sup.step(LinkEvent::DisconnectNotified);
    assert_eq!(a, LinkAction::StartDelay(COOLDOWN_MS));
    let a = sup.step(LinkEvent::TimerElapsed);
    assert_eq!(a, LinkAction::Observe);
    assert_eq!(sup.link_state(), LinkState::Disconnected);
}

#[test]
fn n_failures_still_leave_the_supervisor_attempting() {
    // After n consecutive association failures the supervisor has
    // attempted n + 1 times and stands ready to attempt again: the
    // retry loop is unbounded and has no error state.
    let n = 50;
    let mut sup = Supervisor::new();
    let mut attempts = 0;
    let a = sup.step(LinkEvent::Observed { connected: false, radio_started: false });
    assert_eq!(a, LinkAction::BringUpRadio(SCAN_CAP));
    let a = sup.step(LinkEvent::RadioReady);
    assert_eq!(a, LinkAction::Associate);
    attempts += 1;
    for _ in 0..n {
        let a = sup.step(LinkEvent::AssociationFailed);
        assert_eq!(a, LinkAction::StartDelay(BACKOFF_MS));
        let a = sup.step(LinkEvent::TimerElapsed);
        assert_eq!(a, LinkAction::Observe);
        let a = sup.step(LinkEvent::Observed { connected: false, radio_started: true });
        assert_eq!(a, LinkAction::Associate);
        attempts += 1;
        assert_eq!(sup.link_state(), LinkState::Associating);
    }
    assert_eq!(attempts, n + 1);
    // The next failure is handled exactly like every earlier one.
    let a = sup.step(LinkEvent::AssociationFailed);
    assert_eq!(a, LinkAction::StartDelay(BACKOFF_MS));
}

#[test]
fn successful_association_returns_to_observation() {
    let mut sup = Supervisor::new();
    sup.step(LinkEvent::Observed { connected: false, radio_started: true });
    let a = sup.step(LinkEvent::AssociationSucceeded);
    assert_eq!(a, LinkAction::Observe);
    let a = sup.step(LinkEvent::Observed { connected: true, radio_started: true });
    assert_eq!(a, LinkAction::AwaitDisconnect);
    assert_eq!(sup.link_state(), LinkState::Connected);
}
