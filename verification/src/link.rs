//! Link supervisor: the decision core of the perpetual task that
//! establishes and maintains the wireless association. Each call of
//! `step` takes the event that ended the last suspension and returns
//! the action to perform next; association failure is an expected,
//! recoverable condition and the retry loop never gives up.

use vstd::prelude::*;

verus! {

/// Debounce delay after a disconnect notification, in milliseconds.
pub const COOLDOWN_MS: u64 = 5000;

/// Backoff delay after a failed association attempt, in milliseconds.
pub const BACKOFF_MS: u64 = 5000;

/// Cap on candidate access points in the diagnostic scan.
pub const SCAN_CAP: u8 = 10;

/// The supervisor's coarse link state.
#[derive(Clone, Copy, Debug, PartialEq, Eq, Structural)]
pub enum LinkState {
    Disconnected,
    Associating,
    Connected,
}

/// Where the supervisor stands between two suspension points.
#[derive(Clone, Copy, Debug, PartialEq, Eq, Structural)]
pub enum SupervisorPhase {
    /// About to observe the association state at the top of the loop.
    Evaluating,
    /// Link is up; suspended until a disconnect notification arrives.
    Monitoring,
    /// Disconnect seen; debounce delay before re-evaluating.
    Cooldown,
    /// Radio must be configured, started and scanned before attempting.
    Bringup,
    /// An association attempt is in flight.
    Associating,
    /// Association failed; fixed delay before the next attempt.
    Backoff,
}

/// What the environment reports back to the supervisor.
#[derive(Clone, Copy, Debug, PartialEq, Eq, Structural)]
pub enum LinkEvent {
    /// The top-of-loop observation of the network layer.
    Observed { connected: bool, radio_started: bool },
    /// The awaited disconnect notification arrived.
    DisconnectNotified,
    /// A cooldown or backoff delay elapsed.
    TimerElapsed,
    /// Credentials were applied, the radio started and the scan ran.
    RadioReady,
    AssociationSucceeded,
    AssociationFailed,
}

/// What the supervisor asks the environment to do next.
#[derive(Clone, Copy, Debug, PartialEq, Eq, Structural)]
pub enum LinkAction {
    /// Observe the association state and report it.
    Observe,
    /// Suspend until the network layer reports a disconnect.
    AwaitDisconnect,
    /// Wait the given number of milliseconds.
    StartDelay(u64),
    /// Apply the credentials, start the radio and run the bounded
    /// diagnostic scan, capped at the given number of candidates.
    BringUpRadio(u8),
    /// Attempt to associate with the access point.
    Associate,
}

/// The supervisor's whole behaviour: next phase and next action for
/// every phase and event. An event that cannot follow its phase leaves
/// the phase unchanged and asks for a fresh observation.
pub open spec fn spec_step(p: SupervisorPhase, e: LinkEvent) -> (SupervisorPhase, LinkAction) {
    match (p, e) {
        (SupervisorPhase::Evaluating, LinkEvent::Observed { connected, radio_started }) => {
            if connected {
                (SupervisorPhase::Monitoring, LinkAction::AwaitDisconnect)
            } else if !radio_started {
                (SupervisorPhase::Bringup, LinkAction::BringUpRadio(SCAN_CAP))
            } else {
                (SupervisorPhase::Associating, LinkAction::Associate)
            }
        },
        (SupervisorPhase::Monitoring, LinkEvent::DisconnectNotified) => (
            SupervisorPhase::Cooldown,
            LinkAction::StartDelay(COOLDOWN_MS),
        ),
        (SupervisorPhase::Cooldown, LinkEvent::TimerElapsed) => (
            SupervisorPhase::Evaluating,
            LinkAction::Observe,
        ),
        (SupervisorPhase::Bringup, LinkEvent::RadioReady) => (
            SupervisorPhase::Associating,
            LinkAction::Associate,
        ),
        (SupervisorPhase::Associating, LinkEvent::AssociationSucceeded) => (
            SupervisorPhase::Evaluating,
            LinkAction::Observe,
        ),
        (SupervisorPhase::Associating, LinkEvent::AssociationFailed) => (
            SupervisorPhase::Backoff,
            LinkAction::StartDelay(BACKOFF_MS),
        ),
        (SupervisorPhase::Backoff, LinkEvent::TimerElapsed) => (
            SupervisorPhase::Evaluating,
            LinkAction::Observe,
        ),
        _ => (p, LinkAction::Observe),
    }
}

/// The coarse link state each phase denotes.
pub open spec fn spec_link_state(p: SupervisorPhase) -> LinkState {
    match p {
        SupervisorPhase::Monitoring => LinkState::Connected,
        SupervisorPhase::Bringup => LinkState::Associating,
        SupervisorPhase::Associating => LinkState::Associating,
        SupervisorPhase::Backoff => LinkState::Associating,
        SupervisorPhase::Evaluating => LinkState::Disconnected,
        SupervisorPhase::Cooldown => LinkState::Disconnected,
    }
}

/// The long-lived supervisor; the environment runs its loop by feeding
/// each event back into `step` and performing the returned action.
pub struct Supervisor {
    phase: SupervisorPhase,
}

impl Supervisor {
    pub closed spec fn phase(self) -> SupervisorPhase {
        self.phase
    }

    pub fn new() -> (s: Supervisor)
        ensures
            s.phase() == SupervisorPhase::Evaluating,
    {
        Supervisor { phase: SupervisorPhase::Evaluating }
    }

    /// Advance by one event; the result is exactly `spec_step`.
    pub fn step(&mut self, e: LinkEvent) -> (a: LinkAction)
        ensures
            final(self).phase() == spec_step(old(self).phase(), e).0,
            a == spec_step(old(self).phase(), e).1,
    {
        let (next, action) = step_exec(self.phase, e);
        self.phase = next;
        action
    }

    pub fn link_state(&self) -> (s: LinkState)
        ensures
            s == spec_link_state(self.phase()),
    {
        match self.phase {
            SupervisorPhase::Monitoring => LinkState::Connected,
            SupervisorPhase::Bringup => LinkState::Associating,
            SupervisorPhase::Associating => LinkState::Associating,
            SupervisorPhase::Backoff => LinkState::Associating,
            SupervisorPhase::Evaluating => LinkState::Disconnected,
            SupervisorPhase::Cooldown => LinkState::Disconnected,
        }
    }
}

fn step_exec(p: SupervisorPhase, e: LinkEvent) -> (r: (SupervisorPhase, LinkAction))
    ensures
        r == spec_step(p, e),
{
    match (p, e) {
        (SupervisorPhase::Evaluating, LinkEvent::Observed { connected, radio_started }) => {
            if connected {
                (SupervisorPhase::Monitoring, LinkAction::AwaitDisconnect)
            } else if !radio_started {
                (SupervisorPhase::Bringup, LinkAction::BringUpRadio(SCAN_CAP))
            } else {
                (SupervisorPhase::Associating, LinkAction::Associate)
            }
        },
        (SupervisorPhase::Monitoring, LinkEvent::DisconnectNotified) => (
            SupervisorPhase::Cooldown,
            LinkAction::StartDelay(COOLDOWN_MS),
        ),
        (SupervisorPhase::Cooldown, LinkEvent::TimerElapsed) => (
            SupervisorPhase::Evaluating,
            LinkAction::Observe,
        ),
        (SupervisorPhase::Bringup, LinkEvent::RadioReady) => (
            SupervisorPhase::Associating,
            LinkAction::Associate,
        ),
        (SupervisorPhase::Associating, LinkEvent::AssociationSucceeded) => (
            SupervisorPhase::Evaluating,
            LinkAction::Observe,
        ),
        (SupervisorPhase::Associating, LinkEvent::AssociationFailed) => (
            SupervisorPhase::Backoff,
            LinkAction::StartDelay(BACKOFF_MS),
        ),
        (SupervisorPhase::Backoff, LinkEvent::TimerElapsed) => (
            SupervisorPhase::Evaluating,
            LinkAction::Observe,
        ),
        _ => (p, LinkAction::Observe),
    }
}

/// One failed association attempt as the environment reports it: the
/// failure, the elapsed backoff timer, and the next top-of-loop
/// observation with the link still down and the radio started.
pub open spec fn failure_cycle() -> Seq<LinkEvent> {
    seq![
        LinkEvent::AssociationFailed,
        LinkEvent::TimerElapsed,
        LinkEvent::Observed { connected: false, radio_started: true },
    ]
}

pub open spec fn repeat_failure_cycles(n: nat) -> Seq<LinkEvent>
    decreases n,
{
    if n == 0 {
        Seq::empty()
    } else {
        failure_cycle() + repeat_failure_cycles((n - 1) as nat)
    }
}

/// The phase after an event trace.
pub open spec fn run_phase(p: SupervisorPhase, es: Seq<LinkEvent>) -> SupervisorPhase
    decreases es.len(),
{
    if es.len() == 0 {
        p
    } else {
        run_phase(spec_step(p, es[0]).0, es.subrange(1, es.len() as int))
    }
}

/// How many association attempts a trace causes.
pub open spec fn count_attempts(p: SupervisorPhase, es: Seq<LinkEvent>) -> nat
    decreases es.len(),
{
    if es.len() == 0 {
        0
    } else {
        (if spec_step(p, es[0]).1 == LinkAction::Associate {
            1nat
        } else {
            0nat
        }) + count_attempts(spec_step(p, es[0]).0, es.subrange(1, es.len() as int))
    }
}

/// Unbounded retry: however many consecutive association failures the
/// environment reports, the supervisor attempts association once more
/// in every cycle, ends the trace attempting again, and never reaches
/// an error state. With the attempt that entered the associating phase
/// counted, n failures mean n + 1 attempts, for every n.
pub proof fn lemma_unbounded_retry(n: nat)
    ensures
        run_phase(SupervisorPhase::Associating, repeat_failure_cycles(n))
            == SupervisorPhase::Associating,
        count_attempts(SupervisorPhase::Associating, repeat_failure_cycles(n)) == n,
    decreases n,
{
    let p0 = SupervisorPhase::Associating;
    let es = repeat_failure_cycles(n);
    if n == 0 {
    } else {
        let tail = repeat_failure_cycles((n - 1) as nat);
        assert(es == failure_cycle() + tail);
        assert(es[0] == LinkEvent::AssociationFailed);
        let es1 = es.subrange(1, es.len() as int);
        assert(es1[0] == LinkEvent::TimerElapsed);
        let es2 = es1.subrange(1, es1.len() as int);
        assert(es2[0] == (LinkEvent::Observed { connected: false, radio_started: true }));
        let es3 = es2.subrange(1, es2.len() as int);
        assert(es3 =~= tail);
        assert(spec_step(p0, es[0]).0 == SupervisorPhase::Backoff);
        assert(spec_step(SupervisorPhase::Backoff, es1[0]).0 == SupervisorPhase::Evaluating);
        assert(spec_step(SupervisorPhase::Evaluating, es2[0]).0 == SupervisorPhase::Associating);
        assert(spec_step(SupervisorPhase::Evaluating, es2[0]).1 == LinkAction::Associate);
        lemma_unbounded_retry((n - 1) as nat);
        assert(run_phase(p0, es) == run_phase(SupervisorPhase::Backoff, es1));
        assert(run_phase(SupervisorPhase::Backoff, es1) == run_phase(
            SupervisorPhase::Evaluating,
            es2,
        ));
        assert(run_phase(SupervisorPhase::Evaluating, es2) == run_phase(
            SupervisorPhase::Associating,
            es3,
        ));
        assert(count_attempts(p0, es) == count_attempts(SupervisorPhase::Backoff, es1));
        assert(count_attempts(SupervisorPhase::Backoff, es1) == count_attempts(
            SupervisorPhase::Evaluating,
            es2,
        ));
        assert(count_attempts(SupervisorPhase::Evaluating, es2) == 1 + count_attempts(
            SupervisorPhase::Associating,
            es3,
        ));
    }
}

} // verus!
