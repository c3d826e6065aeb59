//! Address acquisition wait: the one-shot coordinator that holds the
//! application back until the network layer reports link-up and then a
//! usable IPv4 configuration. The wait polls on a fixed interval and
//! has, by design, no timeout: it pairs with the unbounded retry loop
//! of the link supervisor.

use vstd::prelude::*;

verus! {

/// The fixed polling interval, in milliseconds.
pub const POLL_INTERVAL_MS: u64 = 500;

/// A usable IPv4 configuration, as plain values.
#[derive(Clone, Copy, Debug, PartialEq, Eq, Structural)]
pub struct Ipv4Config {
    pub octet0: u8,
    pub octet1: u8,
    pub octet2: u8,
    pub octet3: u8,
    pub prefix_len: u8,
}

/// The two phases of the wait, and its end.
#[derive(Clone, Copy, Debug, PartialEq, Eq, Structural)]
pub enum AcquirePhase {
    AwaitingLink,
    AwaitingConfig,
    Done,
}

/// What the caller must do after one poll.
#[derive(Clone, Copy, Debug, PartialEq, Eq, Structural)]
pub enum AcquireAction {
    /// Wait the given number of milliseconds, then poll again.
    Retry(u64),
    /// The link came up; poll for the configuration without delay.
    Advance,
    /// The wait is over; this configuration is usable.
    Complete(Ipv4Config),
}

/// The whole behaviour of one poll: the wait leaves its first phase
/// only on link-up, its second only on a present configuration, and
/// otherwise always retries after the fixed interval — there is no
/// timeout outcome.
pub open spec fn spec_acquire_step(
    p: AcquirePhase,
    link_up: bool,
    config: Option<Ipv4Config>,
) -> (AcquirePhase, AcquireAction) {
    match p {
        AcquirePhase::AwaitingLink => {
            if link_up {
                (AcquirePhase::AwaitingConfig, AcquireAction::Advance)
            } else {
                (AcquirePhase::AwaitingLink, AcquireAction::Retry(POLL_INTERVAL_MS))
            }
        },
        AcquirePhase::AwaitingConfig => {
            match config {
                Some(c) => (AcquirePhase::Done, AcquireAction::Complete(c)),
                None => (AcquirePhase::AwaitingConfig, AcquireAction::Retry(POLL_INTERVAL_MS)),
            }
        },
        AcquirePhase::Done => (AcquirePhase::Done, AcquireAction::Advance),
    }
}

/// The one-shot wait; the caller polls the network layer and feeds each
/// observation in until the action is `Complete`.
pub struct AcquireWait {
    phase: AcquirePhase,
}

impl AcquireWait {
    pub closed spec fn phase(self) -> AcquirePhase {
        self.phase
    }

    pub fn new() -> (w: AcquireWait)
        ensures
            w.phase() == AcquirePhase::AwaitingLink,
    {
        AcquireWait { phase: AcquirePhase::AwaitingLink }
    }

    /// Take one observation; the result is exactly `spec_acquire_step`.
    pub fn step(&mut self, link_up: bool, config: Option<Ipv4Config>) -> (a: AcquireAction)
        ensures
            final(self).phase() == spec_acquire_step(old(self).phase(), link_up, config).0,
            a == spec_acquire_step(old(self).phase(), link_up, config).1,
    {
        match self.phase {
            AcquirePhase::AwaitingLink => {
                if link_up {
                    self.phase = AcquirePhase::AwaitingConfig;
                    AcquireAction::Advance
                } else {
                    AcquireAction::Retry(POLL_INTERVAL_MS)
                }
            },
            AcquirePhase::AwaitingConfig => {
                match config {
                    Some(c) => {
                        self.phase = AcquirePhase::Done;
                        AcquireAction::Complete(c)
                    },
                    None => AcquireAction::Retry(POLL_INTERVAL_MS),
                }
            },
            AcquirePhase::Done => AcquireAction::Advance,
        }
    }
}

} // verus!
