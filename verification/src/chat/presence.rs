//! The heartbeat that tells the other peers that this node is alive.
//!
//! The engine broadcasts a presence message, then waits until a fixed
//! interval has passed or until it is triggered, and starts over. It stops
//! for good when a broadcast fails. This module holds the decisions; the
//! caller broadcasts, sleeps and listens for the trigger.

use vstd::prelude::*;

verus! {

/// Seconds between two presence messages when nothing triggers one.
pub const PRESENCE_INTERVAL_SECS: u64 = 5;

/// Where the heartbeat stands.
#[derive(Clone, Copy, Debug, PartialEq, Eq, Structural)]
pub enum PresenceState {
    /// A presence message is being broadcast.
    Broadcasting,
    /// The engine waits for the interval to pass or for a trigger.
    Waiting,
    /// A broadcast failed; the engine has stopped.
    Stopped,
}

/// What the caller reports to the engine.
#[derive(Clone, Copy, Debug, PartialEq, Eq, Structural)]
pub enum PresenceEvent {
    /// The broadcast went out.
    Sent,
    /// The broadcast failed.
    SendFailed,
    /// The interval has passed.
    IntervalElapsed,
    /// The nickname changed, or the swarm was joined.
    Triggered,
}

/// What the caller does next.
#[derive(Clone, Copy, Debug, PartialEq, Eq, Structural)]
pub enum PresenceAction {
    /// Broadcast a presence message with the nickname as it is now, and
    /// report `Sent` or `SendFailed`.
    Broadcast,
    /// Wait for the trigger, at most this many seconds, and report which
    /// came first.
    Wait { seconds: u64 },
    /// End the task.
    Exit,
    /// Go on with what is being done.
    Continue,
}

/// The state after `event` and what is to be done then.
pub open spec fn presence_step(state: PresenceState, event: PresenceEvent) -> (
    PresenceState,
    PresenceAction,
) {
    match state {
        PresenceState::Broadcasting => match event {
            PresenceEvent::Sent => (
                PresenceState::Waiting,
                PresenceAction::Wait { seconds: PRESENCE_INTERVAL_SECS },
            ),
            PresenceEvent::SendFailed => (PresenceState::Stopped, PresenceAction::Exit),
            _ => (PresenceState::Broadcasting, PresenceAction::Continue),
        },
        PresenceState::Waiting => match event {
            PresenceEvent::IntervalElapsed | PresenceEvent::Triggered => (
                PresenceState::Broadcasting,
                PresenceAction::Broadcast,
            ),
            _ => (PresenceState::Waiting, PresenceAction::Continue),
        },
        PresenceState::Stopped => (PresenceState::Stopped, PresenceAction::Exit),
    }
}

/// The heartbeat of one channel.
#[derive(Clone, Copy, Debug, PartialEq, Eq, Structural)]
pub struct PresenceEngine {
    pub state: PresenceState,
}

impl PresenceEngine {
    /// A heartbeat that starts by broadcasting: the caller's first action is
    /// `Broadcast`.
    pub fn new() -> (engine: PresenceEngine)
        ensures
            engine.state == PresenceState::Broadcasting,
    {
        PresenceEngine { state: PresenceState::Broadcasting }
    }

    /// Takes in what the caller reports and says what to do next.
    pub fn step(&mut self, event: PresenceEvent) -> (action: PresenceAction)
        ensures
            (final(self).state, action) == presence_step(old(self).state, event),
    {
        let (state, action) = match self.state {
            PresenceState::Broadcasting => match event {
                PresenceEvent::Sent => (
                    PresenceState::Waiting,
                    PresenceAction::Wait { seconds: PRESENCE_INTERVAL_SECS },
                ),
                PresenceEvent::SendFailed => (PresenceState::Stopped, PresenceAction::Exit),
                _ => (PresenceState::Broadcasting, PresenceAction::Continue),
            },
            PresenceState::Waiting => match event {
                PresenceEvent::IntervalElapsed | PresenceEvent::Triggered => (
                    PresenceState::Broadcasting,
                    PresenceAction::Broadcast,
                ),
                _ => (PresenceState::Waiting, PresenceAction::Continue),
            },
            PresenceState::Stopped => (PresenceState::Stopped, PresenceAction::Exit),
        };
        self.state = state;
        action
    }
}

/// Once stopped, the heartbeat stays stopped and asks for nothing but to
/// end the task.
pub proof fn lemma_stopped_is_final(event: PresenceEvent)
    ensures
        presence_step(PresenceState::Stopped, event) == (
            PresenceState::Stopped,
            PresenceAction::Exit,
        ),
{
}

/// The heartbeat never broadcasts twice without a wait in between, and a
/// wait ends with the interval or a trigger, whichever comes first.
pub proof fn lemma_broadcast_follows_wait(state: PresenceState, event: PresenceEvent)
    ensures
        presence_step(state, event).1 == PresenceAction::Broadcast <==> state
            == PresenceState::Waiting && (event == PresenceEvent::IntervalElapsed || event
            == PresenceEvent::Triggered),
        presence_step(state, event).1 == PresenceAction::Exit <==> state == PresenceState::Stopped
            || (state == PresenceState::Broadcasting && event == PresenceEvent::SendFailed),
{
}

} // verus!
