//! The startup handshake: the recorder or streamer is subscribed, and says
//! it is ready, before the terminal's process is started, so that none of
//! its output is missed.
use vstd::prelude::*;

verus! {

#[derive(Debug, Clone, Copy, PartialEq, Eq, Structural)]
pub enum StartupPhase {
    /// Waiting for the observer's subscription request.
    AwaitingClient,
    /// The observer is subscribed; waiting for it to say it is ready.
    AwaitingReady,
    /// The terminal's process is started.
    Running,
    /// The observer went away before it was ready.
    Failed,
}

#[derive(Debug, Clone, Copy, PartialEq, Eq, Structural)]
pub enum StartupEvent {
    /// The observer asked to subscribe.
    ClientRequested,
    /// The channel of subscription requests closed.
    ClientChannelClosed,
    /// The observer is reading events.
    Ready,
    /// The observer dropped its ready signal without sending it.
    ReadyDropped,
}

#[derive(Debug, Clone, Copy, PartialEq, Eq, Structural)]
pub enum StartupAction {
    /// Accept the pending subscription with the session's event stream.
    AcceptClient,
    /// Start the terminal's process.
    SpawnPty,
    /// Give up: the observer cannot be attached.
    Abort,
    /// Nothing to do yet.
    Wait,
}

pub open spec fn startup_next(phase: StartupPhase, event: StartupEvent) -> (StartupPhase, StartupAction) {
    match (phase, event) {
        (StartupPhase::AwaitingClient, StartupEvent::ClientRequested) => (
            StartupPhase::AwaitingReady,
            StartupAction::AcceptClient,
        ),
        (StartupPhase::AwaitingClient, StartupEvent::ClientChannelClosed) => (
            StartupPhase::Failed,
            StartupAction::Abort,
        ),
        (StartupPhase::AwaitingReady, StartupEvent::Ready) => (
            StartupPhase::Running,
            StartupAction::SpawnPty,
        ),
        (StartupPhase::AwaitingClient, StartupEvent::ReadyDropped) => (
            StartupPhase::Failed,
            StartupAction::Abort,
        ),
        (StartupPhase::AwaitingReady, StartupEvent::ReadyDropped) => (
            StartupPhase::Failed,
            StartupAction::Abort,
        ),
        _ => (phase, StartupAction::Wait),
    }
}

/// The next phase and the action to take on `event`.
pub fn startup_step(phase: StartupPhase, event: StartupEvent) -> (r: (StartupPhase, StartupAction))
    ensures
        r == startup_next(phase, event),
{
    match (phase, event) {
        (StartupPhase::AwaitingClient, StartupEvent::ClientRequested) => (
            StartupPhase::AwaitingReady,
            StartupAction::AcceptClient,
        ),
        (StartupPhase::AwaitingClient, StartupEvent::ClientChannelClosed) => (
            StartupPhase::Failed,
            StartupAction::Abort,
        ),
        (StartupPhase::AwaitingReady, StartupEvent::Ready) => (
            StartupPhase::Running,
            StartupAction::SpawnPty,
        ),
        (StartupPhase::AwaitingClient, StartupEvent::ReadyDropped) => (
            StartupPhase::Failed,
            StartupAction::Abort,
        ),
        (StartupPhase::AwaitingReady, StartupEvent::ReadyDropped) => (
            StartupPhase::Failed,
            StartupAction::Abort,
        ),
        _ => (phase, StartupAction::Wait),
    }
}

/// The actions a run of events leads to, from `phase`.
pub open spec fn startup_actions(phase: StartupPhase, events: Seq<StartupEvent>) -> Seq<StartupAction>
    decreases events.len(),
{
    if events.len() == 0 {
        Seq::empty()
    } else {
        let (next, action) = startup_next(phase, events[0]);
        seq![action] + startup_actions(next, events.drop_first())
    }
}

/// From the start, whatever the order of events, the terminal's process is
/// started at most once, and only after the observer's subscription was
/// accepted.
pub proof fn lemma_spawn_after_accept(events: Seq<StartupEvent>)
    ensures
        ({
            let acts = startup_actions(StartupPhase::AwaitingClient, events);
            forall|i: int|
                0 <= i < acts.len() && #[trigger] acts[i] == StartupAction::SpawnPty ==> (exists|j: int|
                    0 <= j < i && acts[j] == StartupAction::AcceptClient) && forall|k: int|
                    0 <= k < acts.len() && k != i ==> acts[k] != StartupAction::SpawnPty
        }),
    decreases events.len(),
{
    if events.len() > 0 {
        let (next, action) = startup_next(StartupPhase::AwaitingClient, events[0]);
        let acts = startup_actions(StartupPhase::AwaitingClient, events);
        let rest = startup_actions(next, events.drop_first());
        assert(acts == seq![action] + rest);
        if next is AwaitingClient {
            lemma_spawn_after_accept(events.drop_first());
            assert forall|i: int|
                0 <= i < acts.len() && #[trigger] acts[i] == StartupAction::SpawnPty implies (exists|j: int|
                    0 <= j < i && acts[j] == StartupAction::AcceptClient) && forall|k: int|
                    0 <= k < acts.len() && k != i ==> acts[k] != StartupAction::SpawnPty by {
                assert(acts[i] == rest[i - 1]);
                let j2 = choose|j: int| 0 <= j < i - 1 && rest[j] == StartupAction::AcceptClient;
                assert(acts[j2 + 1] == rest[j2]);
                assert forall|k: int| 0 <= k < acts.len() && k != i implies acts[k]
                    != StartupAction::SpawnPty by {
                    if k > 0 {
                        assert(acts[k] == rest[k - 1]);
                    }
                }
            }
        } else if next is AwaitingReady {
            lemma_spawn_once(events.drop_first());
            assert forall|i: int|
                0 <= i < acts.len() && #[trigger] acts[i] == StartupAction::SpawnPty implies (exists|j: int|
                    0 <= j < i && acts[j] == StartupAction::AcceptClient) && forall|k: int|
                    0 <= k < acts.len() && k != i ==> acts[k] != StartupAction::SpawnPty by {
                assert(acts[0] == StartupAction::AcceptClient);
                assert(acts[i] == rest[i - 1]);
                assert forall|k: int| 0 <= k < acts.len() && k != i implies acts[k]
                    != StartupAction::SpawnPty by {
                    if k > 0 {
                        assert(acts[k] == rest[k - 1]);
                    }
                }
            }
        } else {
            lemma_stopped(next, events.drop_first());
            assert forall|i: int| 0 <= i < acts.len() implies #[trigger] acts[i]
                != StartupAction::SpawnPty by {
                if i > 0 {
                    assert(acts[i] == rest[i - 1]);
                }
            }
        }
    }
}

/// Once the observer is subscribed, the process is started at most once.
proof fn lemma_spawn_once(events: Seq<StartupEvent>)
    ensures
        ({
            let acts = startup_actions(StartupPhase::AwaitingReady, events);
            forall|i: int, k: int|
                0 <= i < acts.len() && 0 <= k < acts.len() && #[trigger] acts[i] == StartupAction::SpawnPty
                    && #[trigger] acts[k] == StartupAction::SpawnPty ==> i == k
        }),
    decreases events.len(),
{
    if events.len() > 0 {
        let (next, action) = startup_next(StartupPhase::AwaitingReady, events[0]);
        let acts = startup_actions(StartupPhase::AwaitingReady, events);
        let rest = startup_actions(next, events.drop_first());
        assert(acts == seq![action] + rest);
        if next is AwaitingReady {
            lemma_spawn_once(events.drop_first());
            assert(action == StartupAction::Wait);
        } else {
            lemma_stopped(next, events.drop_first());
        }
        assert forall|i: int, k: int|
            0 <= i < acts.len() && 0 <= k < acts.len() && #[trigger] acts[i] == StartupAction::SpawnPty
                && #[trigger] acts[k] == StartupAction::SpawnPty implies i == k by {
            if i > 0 {
                assert(acts[i] == rest[i - 1]);
            }
            if k > 0 {
                assert(acts[k] == rest[k - 1]);
            }
        }
    }
}

/// Once the process is started, or the start failed, nothing more happens.
proof fn lemma_stopped(phase: StartupPhase, events: Seq<StartupEvent>)
    requires
        phase is Running || phase is Failed,
    ensures
        forall|i: int|
            0 <= i < startup_actions(phase, events).len() ==> #[trigger] startup_actions(
                phase,
                events,
            )[i] == StartupAction::Wait,
    decreases events.len(),
{
    if events.len() > 0 {
        lemma_stopped(phase, events.drop_first());
        let acts = startup_actions(phase, events);
        let rest = startup_actions(phase, events.drop_first());
        assert(acts == seq![StartupAction::Wait] + rest);
        assert forall|i: int| 0 <= i < acts.len() implies #[trigger] acts[i] == StartupAction::Wait by {
            if i > 0 {
                assert(acts[i] == rest[i - 1]);
            }
        }
    }
}

} // verus!
