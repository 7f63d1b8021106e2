//! The life of the server: it serves until the first of two things happens,
//! the serving loop ending by itself or the shutdown signal arriving from the
//! console, and then it stops. Whatever happens later has lost the race and
//! is ignored.

use vstd::prelude::*;

verus! {

/// The two states of the server.
#[derive(Clone, Copy, Debug, PartialEq, Eq, Structural)]
pub enum Phase {
    /// Requests are accepted and answered.
    Serving,
    /// Serving has ended; nothing more is acted upon.
    ShuttingDown,
}

/// What can end serving.
#[derive(Clone, Copy, Debug, PartialEq, Eq, Structural)]
pub enum Event {
    /// The console task has finished waiting for a line: the one-shot
    /// shutdown signal.
    ShutdownSignal,
    /// The serving loop has ended with an error.
    ServerFailed,
    /// The serving loop has ended without an error.
    ServerEnded,
}

/// What the process does about an event.
#[derive(Clone, Copy, Debug, PartialEq, Eq, Structural)]
pub enum Action {
    /// Acknowledge the shutdown on standard output, and stop.
    AnnounceShutdown,
    /// Report the error of the serving loop on standard error, and stop.
    ReportServerError,
    /// Stop, with nothing to say.
    Stop,
    /// Nothing: the event came after serving had ended.
    Ignore,
}

/// What the process does about the event that ends serving.
pub open spec fn action_for(event: Event) -> Action {
    match event {
        Event::ShutdownSignal => Action::AnnounceShutdown,
        Event::ServerFailed => Action::ReportServerError,
        Event::ServerEnded => Action::Stop,
    }
}

/// One step of the server's life: while serving, any event ends serving and
/// is acted upon; once serving has ended, every event is ignored.
pub open spec fn step_spec(phase: Phase, event: Event) -> (Phase, Action) {
    match phase {
        Phase::Serving => (Phase::ShuttingDown, action_for(event)),
        Phase::ShuttingDown => (Phase::ShuttingDown, Action::Ignore),
    }
}

/// The state after a sequence of events.
pub open spec fn phase_after(phase: Phase, events: Seq<Event>) -> Phase
    decreases events.len(),
{
    if events.len() == 0 {
        phase
    } else {
        step_spec(phase_after(phase, events.drop_last()), events.last()).0
    }
}

/// The actions that a sequence of events leads to, one for each event.
pub open spec fn actions_of(phase: Phase, events: Seq<Event>) -> Seq<Action>
    decreases events.len(),
{
    if events.len() == 0 {
        Seq::empty()
    } else {
        actions_of(phase, events.drop_last()).push(
            step_spec(phase_after(phase, events.drop_last()), events.last()).1,
        )
    }
}

/// The state in which the server starts.
pub fn start() -> (phase: Phase)
    ensures
        phase == Phase::Serving,
{
    Phase::Serving
}

/// Takes one event: gives the state that follows and what to do about the
/// event.
pub fn on_event(phase: Phase, event: Event) -> (next: (Phase, Action))
    ensures
        next == step_spec(phase, event),
{
    match phase {
        Phase::Serving => {
            let action = match event {
                Event::ShutdownSignal => Action::AnnounceShutdown,
                Event::ServerFailed => Action::ReportServerError,
                Event::ServerEnded => Action::Stop,
            };
            (Phase::ShuttingDown, action)
        },
        Phase::ShuttingDown => (Phase::ShuttingDown, Action::Ignore),
    }
}

/// Whether the process goes on waiting for events in this state.
pub fn is_serving(phase: Phase) -> (serving: bool)
    ensures
        serving == (phase == Phase::Serving),
{
    match phase {
        Phase::Serving => true,
        Phase::ShuttingDown => false,
    }
}

/// There is a single transition, and no way back: after at least one event
/// the server is shutting down, whatever the events were.
pub proof fn lemma_any_event_ends_serving(phase: Phase, events: Seq<Event>)
    ensures
        events.len() > 0 ==> phase_after(phase, events) == Phase::ShuttingDown,
        events.len() == 0 ==> phase_after(phase, events) == phase,
        phase == Phase::ShuttingDown ==> phase_after(phase, events) == Phase::ShuttingDown,
    decreases events.len(),
{
    if events.len() > 0 {
        lemma_any_event_ends_serving(phase, events.drop_last());
    }
}

/// The race is resolved at most once: of the events that reach a serving
/// server, the first is acted upon, and every later one is ignored.
pub proof fn lemma_first_event_wins(events: Seq<Event>, i: int)
    requires
        0 <= i < events.len(),
    ensures
        actions_of(Phase::Serving, events).len() == events.len(),
        i == 0 ==> actions_of(Phase::Serving, events)[i] == action_for(events[0]),
        i > 0 ==> actions_of(Phase::Serving, events)[i] == Action::Ignore,
        actions_of(Phase::Serving, events)[0] != Action::Ignore,
    decreases events.len(),
{
    let shorter = events.drop_last();
    lemma_actions_len(Phase::Serving, events);
    lemma_actions_len(Phase::Serving, shorter);
    lemma_any_event_ends_serving(Phase::Serving, shorter);
    if shorter.len() > 0 {
        lemma_first_event_wins(shorter, 0);
        if i < shorter.len() {
            lemma_first_event_wins(shorter, i);
        }
    }
}

/// Each event leads to one action.
pub proof fn lemma_actions_len(phase: Phase, events: Seq<Event>)
    ensures
        actions_of(phase, events).len() == events.len(),
    decreases events.len(),
{
    if events.len() > 0 {
        lemma_actions_len(phase, events.drop_last());
    }
}

/// Once the server is shutting down, nothing is acted upon any more.
pub proof fn lemma_nothing_after_shutdown(events: Seq<Event>, i: int)
    requires
        0 <= i < events.len(),
    ensures
        actions_of(Phase::ShuttingDown, events).len() == events.len(),
        actions_of(Phase::ShuttingDown, events)[i] == Action::Ignore,
    decreases events.len(),
{
    let shorter = events.drop_last();
    lemma_actions_len(Phase::ShuttingDown, events);
    lemma_actions_len(Phase::ShuttingDown, shorter);
    lemma_any_event_ends_serving(Phase::ShuttingDown, shorter);
    if i < shorter.len() {
        lemma_nothing_after_shutdown(shorter, i);
    }
}

} // verus!
