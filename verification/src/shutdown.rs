//! The lifecycle of the application: one shutdown signal that many
//! parties may trigger, one teardown, one notice to the event loop, one
//! exit.

use vstd::prelude::*;

verus! {

/// The events that are injected into the native event loop.
#[derive(Debug, Clone, Copy, PartialEq, Eq, Structural)]
pub enum AppEvent {
    /// The background tasks have ended: leave the loop.
    Shutdown,
}

/// Where the application stands.
#[derive(Debug, Clone, Copy, PartialEq, Eq, Structural)]
pub enum Phase {
    /// Serving.
    Running,
    /// The shutdown signal was triggered; the tasks are winding down.
    ShuttingDown,
    /// The event loop was left. Nothing follows.
    Exited,
}

/// What may happen to the application.
#[derive(Debug, Clone, Copy, PartialEq, Eq, Structural)]
pub enum Signal {
    /// The user asked to close the window.
    CloseRequested,
    /// The front end asked for the application to close.
    CloseRoute,
    /// A task failed fatally.
    TaskFailed,
    /// All background tasks have ended.
    TasksFinished,
    /// The event loop received this event.
    Delivered(AppEvent),
}

/// What the coordinator has to do after a signal.
#[derive(Debug, Clone, Copy, PartialEq, Eq, Structural)]
pub enum Step {
    /// Nothing.
    Nothing,
    /// Cancel every task: the one teardown.
    Teardown,
    /// Inject `AppEvent::Shutdown` into the event loop.
    NotifyEventLoop,
    /// Leave the event loop and exit.
    Exit,
}

impl Signal {
    /// Whether this signal triggers the shutdown signal.
    pub open spec fn is_trigger(self) -> bool {
        self is CloseRequested || self is CloseRoute || self is TaskFailed
    }
}

/// The state of the coordinator.
#[derive(Debug, Clone, Copy, PartialEq, Eq, Structural)]
pub struct Lifecycle {
    /// Where the application stands.
    pub phase: Phase,
    /// Whether the event loop was told to exit.
    pub notified: bool,
}

impl Lifecycle {
    /// The state at startup.
    pub open spec fn initial() -> Lifecycle {
        Lifecycle { phase: Phase::Running, notified: false }
    }

    /// The state after `signal`, and what to do.
    pub open spec fn after(self, signal: Signal) -> (Lifecycle, Step) {
        match signal {
            Signal::CloseRequested | Signal::CloseRoute | Signal::TaskFailed => {
                if self.phase is Running {
                    (Lifecycle { phase: Phase::ShuttingDown, notified: self.notified }, Step::Teardown)
                } else {
                    (self, Step::Nothing)
                }
            },
            Signal::TasksFinished => {
                if self.notified || self.phase is Exited {
                    (self, Step::Nothing)
                } else {
                    (Lifecycle { phase: Phase::ShuttingDown, notified: true }, Step::NotifyEventLoop)
                }
            },
            Signal::Delivered(AppEvent::Shutdown) => {
                if self.phase is Exited {
                    (self, Step::Nothing)
                } else {
                    (Lifecycle { phase: Phase::Exited, notified: self.notified }, Step::Exit)
                }
            },
        }
    }

    /// The state at startup.
    pub fn new() -> (state: Self)
        ensures
            state == Lifecycle::initial(),
    {
        Lifecycle { phase: Phase::Running, notified: false }
    }

    /// Whether the shutdown signal was triggered or the tasks have ended.
    pub fn is_shutting_down(&self) -> (yes: bool)
        ensures
            yes == !(self.phase is Running),
    {
        match self.phase {
            Phase::Running => false,
            _ => true,
        }
    }

    /// Takes `signal` in and says what to do.
    pub fn advance(&mut self, signal: Signal) -> (step: Step)
        ensures
            (*final(self), step) == old(self).after(signal),
    {
        match signal {
            Signal::CloseRequested | Signal::CloseRoute | Signal::TaskFailed => {
                match self.phase {
                    Phase::Running => {
                        self.phase = Phase::ShuttingDown;
                        Step::Teardown
                    },
                    _ => Step::Nothing,
                }
            },
            Signal::TasksFinished => {
                let exited = match self.phase {
                    Phase::Exited => true,
                    _ => false,
                };
                if self.notified || exited {
                    Step::Nothing
                } else {
                    self.phase = Phase::ShuttingDown;
                    self.notified = true;
                    Step::NotifyEventLoop
                }
            },
            Signal::Delivered(AppEvent::Shutdown) => {
                match self.phase {
                    Phase::Exited => Step::Nothing,
                    _ => {
                        self.phase = Phase::Exited;
                        Step::Exit
                    },
                }
            },
        }
    }

    /// The state after all `signals`, in order.
    pub open spec fn after_all(self, signals: Seq<Signal>) -> Lifecycle
        decreases signals.len(),
    {
        if signals.len() == 0 {
            self
        } else {
            self.after(signals[0]).0.after_all(signals.drop_first())
        }
    }

    /// The steps that `signals` ask for, in order.
    pub open spec fn steps(self, signals: Seq<Signal>) -> Seq<Step>
        decreases signals.len(),
    {
        if signals.len() == 0 {
            Seq::empty()
        } else {
            seq![self.after(signals[0]).1] + self.after(signals[0]).0.steps(signals.drop_first())
        }
    }
}

/// How often `step` occurs among `steps`.
pub open spec fn occurrences(steps: Seq<Step>, step: Step) -> nat
    decreases steps.len(),
{
    if steps.len() == 0 {
        0
    } else {
        (if steps[0] == step {
            1nat
        } else {
            0nat
        }) + occurrences(steps.drop_first(), step)
    }
}

/// A second trigger changes nothing and asks for nothing.
pub proof fn lemma_trigger_is_idempotent(state: Lifecycle, first: Signal, second: Signal)
    requires
        first.is_trigger(),
        second.is_trigger(),
    ensures
        state.after(first).0.after(second) == (state.after(first).0, Step::Nothing),
{
}

/// Once the shutdown signal was triggered or the tasks have ended, no
/// sequence of signals asks for a teardown.
pub proof fn lemma_no_teardown_after_shutdown(state: Lifecycle, signals: Seq<Signal>)
    requires
        !(state.phase is Running),
    ensures
        occurrences(state.steps(signals), Step::Teardown) == 0,
    decreases signals.len(),
{
    if signals.len() > 0 {
        let next = state.after(signals[0]);
        lemma_no_teardown_after_shutdown(next.0, signals.drop_first());
        assert((seq![next.1] + next.0.steps(signals.drop_first())).drop_first()
            =~= next.0.steps(signals.drop_first()));
    }
}

/// Whatever the signals and however often they come, there is at most one
/// teardown, at most one notice to the event loop, and at most one exit.
pub proof fn lemma_at_most_once(state: Lifecycle, signals: Seq<Signal>)
    ensures
        occurrences(state.steps(signals), Step::Teardown) <= 1,
        occurrences(state.steps(signals), Step::NotifyEventLoop) <= 1,
        occurrences(state.steps(signals), Step::Exit) <= 1,
        state.notified ==> occurrences(state.steps(signals), Step::NotifyEventLoop) == 0,
        state.phase is Exited ==> occurrences(state.steps(signals), Step::Exit) == 0,
        !(state.phase is Running) ==> occurrences(state.steps(signals), Step::Teardown) == 0,
    decreases signals.len(),
{
    if signals.len() > 0 {
        let next = state.after(signals[0]);
        lemma_at_most_once(next.0, signals.drop_first());
        assert((seq![next.1] + next.0.steps(signals.drop_first())).drop_first()
            =~= next.0.steps(signals.drop_first()));
    }
}

/// From startup, signals that all trigger the shutdown signal, one or
/// many, ask for exactly one teardown: the first does, the others ask for
/// nothing.
pub proof fn lemma_many_triggers_one_teardown(signals: Seq<Signal>)
    requires
        signals.len() >= 1,
        forall|i: int| 0 <= i < signals.len() ==> (#[trigger] signals[i]).is_trigger(),
    ensures
        occurrences(Lifecycle::initial().steps(signals), Step::Teardown) == 1,
        Lifecycle::initial().steps(signals)[0] == Step::Teardown,
        Lifecycle::initial().after_all(signals).phase is ShuttingDown,
{
    let state = Lifecycle::initial();
    let next = state.after(signals[0]);
    assert(signals[0].is_trigger());
    assert(next.1 == Step::Teardown);
    lemma_at_most_once(next.0, signals.drop_first());
    assert((seq![next.1] + next.0.steps(signals.drop_first())).drop_first() =~= next.0.steps(
        signals.drop_first(),
    ));
    lemma_triggers_keep_shutting_down(next.0, signals.drop_first());
}

/// Triggers leave an application that is shutting down as it is.
pub proof fn lemma_triggers_keep_shutting_down(state: Lifecycle, signals: Seq<Signal>)
    requires
        state.phase is ShuttingDown,
        forall|i: int| 0 <= i < signals.len() ==> (#[trigger] signals[i]).is_trigger(),
    ensures
        state.after_all(signals) == state,
    decreases signals.len(),
{
    if signals.len() > 0 {
        assert(signals[0].is_trigger());
        assert forall|i: int| 0 <= i < signals.drop_first().len() implies (
        #[trigger] signals.drop_first()[i]).is_trigger() by {
            assert(signals[i + 1].is_trigger());
        }
        lemma_triggers_keep_shutting_down(state, signals.drop_first());
    }
}

/// From startup, once the tasks have ended and the event loop has received
/// the notice, the application has exited, and exactly one exit was asked
/// for, whatever comes before, between and after.
pub proof fn lemma_exit_happens_once(signals: Seq<Signal>, at: int)
    requires
        0 <= at < signals.len(),
        signals[at] == Signal::Delivered(AppEvent::Shutdown),
    ensures
        occurrences(Lifecycle::initial().steps(signals), Step::Exit) == 1,
        Lifecycle::initial().after_all(signals).phase is Exited,
{
    lemma_exit_from(Lifecycle::initial(), signals, at);
}

/// From a state that has not exited, a delivery of the shutdown event
/// among the signals makes for exactly one exit.
pub proof fn lemma_exit_from(state: Lifecycle, signals: Seq<Signal>, at: int)
    requires
        0 <= at < signals.len(),
        signals[at] == Signal::Delivered(AppEvent::Shutdown),
        !(state.phase is Exited),
    ensures
        occurrences(state.steps(signals), Step::Exit) == 1,
        state.after_all(signals).phase is Exited,
    decreases signals.len(),
{
    let next = state.after(signals[0]);
    assert((seq![next.1] + next.0.steps(signals.drop_first())).drop_first() =~= next.0.steps(
        signals.drop_first(),
    ));
    if next.0.phase is Exited {
        lemma_at_most_once(next.0, signals.drop_first());
        lemma_stays_exited(next.0, signals.drop_first());
    } else {
        assert(at > 0);
        assert(signals.drop_first()[at - 1] == signals[at]);
        lemma_exit_from(next.0, signals.drop_first(), at - 1);
    }
}

/// Exited is terminal.
pub proof fn lemma_stays_exited(state: Lifecycle, signals: Seq<Signal>)
    requires
        state.phase is Exited,
    ensures
        state.after_all(signals) == state,
    decreases signals.len(),
{
    if signals.len() > 0 {
        lemma_stays_exited(state, signals.drop_first());
    }
}

} // verus!
