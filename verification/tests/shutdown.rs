use polymenu::shutdown::{AppEvent, Lifecycle, Phase, Signal, Step};

#[test]
fn first_trigger_tears_down() {
    let mut state = Lifecycle::new();
    assert_eq!(state.phase, Phase::Running);
    assert!(!state.is_shutting_down());
    assert_eq!(state.advance(Signal::CloseRoute), Step::Teardown);
    assert_eq!(state.phase, Phase::ShuttingDown);
    assert!(state.is_shutting_down());
}

#[test]
fn later_triggers_are_no_ops() {
    let mut state = Lifecycle::new();
    let signals = [
        Signal::CloseRequested,
        Signal::CloseRoute,
        Signal::TaskFailed,
        Signal::CloseRequested,
        Signal::CloseRoute,
    ];
    let mut teardowns = 0;
    for signal in signals {
        let before = state;
        let step = state.advance(signal);
        if step == Step::Teardown {
            teardowns += 1;
        } else {
            assert_eq!(step, Step::Nothing);
            assert_eq!(state, before);
        }
    }
    assert_eq!(teardowns, 1);
    assert_eq!(state.phase, Phase::ShuttingDown);
}

#[test]
fn full_shutdown_sequence() {
    let mut state = Lifecycle::new();
    assert_eq!(state.advance(Signal::CloseRequested), Step::Teardown);
    assert_eq!(state.advance(Signal::TasksFinished), Step::NotifyEventLoop);
    assert_eq!(state.advance(Signal::TasksFinished), Step::Nothing);
    assert_eq!(state.advance(Signal::CloseRoute), Step::Nothing);
    assert_eq!(state.advance(Signal::Delivered(AppEvent::Shutdown)), Step::Exit);
    assert_eq!(state.phase, Phase::Exited);
    assert_eq!(state.advance(Signal::Delivered(AppEvent::Shutdown)), Step::Nothing);
    assert_eq!(state.advance(Signal::CloseRequested), Step::Nothing);
    assert_eq!(state.advance(Signal::TasksFinished), Step::Nothing);
    assert_eq!(state.phase, Phase::Exited);
}

#[test]
fn tasks_ending_by_themselves_notify_the_loop() {
    let mut state = Lifecycle::new();
    assert_eq!(state.advance(Signal::TasksFinished), Step::NotifyEventLoop);
    assert_eq!(state.phase, Phase::ShuttingDown);
    assert_eq!(state.advance(Signal::CloseRequested), Step::Nothing);
    assert_eq!(state.advance(Signal::Delivered(AppEvent::Shutdown)), Step::Exit);
}

#[test]
fn every_order_of_signals_exits_at_most_once() {
    let all = [
        Signal::CloseRequested,
        Signal::CloseRoute,
        Signal::TaskFailed,
        Signal::TasksFinished,
        Signal::Delivered(AppEvent::Shutdown),
    ];
    for a in all {
        for b in all {
            for c in all {
                for d in all {
                    let mut state = Lifecycle::new();
                    let steps = [state.advance(a), state.advance(b), state.advance(c), state.advance(d)];
                    let count = |wanted: Step| steps.iter().filter(|s| **s == wanted).count();
                    assert!(count(Step::Teardown) <= 1);
                    assert!(count(Step::NotifyEventLoop) <= 1);
                    assert!(count(Step::Exit) <= 1);
                }
            }
        }
    }
}
