use sysmon::control::{event_is_fatal, next_action, step, LoopAction, LoopEvent, Phase};

#[test]
fn graphical_cycle() {
    let graphical = true;
    let mut phase = Phase::Sampling;
    assert_eq!(next_action(phase), Some(LoopAction::Sample));
    phase = step(phase, LoopEvent::SampleOk, graphical);
    assert_eq!(phase, Phase::Rendering);
    assert_eq!(next_action(phase), Some(LoopAction::Draw));
    phase = step(phase, LoopEvent::DrawOk, graphical);
    assert_eq!(phase, Phase::InputCheck);
    assert_eq!(next_action(phase), Some(LoopAction::PollInput));
    phase = step(phase, LoopEvent::NoInput, graphical);
    assert_eq!(phase, Phase::Sleeping);
    assert_eq!(next_action(phase), Some(LoopAction::Sleep));
    phase = step(phase, LoopEvent::SleepDone, graphical);
    assert_eq!(phase, Phase::Sampling);
}

#[test]
fn text_cycle_has_no_input_check() {
    let graphical = false;
    let mut phase = step(Phase::Sampling, LoopEvent::SampleOk, graphical);
    assert_eq!(phase, Phase::TextOutput);
    assert_eq!(next_action(phase), Some(LoopAction::PrintText));
    phase = step(phase, LoopEvent::PrintDone, graphical);
    assert_eq!(phase, Phase::Sleeping);
    phase = step(phase, LoopEvent::SleepDone, graphical);
    assert_eq!(phase, Phase::Sampling);
}

#[test]
fn quit_key_stops_the_loop_cleanly() {
    let graphical = true;
    // One full cycle, then the quit key during the input check.
    let mut phase = Phase::Sampling;
    let mut teardowns = 0;
    for event in [LoopEvent::SampleOk, LoopEvent::DrawOk, LoopEvent::QuitKey] {
        let before = phase;
        phase = step(phase, event, graphical);
        if before != Phase::Stopped && phase == Phase::Stopped {
            teardowns += 1;
        }
        assert!(!event_is_fatal(event));
    }
    assert_eq!(phase, Phase::Stopped);
    assert_eq!(next_action(phase), None);
    // Stopped absorbs everything; teardown is owed exactly once.
    for event in [LoopEvent::SampleOk, LoopEvent::QuitKey, LoopEvent::SleepDone] {
        let before = phase;
        phase = step(phase, event, graphical);
        assert_eq!(phase, Phase::Stopped);
        if before != Phase::Stopped && phase == Phase::Stopped {
            teardowns += 1;
        }
    }
    assert_eq!(teardowns, 1);
}

#[test]
fn fatal_failures_stop_the_loop() {
    assert_eq!(step(Phase::Sampling, LoopEvent::SampleFailed, true), Phase::Stopped);
    assert_eq!(step(Phase::Rendering, LoopEvent::DrawFailed, true), Phase::Stopped);
    assert_eq!(step(Phase::InputCheck, LoopEvent::InputFailed, true), Phase::Stopped);
    assert!(event_is_fatal(LoopEvent::SampleFailed));
    assert!(event_is_fatal(LoopEvent::DrawFailed));
    assert!(event_is_fatal(LoopEvent::InputFailed));
    assert!(!event_is_fatal(LoopEvent::QuitKey));
}

#[test]
fn mismatched_events_change_nothing() {
    assert_eq!(step(Phase::Sampling, LoopEvent::DrawOk, true), Phase::Sampling);
    assert_eq!(step(Phase::Sleeping, LoopEvent::QuitKey, true), Phase::Sleeping);
}
