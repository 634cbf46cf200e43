use daylog::control::{
    classify_drained, control_step, ControlEvent, ControlOutcome, ControlState, RELOAD_MARKER,
    WAKE_MARKER, ACK_MARKER,
};

#[test]
fn test_classify_terminate_wins() {
    // a terminate flag observed after draining stops the loop, whatever
    // bytes were drained
    assert_eq!(classify_drained(&vec![], true), ControlOutcome::Terminate);
    assert_eq!(classify_drained(&vec![WAKE_MARKER], true), ControlOutcome::Terminate);
    assert_eq!(classify_drained(&vec![RELOAD_MARKER], true), ControlOutcome::Terminate);
}

#[test]
fn test_classify_reload_and_spurious() {
    assert_eq!(classify_drained(&vec![RELOAD_MARKER], false), ControlOutcome::Reload);
    assert_eq!(
        classify_drained(&vec![WAKE_MARKER, RELOAD_MARKER], false),
        ControlOutcome::Reload
    );
    assert_eq!(classify_drained(&vec![WAKE_MARKER], false), ControlOutcome::Spurious);
    assert_eq!(classify_drained(&vec![], false), ControlOutcome::Spurious);
    assert_ne!(ACK_MARKER, RELOAD_MARKER);
}

#[test]
fn test_state_machine() {
    let s = control_step(ControlState::Idle, ControlEvent::StartWait);
    assert_eq!(s, ControlState::Waiting);
    assert_eq!(control_step(s, ControlEvent::TimedOut), ControlState::Idle);
    assert_eq!(
        control_step(s, ControlEvent::Drained { outcome: ControlOutcome::Reload }),
        ControlState::Idle
    );
    assert_eq!(
        control_step(s, ControlEvent::Drained { outcome: ControlOutcome::Spurious }),
        ControlState::Idle
    );
    // a terminate delivered while the wait blocks drives the channel to
    // its terminal state at the very next drain
    let drained = classify_drained(&vec![WAKE_MARKER], true);
    let stopped = control_step(s, ControlEvent::Drained { outcome: drained });
    assert_eq!(stopped, ControlState::Stopped);
    // stopped is final
    assert_eq!(control_step(stopped, ControlEvent::StartWait), ControlState::Stopped);
}
