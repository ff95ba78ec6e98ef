use photo::harness_session::{harness_step, CommandKind, SessionState, StepAction};

fn refusal(action: &StepAction) -> Option<(u64, String, String)> {
    match action {
        StepAction::Refuse(f) => Some((f.id, f.code.clone(), f.message.clone())),
        _ => None,
    }
}

#[test]
fn quit_acknowledges_then_refuses_further_requests() {
    let state = SessionState { quitting: false, crop_mode: false };
    let (state, action) = harness_step(state, 1, CommandKind::Quit);
    assert!(matches!(action, StepAction::Quit));
    assert!(state.quitting);
    let (state, action) = harness_step(state, 2, CommandKind::Ping);
    assert_eq!(refusal(&action), Some((2, "quitting".to_string(), "app is quitting".to_string())));
    let (_, action) = harness_step(state, 3, CommandKind::Quit);
    assert_eq!(refusal(&action).map(|r| r.1), Some("quitting".to_string()));
}

#[test]
fn set_crop_requires_crop_mode() {
    let off = SessionState { quitting: false, crop_mode: false };
    let (_, action) = harness_step(off, 5, CommandKind::SetCrop);
    let (id, code, message) = refusal(&action).unwrap();
    assert_eq!((id, code.as_str()), (5, "unavailable"));
    assert!(message.starts_with("crop mode is off"));
    let on = SessionState { quitting: false, crop_mode: true };
    let (next, action) = harness_step(on, 6, CommandKind::SetCrop);
    assert!(matches!(action, StepAction::Serve(CommandKind::SetCrop)));
    assert_eq!(next, on);
}

#[test]
fn other_requests_are_served() {
    let s = SessionState { quitting: false, crop_mode: false };
    for kind in [CommandKind::Ping, CommandKind::Observe, CommandKind::Open, CommandKind::WaitIdle] {
        let (next, action) = harness_step(s, 9, kind);
        assert_eq!(next, s);
        assert!(matches!(action, StepAction::Serve(k) if k == kind));
    }
}
