use screenink::failure::Failure;
use screenink::session::{Finish, OpenRequest, SessionState};

#[test]
fn one_capture_at_a_time() {
    let mut state = SessionState::default();
    assert!(state.begin_capture());
    assert!(!state.begin_capture());
    state.finish_capture();
    assert!(state.begin_capture());
    assert_eq!(state.retain_clipboard(1), None);
    assert!(state.begin_capture());
    state.release_window(2);
    assert!(state.begin_capture());
}

#[test]
fn clipboard_passes_from_window_to_window() {
    let mut state = SessionState::default();
    assert!(!state.has_clipboard());
    assert_eq!(state.retain_clipboard(1), None);
    assert!(state.has_clipboard());
    assert_eq!(state.retain_clipboard(1), None);
    assert_eq!(state.retain_clipboard(2), Some(1));
    state.release_window(1);
    assert!(state.has_clipboard());
    state.release_window(2);
    assert!(!state.has_clipboard());
}

#[test]
fn clipboard_survives_a_failed_capture() {
    let mut state = SessionState::default();
    state.retain_clipboard(7);
    assert_eq!(state.request_editor(), OpenRequest::Decode { retaining: true });
    assert_eq!(
        state.screenshot_decoded(Err("bad file".to_string())),
        Some("Could not open the portal screenshot: bad file".to_string())
    );
    assert!(state.has_clipboard());
    assert!(state.begin_capture());
}

#[test]
fn screenshots_are_dropped_while_an_editor_is_open() {
    let mut state = SessionState::default();
    assert_eq!(state.request_editor(), OpenRequest::Decode { retaining: false });
    assert_eq!(state.screenshot_decoded(Ok(())), None);
    assert_eq!(state.request_editor(), OpenRequest::Discard);
}

#[test]
fn saving_frees_the_service_and_closes_the_earlier_window() {
    let mut state = SessionState::default();
    state.request_editor();
    assert!(matches!(state.finish_editor(1, Ok(())), Finish::Hide { close: None }));
    state.request_editor();
    assert!(matches!(state.finish_editor(2, Ok(())), Finish::Hide { close: Some(1) }));
    assert!(state.begin_capture());
}

#[test]
fn a_failed_save_changes_nothing() {
    let mut state = SessionState::default();
    state.request_editor();
    match state.finish_editor(1, Err(Failure::Png("disk full".to_string()))) {
        Finish::ShowError { message } => assert_eq!(message, "Could not save PNG: disk full"),
        Finish::Hide { .. } => panic!("the window was hidden"),
    }
    assert!(!state.has_clipboard());
    assert!(!state.begin_capture());
}
