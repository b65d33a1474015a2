use wake_word::session::{Session, SessionAction, SessionEvent, StopReason};

#[test]
fn detection_index_names_keyword_in_requested_order() {
    // Requested order [A, B, C]; the detector reports index 2, then
    // index 0: the session reports C, then A, in that order.
    let mut session = Session::new(vec!["A", "B", "C"]);
    let mut reported: Vec<&str> = Vec::new();

    match session.step(SessionEvent::Detection(2)) {
        SessionAction::Emit(kw) => reported.push(kw),
        _ => panic!("expected a detection report"),
    }
    match session.step(SessionEvent::Detection(0)) {
        SessionAction::Emit(kw) => reported.push(kw),
        _ => panic!("expected a detection report"),
    }
    assert_eq!(reported, vec!["C", "A"]);
    assert!(session.is_listening());
}

#[test]
fn no_detection_continues_listening() {
    let mut session = Session::new(vec!["A"]);
    assert_eq!(session.step(SessionEvent::Detection(-1)), SessionAction::Continue);
    assert!(session.is_listening());
    assert_eq!(session.stop_reason(), None);
}

#[test]
fn cleared_flag_stops_recorder_exactly_once() {
    let mut session = Session::new(vec!["A", "B"]);
    let mut stops = 0;

    // One frame is still processed normally, then the poll finds the
    // flag cleared: the session answers one stop and nothing more.
    let script = vec![SessionEvent::Detection(-1), SessionEvent::FlagCleared];
    for event in script {
        if !session.is_listening() {
            break;
        }
        if let SessionAction::StopRecorder = session.step(event) {
            stops += 1;
        }
    }
    assert_eq!(stops, 1);
    assert!(!session.is_listening());
    assert_eq!(session.stop_reason(), Some(StopReason::Cancelled));
}

#[test]
fn frame_read_failure_stops_without_reaching_detector() {
    let mut session = Session::new(vec!["A"]);
    let mut stops = 0;
    let mut detections = 0;

    let action = session.step(SessionEvent::FrameReadFailed);
    match action {
        SessionAction::StopRecorder => stops += 1,
        SessionAction::Emit(_) => detections += 1,
        SessionAction::Continue => {}
    }
    // The session has left the listening phase: the loop exits without
    // feeding the failed frame to the detector or stopping again.
    assert!(!session.is_listening());
    assert_eq!(stops, 1);
    assert_eq!(detections, 0);
    assert_eq!(session.stop_reason(), Some(StopReason::FrameReadFailure));
}

#[test]
fn detector_failure_is_fatal() {
    let mut session = Session::new(vec!["A"]);
    assert_eq!(session.step(SessionEvent::ProcessFailed), SessionAction::StopRecorder);
    assert_eq!(session.stop_reason(), Some(StopReason::DetectorFailure));
}

#[test]
fn out_of_range_detection_index_is_a_detector_failure() {
    let mut session = Session::new(vec!["A", "B"]);
    assert_eq!(session.step(SessionEvent::Detection(7)), SessionAction::StopRecorder);
    assert_eq!(session.stop_reason(), Some(StopReason::DetectorFailure));
}
