use ignite_client::session::{Event, Phase, RequestIdAllocator, Session, SessionError, step};

#[test]
fn test_request_id_allocator_sequence() {
    let mut allocator = RequestIdAllocator::new();
    let mut issued = Vec::new();
    for _ in 0..8 {
        issued.push(allocator.allocate());
    }
    assert_eq!(issued, vec![0, 1, 2, 3, 4, 5, 6, 7]);
}

#[test]
fn test_phase_machine_reaches_ready() {
    assert_eq!(step(Phase::Disconnected, Event::StreamConnected), Phase::Negotiating);
    assert_eq!(step(Phase::Negotiating, Event::HandshakeAccepted), Phase::Ready);
    assert_eq!(step(Phase::Negotiating, Event::HandshakeRejected), Phase::Failed);
    assert_eq!(step(Phase::Ready, Event::StreamClosed), Phase::Disconnected);
}

#[test]
fn test_phase_machine_failed_is_terminal() {
    // a rejected handshake cannot be retried on the same connection
    assert_eq!(step(Phase::Failed, Event::HandshakeAccepted), Phase::Failed);
    assert_eq!(step(Phase::Failed, Event::StreamConnected), Phase::Failed);
    // only discarding the stream leaves the failed state
    assert_eq!(step(Phase::Failed, Event::StreamClosed), Phase::Disconnected);
}

#[test]
fn test_session_refuses_requests_before_ready() {
    let mut session = Session::new();
    assert!(matches!(session.take_request_id(), Err(SessionError::NotReady)));
    session.on_event(Event::StreamConnected);
    assert!(session.may_handshake());
    assert!(!session.is_ready());
    assert!(matches!(session.take_request_id(), Err(SessionError::NotReady)));
}

#[test]
fn test_session_issues_sequential_ids_when_ready() {
    let mut session = Session::new();
    session.on_event(Event::StreamConnected);
    session.on_event(Event::HandshakeAccepted);
    assert!(session.is_ready());
    assert!(!session.may_handshake());
    let mut issued = Vec::new();
    for _ in 0..5 {
        issued.push(session.take_request_id().unwrap());
    }
    assert_eq!(issued, vec![0, 1, 2, 3, 4]);
}

#[test]
fn test_session_refuses_requests_after_failed_handshake() {
    let mut session = Session::new();
    session.on_event(Event::StreamConnected);
    session.on_event(Event::HandshakeRejected);
    assert!(!session.is_ready());
    assert!(!session.may_handshake());
    assert!(matches!(session.take_request_id(), Err(SessionError::NotReady)));
}
