//! The phases of a session.

use rustconsole::session::lifecycle::{
    SessionLifecycle, SessionPhase, SessionTransitionError,
};

#[test]
fn lifecycle_follows_connection_order() {
    let mut lifecycle = SessionLifecycle::connected();

    lifecycle.authenticate().unwrap();
    lifecycle.negotiate().unwrap();
    lifecycle.start_streaming().unwrap();

    assert_eq!(lifecycle.phase(), SessionPhase::Streaming);
}

#[test]
fn lifecycle_rejects_skipped_phase() {
    let mut lifecycle = SessionLifecycle::connected();

    assert_eq!(
        lifecycle.start_streaming(),
        Err(SessionTransitionError {
            current: SessionPhase::Connected,
            attempted: SessionPhase::Streaming,
        })
    );
}

fn in_phase(phase: SessionPhase) -> SessionLifecycle {
    let mut lifecycle = SessionLifecycle::connected();
    if phase == SessionPhase::Connected {
        return lifecycle;
    }
    if phase == SessionPhase::Closed {
        lifecycle.close();
        return lifecycle;
    }
    lifecycle.authenticate().unwrap();
    if phase == SessionPhase::Authenticated {
        return lifecycle;
    }
    lifecycle.negotiate().unwrap();
    if phase == SessionPhase::Negotiated {
        return lifecycle;
    }
    lifecycle.start_streaming().unwrap();
    lifecycle
}

#[test]
fn close_is_safe_from_every_phase_and_is_idempotent() {
    for phase in [
        SessionPhase::Connected,
        SessionPhase::Authenticated,
        SessionPhase::Negotiated,
        SessionPhase::Streaming,
        SessionPhase::Closed,
    ] {
        let mut lifecycle = in_phase(phase);
        assert_eq!(lifecycle.phase(), phase);
        lifecycle.close();
        lifecycle.close();
        assert_eq!(lifecycle.phase(), SessionPhase::Closed);
    }
}
