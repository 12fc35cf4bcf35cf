//! Transport-independent session lifecycle.

use vstd::prelude::*;

verus! {

#[derive(Clone, Copy, Debug, PartialEq, Eq, Structural)]
pub enum SessionPhase {
    Connected,
    Authenticated,
    Negotiated,
    Streaming,
    Closed,
}

/// A step that the session is not ready for.
#[derive(Clone, Copy, Debug, PartialEq, Eq, Structural)]
pub struct SessionTransitionError {
    pub current: SessionPhase,
    pub attempted: SessionPhase,
}

#[derive(Clone, Copy, Debug, PartialEq, Eq, Structural)]
pub struct SessionLifecycle {
    phase: SessionPhase,
}

impl View for SessionLifecycle {
    type V = SessionPhase;

    closed spec fn view(&self) -> SessionPhase {
        self.phase
    }
}

/// The phase after a step from `expected` to `next`, tried in `current`.
pub open spec fn stepped(current: SessionPhase, expected: SessionPhase, next: SessionPhase) -> (
    SessionPhase,
    Result<(), SessionTransitionError>,
) {
    if current == expected {
        (next, Ok(()))
    } else {
        (current, Err(SessionTransitionError { current, attempted: next }))
    }
}

impl SessionLifecycle {
    #[must_use]
    pub fn connected() -> (lifecycle: Self)
        ensures
            lifecycle@ == SessionPhase::Connected,
    {
        SessionLifecycle { phase: SessionPhase::Connected }
    }

    #[must_use]
    pub fn phase(self) -> (phase: SessionPhase)
        ensures
            phase == self@,
    {
        self.phase
    }

    pub fn authenticate(&mut self) -> (result: Result<(), SessionTransitionError>)
        ensures
            (final(self)@, result) == stepped(
                old(self)@,
                SessionPhase::Connected,
                SessionPhase::Authenticated,
            ),
    {
        self.transition(SessionPhase::Connected, SessionPhase::Authenticated)
    }

    pub fn negotiate(&mut self) -> (result: Result<(), SessionTransitionError>)
        ensures
            (final(self)@, result) == stepped(
                old(self)@,
                SessionPhase::Authenticated,
                SessionPhase::Negotiated,
            ),
    {
        self.transition(SessionPhase::Authenticated, SessionPhase::Negotiated)
    }

    pub fn start_streaming(&mut self) -> (result: Result<(), SessionTransitionError>)
        ensures
            (final(self)@, result) == stepped(
                old(self)@,
                SessionPhase::Negotiated,
                SessionPhase::Streaming,
            ),
    {
        self.transition(SessionPhase::Negotiated, SessionPhase::Streaming)
    }

    pub fn close(&mut self)
        ensures
            final(self)@ == SessionPhase::Closed,
    {
        self.phase = SessionPhase::Closed;
    }

    fn transition(&mut self, expected: SessionPhase, next: SessionPhase) -> (result: Result<
        (),
        SessionTransitionError,
    >)
        ensures
            (final(self)@, result) == stepped(old(self)@, expected, next),
    {
        if self.phase != expected {
            return Err(SessionTransitionError { current: self.phase, attempted: next });
        }
        self.phase = next;
        Ok(())
    }
}

/// How far a phase is along the connection order.
pub open spec fn rank(phase: SessionPhase) -> int {
    match phase {
        SessionPhase::Connected => 0,
        SessionPhase::Authenticated => 1,
        SessionPhase::Negotiated => 2,
        SessionPhase::Streaming => 3,
        SessionPhase::Closed => 4,
    }
}

/// Steps follow the connection order one by one and are never taken back; a
/// closed session takes none.
pub proof fn law_phases_follow_connection_order(
    current: SessionPhase,
    expected: SessionPhase,
    next: SessionPhase,
)
    requires
        rank(next) == rank(expected) + 1,
        next != SessionPhase::Closed,
    ensures
        stepped(current, expected, next).1 is Ok ==> rank(stepped(current, expected, next).0)
            == rank(current) + 1,
        stepped(current, expected, next).1 is Err ==> stepped(current, expected, next).0 == current,
        current == SessionPhase::Closed ==> stepped(current, expected, next).1 is Err,
{
}

/// A step is taken exactly from the phase that it starts at, and leads to its
/// own; a refused one changes nothing and names both.
pub proof fn law_steps_start_where_they_start(
    current: SessionPhase,
    expected: SessionPhase,
    next: SessionPhase,
)
    ensures
        stepped(current, expected, next).1 is Ok <==> current == expected,
        stepped(current, expected, next).1 is Ok ==> stepped(current, expected, next).0 == next,
        stepped(current, expected, next).1 matches Err(error) ==> error.current == current
            && error.attempted == next && stepped(current, expected, next).0 == current,
{
}

} // verus!
