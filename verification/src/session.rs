use vstd::prelude::*;

verus! {

/// Failures of session setup: the pseudo-terminal pair could not be
/// allocated, or the child process could not be created. A failure of the
/// child's own exec has no return path and shows only as an immediate EOF.
#[derive(Clone, Copy, PartialEq, Eq, Structural, Debug)]
pub enum SessionError {
    AllocationFailed,
    ForkFailed,
}

/// Lifecycle of a PTY session: running, or exited with the child's code.
/// `Exited` is terminal.
#[derive(Clone, Copy, PartialEq, Eq, Structural, Debug)]
pub enum SessionState {
    Running,
    Exited(i32),
}

/// What the loop around the session must do next: hand the first `n`
/// bytes of the chunk just read to the interpreter, or stop reading.
#[derive(Clone, Copy, PartialEq, Eq, Structural, Debug)]
pub enum SessionAction {
    FeedBytes(usize),
    Stop,
}

/// Decide on the result of one read from the PTY master. The session
/// machine is: EXITED is terminal; a zero-length read is the child's EOF
/// and ends the session; any other read keeps it running and feeds the
/// interpreter.
pub fn session_on_read(state: SessionState, nread: usize) -> (r: (SessionState, SessionAction))
    ensures
        state is Exited ==> r.0 == state && r.1 == SessionAction::Stop,
        state is Running && nread == 0 ==> r.0 == SessionState::Exited(0) && r.1
            == SessionAction::Stop,
        state is Running && nread > 0 ==> r.0 == SessionState::Running && r.1
            == SessionAction::FeedBytes(nread),
{
    match state {
        SessionState::Exited(_) => (state, SessionAction::Stop),
        SessionState::Running => {
            if nread == 0 {
                (SessionState::Exited(0), SessionAction::Stop)
            } else {
                (SessionState::Running, SessionAction::FeedBytes(nread))
            }
        },
    }
}

/// Decide on a wait-status report: a running session ends with the
/// child's code; a session already ended keeps its first code.
pub fn session_on_child_exit(state: SessionState, code: i32) -> (r: SessionState)
    ensures
        state is Running ==> r == SessionState::Exited(code),
        state is Exited ==> r == state,
{
    match state {
        SessionState::Running => SessionState::Exited(code),
        SessionState::Exited(_) => state,
    }
}

} // verus!
