//! The course of an exec session: a command run inside the container of a
//! workload. The runtime owns the session; this is what the daemon may
//! rely on when it starts one, streams its output and inspects it.

use vstd::prelude::*;

verus! {

/// Where an exec session stands.
#[derive(Clone, Copy, Debug, PartialEq, Eq, Structural)]
pub enum ExecSession {
    /// The session exists and its command has not been started.
    Created,
    /// The command runs and its output is streamed.
    Running,
    /// The command has left or the stream was closed. The exit code is
    /// there where the command has left.
    Finished { exit_code: Option<i64> },
}

/// What happens to an exec session.
#[derive(Clone, Copy, Debug, PartialEq, Eq, Structural)]
pub enum ExecEvent {
    /// The command is started.
    Start,
    /// The command leaves with this exit code.
    Exit { exit_code: i64 },
    /// The stream of the command's output is closed.
    StreamClosed,
}

/// What inspecting an exec session tells.
#[derive(Clone, Copy, Debug, PartialEq, Eq, Structural)]
pub struct ExecInspect {
    pub running: bool,
    pub exit_code: Option<i64>,
}

impl ExecSession {
    /// Where the session stands after the event. A created session is
    /// started; a running one ends when its command leaves or its stream is
    /// closed; nothing else changes a session, and nothing changes a
    /// finished one.
    pub open spec fn after(self, event: ExecEvent) -> ExecSession {
        match (self, event) {
            (ExecSession::Created, ExecEvent::Start) => ExecSession::Running,
            (ExecSession::Running, ExecEvent::Exit { exit_code }) => ExecSession::Finished {
                exit_code: Some(exit_code),
            },
            (ExecSession::Running, ExecEvent::StreamClosed) => ExecSession::Finished {
                exit_code: None,
            },
            _ => self,
        }
    }

    /// What inspecting the session tells.
    pub open spec fn inspected(self) -> ExecInspect {
        match self {
            ExecSession::Created => ExecInspect { running: false, exit_code: None },
            ExecSession::Running => ExecInspect { running: true, exit_code: None },
            ExecSession::Finished { exit_code } => ExecInspect { running: false, exit_code },
        }
    }

    /// A session as the runtime creates it.
    pub fn new() -> (res: ExecSession)
        ensures
            res == ExecSession::Created,
    {
        ExecSession::Created
    }

    /// Takes the session through the event.
    pub fn on(self, event: ExecEvent) -> (res: ExecSession)
        ensures
            res == self.after(event),
    {
        match self {
            ExecSession::Created => match event {
                ExecEvent::Start => ExecSession::Running,
                _ => self,
            },
            ExecSession::Running => match event {
                ExecEvent::Exit { exit_code } => ExecSession::Finished {
                    exit_code: Some(exit_code),
                },
                ExecEvent::StreamClosed => ExecSession::Finished { exit_code: None },
                ExecEvent::Start => self,
            },
            ExecSession::Finished { .. } => self,
        }
    }

    /// Inspects the session: whether its command runs, and the exit code
    /// once the command has left.
    pub fn inspect(&self) -> (res: ExecInspect)
        ensures
            res == self.inspected(),
    {
        match self {
            ExecSession::Created => ExecInspect { running: false, exit_code: None },
            ExecSession::Running => ExecInspect { running: true, exit_code: None },
            ExecSession::Finished { exit_code } => ExecInspect {
                running: false,
                exit_code: *exit_code,
            },
        }
    }
}

/// Where a session stands after the events, taken in this order.
pub open spec fn after_all(session: ExecSession, events: Seq<ExecEvent>) -> ExecSession
    decreases events.len(),
{
    if events.len() == 0 {
        session
    } else {
        after_all(session, events.drop_last()).after(events.last())
    }
}

/// A finished session stays as it is, whatever happens: it does not run
/// again and it keeps its exit code.
pub proof fn lemma_finished_is_final(exit_code: Option<i64>, events: Seq<ExecEvent>)
    ensures
        after_all(ExecSession::Finished { exit_code }, events) == (ExecSession::Finished {
            exit_code,
        }),
    decreases events.len(),
{
    if events.len() > 0 {
        lemma_finished_is_final(exit_code, events.drop_last());
    }
}

/// A session that is started and whose command then leaves tells its exit
/// code when it is inspected, also after its stream was closed.
pub proof fn lemma_exit_code_is_kept(exit_code: i64, later: Seq<ExecEvent>)
    ensures
        after_all(
            ExecSession::Created.after(ExecEvent::Start).after(ExecEvent::Exit { exit_code }),
            later,
        ).inspected() == (ExecInspect { running: false, exit_code: Some(exit_code) }),
{
    lemma_finished_is_final(Some(exit_code), later);
}

} // verus!
