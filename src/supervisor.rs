//! The decisions of the process supervisor: the rounds of the readiness
//! check, and the owner of the backend's process handle.
use vstd::prelude::*;
use crate::error::LaunchError;

verus! {

/// How long the backend has to accept connections after it was started.
pub const BACKEND_TIMEOUT_MS: u64 = 20000;

/// How long one connection attempt may take.
pub const CONNECT_TIMEOUT_MS: u64 = 250;

/// The pause between two connection attempts.
pub const CONNECT_RETRY_MS: u64 = 100;

/// Whether the backend process is still running, or how it ended.
#[derive(Clone, Copy, Debug, PartialEq, Eq, Structural)]
pub enum ProcessStatus {
    Running,
    /// The process ended, with its exit code where it had one.
    Exited(Option<i32>),
}

/// What the readiness check asks its driver to do next.
#[derive(Clone, Debug)]
pub enum PollAction {
    /// Try one connection to the backend's port.
    Probe,
    /// Wait this many milliseconds, then start the next round.
    Sleep(u64),
    /// The backend accepts connections.
    Ready,
    /// Give up with this error.
    Fail(LaunchError),
}

/// The state of the readiness check of a backend on `port`.
#[derive(Clone, Debug)]
pub struct ReadinessPoll {
    pub port: u16,
    pub timeout_ms: u64,
    /// The error of the latest failed connection attempt.
    pub last_error: Option<String>,
}

/// The start of a round: a process that has ended is reported at once with
/// its status; past the deadline the check fails with the elapsed time and
/// the latest connection error; otherwise a connection is tried.
pub open spec fn round_start(p: ReadinessPoll, elapsed_ms: u64, status: ProcessStatus) -> PollAction {
    match status {
        ProcessStatus::Exited(code) => PollAction::Fail(LaunchError::BackendExitedEarly(code)),
        ProcessStatus::Running => if elapsed_ms >= p.timeout_ms {
            PollAction::Fail(
                LaunchError::ReadinessTimeout {
                    port: p.port,
                    elapsed_secs: elapsed_ms / 1000,
                    last_error: p.last_error,
                },
            )
        } else {
            PollAction::Probe
        },
    }
}

impl ReadinessPoll {
    pub fn new(port: u16, timeout_ms: u64) -> (r: ReadinessPoll)
        ensures
            r.port == port,
            r.timeout_ms == timeout_ms,
            r.last_error is None,
    {
        ReadinessPoll { port, timeout_ms, last_error: None }
    }

    /// Starts a round, `elapsed_ms` after the backend was started.
    pub fn begin_round(&self, elapsed_ms: u64, status: ProcessStatus) -> (r: PollAction)
        ensures
            r == round_start(*self, elapsed_ms, status),
    {
        match status {
            ProcessStatus::Exited(code) => PollAction::Fail(LaunchError::BackendExitedEarly(code)),
            ProcessStatus::Running => if elapsed_ms >= self.timeout_ms {
                PollAction::Fail(
                    LaunchError::ReadinessTimeout {
                        port: self.port,
                        elapsed_secs: elapsed_ms / 1000,
                        last_error: self.last_error.clone(),
                    },
                )
            } else {
                PollAction::Probe
            },
        }
    }

    /// Ends a round with the outcome of the connection attempt: success means
    /// ready; a failure is kept for the report and the next round waits.
    pub fn record_probe(&mut self, outcome: Result<(), String>) -> (r: PollAction)
        ensures
            final(self).port == old(self).port,
            final(self).timeout_ms == old(self).timeout_ms,
            match outcome {
                Ok(()) => r is Ready && final(self).last_error == old(self).last_error,
                Err(m) => r == PollAction::Sleep(CONNECT_RETRY_MS) && final(self).last_error
                    == Some(m),
            },
    {
        match outcome {
            Ok(()) => PollAction::Ready,
            Err(m) => {
                self.last_error = Some(m);
                PollAction::Sleep(CONNECT_RETRY_MS)
            },
        }
    }
}

/// A backend that has exited is reported with its exit status in the first
/// round that sees it, however much of the timeout is left, and whatever
/// connection errors came before.
pub proof fn lemma_exit_reported_before_timeout(
    p: ReadinessPoll,
    elapsed_ms: u64,
    code: Option<i32>,
)
    ensures
        round_start(p, elapsed_ms, ProcessStatus::Exited(code)) == PollAction::Fail(
            LaunchError::BackendExitedEarly(code),
        ),
{
}

/// The stages of the backend's life.
#[derive(Clone, Copy, Debug, PartialEq, Eq, Structural)]
pub enum Phase {
    NotStarted,
    Spawning,
    AwaitingReady,
    Ready,
    ShuttingDown,
    Terminated,
}

/// The stage of a supervisor and the process handle it holds.
pub struct SupervisorModel<H> {
    pub phase: Phase,
    pub handle: Option<H>,
}

/// The sole owner of the backend's process handle. The handle is held from
/// the spawn until a shutdown takes it, and only then.
pub struct Supervisor<H> {
    phase: Phase,
    handle: Option<H>,
}

/// A process handle is held exactly while the backend is awaited or ready.
pub open spec fn holds_handle_while_running<H>(m: SupervisorModel<H>) -> bool {
    (m.handle is Some) <==> (m.phase == Phase::AwaitingReady || m.phase == Phase::Ready)
}

pub open spec fn fresh_supervisor<H>() -> SupervisorModel<H> {
    SupervisorModel { phase: Phase::NotStarted, handle: None }
}

/// The first half of a shutdown: the handle, if any, is taken for
/// termination; without one nothing changes.
pub open spec fn after_begin_shutdown<H>(m: SupervisorModel<H>) -> SupervisorModel<H> {
    if m.handle is Some {
        SupervisorModel { phase: Phase::ShuttingDown, handle: None }
    } else {
        m
    }
}

/// The second half: a supervisor that was shutting down has terminated.
pub open spec fn after_finish_shutdown<H>(m: SupervisorModel<H>) -> SupervisorModel<H> {
    if m.phase == Phase::ShuttingDown {
        SupervisorModel { phase: Phase::Terminated, handle: m.handle }
    } else {
        m
    }
}

/// The backend ended on its own while it was being started or awaited: the
/// supervisor goes straight to terminated and gives up the handle.
pub open spec fn after_early_exit<H>(m: SupervisorModel<H>) -> SupervisorModel<H> {
    if m.phase == Phase::Spawning || m.phase == Phase::AwaitingReady {
        SupervisorModel { phase: Phase::Terminated, handle: None }
    } else {
        m
    }
}

/// A whole shutdown: take the handle, terminate the process, record the end.
pub open spec fn after_shutdown<H>(m: SupervisorModel<H>) -> SupervisorModel<H> {
    after_finish_shutdown(after_begin_shutdown(m))
}

impl<H> View for Supervisor<H> {
    type V = SupervisorModel<H>;

    closed spec fn view(&self) -> SupervisorModel<H> {
        SupervisorModel { phase: self.phase, handle: self.handle }
    }
}

impl<H> Supervisor<H> {
    pub fn new() -> (r: Supervisor<H>)
        ensures
            holds_handle_while_running(r@),
            r@ == fresh_supervisor::<H>(),
    {
        Supervisor { phase: Phase::NotStarted, handle: None }
    }

    pub fn phase(&self) -> (r: Phase)
        ensures
            r == self@.phase,
    {
        self.phase
    }

    /// Whether the backend has been seen to accept connections.
    pub fn is_ready(&self) -> (r: bool)
        ensures
            r == (self@.phase == Phase::Ready),
    {
        match self.phase {
            Phase::Ready => true,
            _ => false,
        }
    }

    /// Whether a process handle is held.
    pub fn has_process(&self) -> (r: bool)
        ensures
            r == (self@.handle is Some),
    {
        self.handle.is_some()
    }

    /// Lends the held process, to look at it without giving it up; the stage
    /// does not change.
    pub fn process_mut(&mut self) -> (r: Option<&mut H>)
        ensures
            holds_handle_while_running(old(self)@) ==> holds_handle_while_running(final(self)@),
            match r {
                Some(h) => old(self)@.handle == Some(*h) && final(self)@ == (SupervisorModel {
                    phase: old(self)@.phase,
                    handle: Some(*final(h)),
                }),
                None => old(self)@.handle is None && final(self)@ == old(self)@,
            },
    {
        match &mut self.handle {
            Some(h) => Some(h),
            None => None,
        }
    }

    /// Claims the right to spawn; only a supervisor that never started one
    /// grants it, so at most one backend exists.
    pub fn start_spawn(&mut self) -> (r: bool)
        ensures
            holds_handle_while_running(old(self)@) ==> holds_handle_while_running(final(self)@),
            r == (old(self)@.phase == Phase::NotStarted),
            r ==> final(self)@ == (SupervisorModel { phase: Phase::Spawning, handle: old(self)@.handle }),
            !r ==> final(self)@ == old(self)@,
    {
        match self.phase {
            Phase::NotStarted => {
                self.phase = Phase::Spawning;
                true
            },
            _ => false,
        }
    }

    /// Takes the handle of the process just spawned. Outside of a spawn the
    /// handle is handed back untouched.
    pub fn attach(&mut self, h: H) -> (r: Option<H>)
        ensures
            holds_handle_while_running(old(self)@) ==> holds_handle_while_running(final(self)@),
            old(self)@.phase == Phase::Spawning ==> r is None && final(self)@ == (SupervisorModel {
                phase: Phase::AwaitingReady,
                handle: Some(h),
            }),
            old(self)@.phase != Phase::Spawning ==> r == Some(h) && final(self)@ == old(self)@,
    {
        match self.phase {
            Phase::Spawning => {
                *self = Supervisor { phase: Phase::AwaitingReady, handle: Some(h) };
                None
            },
            _ => Some(h),
        }
    }

    /// Records that the spawn failed: no process exists.
    pub fn spawn_failed(&mut self) -> (r: bool)
        ensures
            holds_handle_while_running(old(self)@) ==> holds_handle_while_running(final(self)@),
            r == (old(self)@.phase == Phase::Spawning),
            r ==> final(self)@ == (SupervisorModel { phase: Phase::Terminated, handle: old(self)@.handle }),
            !r ==> final(self)@ == old(self)@,
    {
        match self.phase {
            Phase::Spawning => {
                self.phase = Phase::Terminated;
                true
            },
            _ => false,
        }
    }

    /// Records that the backend exited before it was ready; the handle, if
    /// any, is handed out so that the ended process can be reaped.
    pub fn record_early_exit(&mut self) -> (r: Option<H>)
        ensures
            holds_handle_while_running(old(self)@) ==> holds_handle_while_running(final(self)@),
            r == if old(self)@.phase == Phase::Spawning || old(self)@.phase == Phase::AwaitingReady {
                old(self)@.handle
            } else {
                None
            },
            final(self)@ == after_early_exit(old(self)@),
    {
        match self.phase {
            Phase::Spawning | Phase::AwaitingReady => {
                self.phase = Phase::Terminated;
                self.handle.take()
            },
            _ => None,
        }
    }

    /// Records that the backend accepts connections.
    pub fn mark_ready(&mut self) -> (r: bool)
        ensures
            holds_handle_while_running(old(self)@) ==> holds_handle_while_running(final(self)@),
            r == (old(self)@.phase == Phase::AwaitingReady),
            r ==> final(self)@ == (SupervisorModel { phase: Phase::Ready, handle: old(self)@.handle }),
            !r ==> final(self)@ == old(self)@,
    {
        match self.phase {
            Phase::AwaitingReady => {
                self.phase = Phase::Ready;
                true
            },
            _ => false,
        }
    }

    /// Takes the process handle for termination. Without a handle, as before
    /// any spawn or after an earlier shutdown, nothing changes.
    pub fn begin_shutdown(&mut self) -> (r: Option<H>)
        ensures
            holds_handle_while_running(old(self)@) ==> holds_handle_while_running(final(self)@),
            r == old(self)@.handle,
            final(self)@ == after_begin_shutdown(old(self)@),
    {
        match self.handle.take() {
            Some(h) => {
                self.phase = Phase::ShuttingDown;
                Some(h)
            },
            None => None,
        }
    }

    /// Records that the process taken by [`Supervisor::begin_shutdown`] has
    /// been terminated and reaped.
    pub fn finish_shutdown(&mut self)
        ensures
            holds_handle_while_running(old(self)@) ==> holds_handle_while_running(final(self)@),
            final(self)@ == after_finish_shutdown(old(self)@),
    {
        match self.phase {
            Phase::ShuttingDown => {
                self.phase = Phase::Terminated;
            },
            _ => {},
        }
    }
}

/// Shutting down a supervisor that never spawned anything does nothing, a
/// second shutdown right after a first does nothing and finds no process,
/// and a shutdown after the backend exited early does nothing either.
pub proof fn lemma_shutdown_idempotent<H>(m: SupervisorModel<H>)
    ensures
        after_shutdown(fresh_supervisor::<H>()) == fresh_supervisor::<H>(),
        after_begin_shutdown(fresh_supervisor::<H>()).handle is None,
        after_shutdown(m).handle is None,
        after_begin_shutdown(after_shutdown(m)) == after_shutdown(m),
        after_shutdown(after_shutdown(m)) == after_shutdown(m),
        (m.phase == Phase::Spawning || m.phase == Phase::AwaitingReady) ==> after_shutdown(
            after_early_exit(m),
        ) == after_early_exit(m) && after_early_exit(m).phase == Phase::Terminated,
{
}

} // verus!
