//! A cancellable background-task primitive.
//!
//! A `CancellableTask` runs one long-lived operation.  The operation
//! itself (a future awaited by the surrounding runtime) lives outside
//! this library; here the task is the verified state of that run: whether
//! it was started, whether it was stopped, and whether its completion
//! handler has been invoked.  The completion handler runs exactly once,
//! with either the operation's own outcome or a synthetic stop value.

use vstd::prelude::*;

use crate::error::NetError;

verus! {

/// Lifecycle of a task: single use per start/stop cycle.
#[derive(Clone, Copy, Debug, PartialEq, Eq, Structural)]
pub enum TaskState {
    /// Created but not yet started.
    Created,
    /// The operation has been scheduled and may be running.
    Started,
    /// The task was told to stop (or was stopped before ever starting);
    /// the operation no longer runs.
    Stopped,
}

/// Mathematical value of a [`CancellableTask`].
#[verifier::ext_equal]
pub struct TaskView {
    pub state: TaskState,
    /// Whether the completion handler has already run.
    pub completed: bool,
    /// The synthetic outcome handed to the completion handler when the
    /// task is cancelled rather than finishing on its own.
    pub stop_value: NetError,
}

/// Runs one cancellable background operation with a guaranteed single
/// completion callback.
pub struct CancellableTask {
    state: TaskState,
    completed: bool,
    stop_value: NetError,
}

impl View for CancellableTask {
    type V = TaskView;

    closed spec fn view(&self) -> TaskView {
        TaskView { state: self.state, completed: self.completed, stop_value: self.stop_value }
    }
}

impl CancellableTask {
    /// A task that has not been started yet.
    pub fn new() -> (t: CancellableTask)
        ensures
            t@ == (TaskView {
                state: TaskState::Created,
                completed: false,
                stop_value: NetError::ServiceStopped,
            }),
    {
        CancellableTask {
            state: TaskState::Created,
            completed: false,
            stop_value: NetError::ServiceStopped,
        }
    }

    /// Attaches the operation and schedules it.  Starting an already
    /// started (or stopped) task is an explicit error rather than a
    /// duplicate scheduling.
    pub fn start(&mut self, stop_value: NetError) -> (r: Result<(), NetError>)
        ensures
            old(self)@.state is Created ==> r is Ok && final(self)@ == (TaskView {
                state: TaskState::Started,
                completed: old(self)@.completed,
                stop_value,
            }),
            !(old(self)@.state is Created) ==> r == Err::<(), NetError>(NetError::OperationFailed)
                && final(self)@ == old(self)@,
    {
        match self.state {
            TaskState::Created => {
                self.state = TaskState::Started;
                self.stop_value = stop_value;
                Ok(())
            },
            _ => Err(NetError::OperationFailed),
        }
    }

    /// Signals the running operation to end.  Only the first caller wins:
    /// stopping an already stopped task changes nothing and reports that
    /// it lost, so concurrent triggers can all call `stop` safely.
    pub fn stop(&mut self) -> (won: bool)
        ensures
            final(self)@ == (TaskView {
                state: TaskState::Stopped,
                completed: old(self)@.completed,
                stop_value: old(self)@.stop_value,
            }),
            won == !(old(self)@.state is Stopped),
    {
        let won = !matches!(self.state, TaskState::Stopped);
        self.state = TaskState::Stopped;
        won
    }

    /// Settles the task: picks the value the completion handler receives.
    /// `outcome` is the operation's own result, or `None` when the
    /// operation was cancelled by `stop` before producing one; in that
    /// case the handler receives the synthetic stop value.  The handler
    /// runs exactly once, which is what the precondition enforces.
    pub fn complete(&mut self, outcome: Option<Result<(), NetError>>) -> (v: Result<(), NetError>)
        requires
            !old(self)@.completed,
        ensures
            final(self)@ == (TaskView {
                state: old(self)@.state,
                completed: true,
                stop_value: old(self)@.stop_value,
            }),
            v == (match outcome {
                Some(r) => r,
                None => Err::<(), NetError>(old(self)@.stop_value),
            }),
    {
        self.completed = true;
        match outcome {
            Some(r) => r,
            None => Err(self.stop_value),
        }
    }

    /// Whether the completion handler has run.
    pub fn is_completed(&self) -> (b: bool)
        ensures
            b == self@.completed,
    {
        self.completed
    }

    /// The task's current lifecycle state.
    pub fn state(&self) -> (s: TaskState)
        ensures
            s == self@.state,
    {
        self.state
    }
}

} // verus!
