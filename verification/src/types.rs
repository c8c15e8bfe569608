//! Shared identifier, state, message and error types of the dispatch core.

use crate::task::{Task, TaskView};
use vstd::prelude::*;

verus! {

/// Opaque unique identifier of a task; uniqueness is the submitter's
/// responsibility (no collision detection is performed).
pub type TaskId = String;

/// Opaque unique identifier of a worker.
pub type WorkerId = String;

/// Lifecycle state of a task.
///
/// Legal transitions are `Pending -> Running` (on dispatch) and
/// `Running -> Completed | Failed` (on a worker's report); `Completed` and
/// `Failed` are terminal.
#[derive(Debug, PartialEq)]
pub enum TaskState {
    Pending,
    Running,
    Completed(String),
    Failed(String),
}

/// Mathematical value of a [`TaskState`]: the captured output or error
/// message as a sequence of characters.
pub enum TaskStateView {
    Pending,
    Running,
    Completed(Seq<char>),
    Failed(Seq<char>),
}

impl TaskStateView {
    /// `Completed` and `Failed` are the terminal states.
    pub open spec fn is_terminal(self) -> bool {
        self is Completed || self is Failed
    }
}

impl View for TaskState {
    type V = TaskStateView;

    open spec fn view(&self) -> TaskStateView {
        match self {
            TaskState::Pending => TaskStateView::Pending,
            TaskState::Running => TaskStateView::Running,
            TaskState::Completed(out) => TaskStateView::Completed(out@),
            TaskState::Failed(err) => TaskStateView::Failed(err@),
        }
    }
}

impl Clone for TaskState {
    fn clone(&self) -> (r: Self)
        ensures
            r == *self,
    {
        match self {
            TaskState::Pending => TaskState::Pending,
            TaskState::Running => TaskState::Running,
            TaskState::Completed(out) => TaskState::Completed(out.clone()),
            TaskState::Failed(err) => TaskState::Failed(err.clone()),
        }
    }
}

impl TaskState {
    /// Whether this state is terminal (`Completed` or `Failed`).
    pub fn is_terminal(&self) -> (r: bool)
        ensures
            r == self@.is_terminal(),
    {
        match self {
            TaskState::Completed(_) => true,
            TaskState::Failed(_) => true,
            _ => false,
        }
    }

    /// Whether this state is `Pending`.
    pub fn is_pending(&self) -> (r: bool)
        ensures
            r == (self@ is Pending),
    {
        match self {
            TaskState::Pending => true,
            _ => false,
        }
    }
}

/// An instruction sent from the scheduler to one worker: run a task, or stop.
#[derive(Debug)]
pub enum WorkerCommand {
    ExecuteTask(Task),
    Stop,
}

/// Mathematical value of a [`WorkerCommand`].
pub enum WorkerCommandView {
    ExecuteTask(TaskView),
    Stop,
}

impl View for WorkerCommand {
    type V = WorkerCommandView;

    open spec fn view(&self) -> WorkerCommandView {
        match self {
            WorkerCommand::ExecuteTask(t) => WorkerCommandView::ExecuteTask(t@),
            WorkerCommand::Stop => WorkerCommandView::Stop,
        }
    }
}

/// A worker's report on the shared update channel: the task with id `task_id`
/// has moved to `state`.
#[derive(Debug)]
pub struct WorkerUpdate {
    pub worker_id: WorkerId,
    pub task_id: TaskId,
    pub state: TaskState,
}

/// Mathematical value of a [`WorkerUpdate`].
pub struct WorkerUpdateView {
    pub worker_id: Seq<char>,
    pub task_id: Seq<char>,
    pub state: TaskStateView,
}

impl View for WorkerUpdate {
    type V = WorkerUpdateView;

    open spec fn view(&self) -> WorkerUpdateView {
        WorkerUpdateView {
            worker_id: self.worker_id@,
            task_id: self.task_id@,
            state: self.state@,
        }
    }
}

/// A structured task-execution error carrying a human-readable message.
#[derive(Debug)]
pub struct TaskError {
    message: String,
}

impl View for TaskError {
    type V = Seq<char>;

    closed spec fn view(&self) -> Seq<char> {
        self.message@
    }
}

impl TaskError {
    /// Wraps a message into an error value.
    pub fn new(message: String) -> (e: TaskError)
        ensures
            e@ == message@,
    {
        TaskError { message }
    }

    /// The error's message.
    pub fn message(&self) -> (r: &String)
        ensures
            r@ == self@,
    {
        &self.message
    }

    /// Consumes the error, handing its message out.
    pub fn into_message(self) -> (r: String)
        ensures
            r@ == self@,
    {
        self.message
    }
}

} // verus!
