//! Tasks: an immutable identity and command descriptor together with a
//! mutable lifecycle state.

use crate::types::{TaskId, TaskState, TaskStateView};
use vstd::prelude::*;

verus! {

/// What a worker must do for a task: run a shell command, or read a file.
#[derive(Debug)]
pub enum TaskCommand {
    Shell(String),
    FileProcess(String),
}

/// Mathematical value of a [`TaskCommand`]: the command line or path as a
/// sequence of characters.
pub enum TaskCommandView {
    Shell(Seq<char>),
    FileProcess(Seq<char>),
}

impl View for TaskCommand {
    type V = TaskCommandView;

    open spec fn view(&self) -> TaskCommandView {
        match self {
            TaskCommand::Shell(cmd) => TaskCommandView::Shell(cmd@),
            TaskCommand::FileProcess(path) => TaskCommandView::FileProcess(path@),
        }
    }
}

impl Clone for TaskCommand {
    fn clone(&self) -> (r: Self)
        ensures
            r == *self,
    {
        match self {
            TaskCommand::Shell(cmd) => TaskCommand::Shell(cmd.clone()),
            TaskCommand::FileProcess(path) => TaskCommand::FileProcess(path.clone()),
        }
    }
}

/// A unit of work: identity, command descriptor, creation time (milliseconds
/// since the Unix epoch) and lifecycle state.
///
/// The authoritative copy of a task lives in the scheduler's registry and is
/// mutated only by the scheduler; workers receive a copy by value for
/// execution and report back by message.
#[derive(Debug)]
pub struct Task {
    pub id: TaskId,
    pub command: TaskCommand,
    pub created_at: u64,
    pub state: TaskState,
}

/// Mathematical value of a [`Task`].
pub struct TaskView {
    pub id: Seq<char>,
    pub command: TaskCommandView,
    pub created_at: u64,
    pub state: TaskStateView,
}

impl View for Task {
    type V = TaskView;

    open spec fn view(&self) -> TaskView {
        TaskView {
            id: self.id@,
            command: self.command@,
            created_at: self.created_at,
            state: self.state@,
        }
    }
}

impl Clone for Task {
    fn clone(&self) -> (r: Self)
        ensures
            r == *self,
    {
        Task {
            id: self.id.clone(),
            command: self.command.clone(),
            created_at: self.created_at,
            state: self.state.clone(),
        }
    }
}

impl Task {
    /// Creates a task in `Pending` state, stamped with the current wall-clock
    /// time.
    pub fn new(id: TaskId, command: TaskCommand) -> (t: Task)
        ensures
            t@.id == id@,
            t@.command == command@,
            t@.state == TaskStateView::Pending,
    {
        Task { id, command, created_at: now_millis(), state: TaskState::Pending }
    }
}

/// Relies on `std::time::SystemTime::now` and `duration_since(UNIX_EPOCH)` for
/// the current wall-clock time in milliseconds; a clock reading before the
/// epoch, or one past `u64::MAX` milliseconds, yields 0. Nothing is promised
/// of the value: no two readings need agree.
#[verifier::external_body]
fn now_millis() -> u64 {
    match std::time::SystemTime::now().duration_since(std::time::UNIX_EPOCH) {
        Ok(d) => u64::try_from(d.as_millis()).unwrap_or(0),
        Err(_) => 0,
    }
}

} // verus!
