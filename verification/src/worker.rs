//! Workers: the per-command step logic of an execution agent.
//!
//! A worker consumes commands from its private channel and reports outcomes
//! on the shared update channel. The channel pumping and the execution of a
//! task's command live in the surrounding runtime; this module holds the
//! decisions a worker takes: what to do on each command, and how to turn an
//! execution result into the update it reports.

use crate::task::Task;
use crate::types::{TaskError, TaskId, TaskState, TaskStateView, WorkerCommand, WorkerId,
    WorkerUpdate};
use vstd::prelude::*;
use vstd::string::StringExecFns;
use vstd::utf8::{decode_utf8, valid_utf8};

verus! {

/// What the runtime must do after handing a command to a worker: run a task's
/// command and report back, or halt the worker's loop.
pub enum WorkerAction {
    Run(Task),
    Halt,
}

/// An execution agent. It owns its identity and an advisory busy flag; its
/// command and update channel endpoints live in the surrounding runtime.
pub struct Worker {
    id: WorkerId,
    is_busy: bool,
}

/// Mathematical value of a [`Worker`].
pub struct WorkerView {
    pub id: Seq<char>,
    pub is_busy: bool,
}

impl View for Worker {
    type V = WorkerView;

    closed spec fn view(&self) -> WorkerView {
        WorkerView { id: self.id@, is_busy: self.is_busy }
    }
}

/// The state a finished execution maps to: success becomes `Completed` with
/// the captured output, any execution error becomes `Failed` with its message.
pub open spec fn outcome_state(result: Result<String, TaskError>) -> TaskStateView {
    match result {
        Ok(out) => TaskStateView::Completed(out@),
        Err(e) => TaskStateView::Failed(e@),
    }
}

impl Worker {
    /// Creates an idle worker with the given identity.
    pub fn new(id: WorkerId) -> (w: Worker)
        ensures
            w@.id == id@,
            !w@.is_busy,
    {
        Worker { id, is_busy: false }
    }

    /// The worker's identity.
    pub fn id(&self) -> (r: &WorkerId)
        ensures
            r@ == self@.id,
    {
        &self.id
    }

    /// Whether the worker has begun a task it has not yet reported on.
    /// Advisory bookkeeping only: the scheduler never reads it.
    pub fn is_busy(&self) -> (r: bool)
        ensures
            r == self@.is_busy,
    {
        self.is_busy
    }

    /// One step of the worker's loop: on `ExecuteTask` the worker marks
    /// itself busy and asks the runtime to run the task; on `Stop` it asks
    /// the runtime to end the loop, draining nothing further.
    pub fn on_command(&mut self, command: WorkerCommand) -> (a: WorkerAction)
        ensures
            final(self)@.id == old(self)@.id,
            match command {
                WorkerCommand::ExecuteTask(t) => a == WorkerAction::Run(t)
                    && final(self)@.is_busy,
                WorkerCommand::Stop => a == WorkerAction::Halt
                    && final(self)@.is_busy == old(self)@.is_busy,
            },
    {
        match command {
            WorkerCommand::ExecuteTask(task) => {
                self.is_busy = true;
                WorkerAction::Run(task)
            },
            WorkerCommand::Stop => WorkerAction::Halt,
        }
    }

    /// Turns the result of executing a task's command into the update the
    /// worker reports, and clears the busy flag: success becomes `Completed`
    /// with the output, an error becomes `Failed` with its message.
    pub fn report_outcome(&mut self, task_id: TaskId, result: Result<String, TaskError>) -> (u:
        WorkerUpdate)
        ensures
            final(self)@.id == old(self)@.id,
            !final(self)@.is_busy,
            u@.worker_id == old(self)@.id,
            u@.task_id == task_id@,
            u@.state == outcome_state(result),
    {
        let state = match result {
            Ok(output) => TaskState::Completed(output),
            Err(e) => TaskState::Failed(e.into_message()),
        };
        self.is_busy = false;
        WorkerUpdate { worker_id: self.id.clone(), task_id, state }
    }

    /// Folds a finished process's captured streams into the execution result:
    /// on exit success the decoded stdout, on failure an error embedding the
    /// decoded stderr; a stream that is not valid UTF-8 is itself an error.
    pub fn format_output(&self, status_success: bool, stdout: Vec<u8>, stderr: Vec<u8>) -> (r:
        Result<String, TaskError>)
        ensures
            r is Ok <==> status_success && valid_utf8(stdout@) && valid_utf8(stderr@),
            r is Ok ==> r->Ok_0@ == decode_utf8(stdout@),
            !status_success && valid_utf8(stdout@) && valid_utf8(stderr@) ==> r->Err_0@
                == "Command failed: "@ + decode_utf8(stderr@),
    {
        let stdout_text = match utf8_to_string(stdout) {
            Ok(s) => s,
            Err(m) => {
                return Err(TaskError::new(m));
            },
        };
        let stderr_text = match utf8_to_string(stderr) {
            Ok(s) => s,
            Err(m) => {
                return Err(TaskError::new(m));
            },
        };
        if status_success {
            Ok(stdout_text)
        } else {
            Err(TaskError::new(String::from_str("Command failed: ").concat(stderr_text.as_str())))
        }
    }
}

/// Relies on `String::from_utf8`: it returns `Ok` exactly on valid UTF-8
/// input, with the bytes decoded; on other input the error's message comes
/// from the std error's `Display` and is not specified further.
#[verifier::external_body]
fn utf8_to_string(bytes: Vec<u8>) -> (r: Result<String, String>)
    ensures
        r is Ok <==> valid_utf8(bytes@),
        r is Ok ==> r->Ok_0@ == decode_utf8(bytes@),
{
    String::from_utf8(bytes).map_err(|e| e.to_string())
}

} // verus!
