//! The scheduler: worker and task registries, the dispatch pass, and the
//! per-update processing step.
//!
//! The scheduler owns the authoritative task state. Every submission and
//! every processed update triggers a dispatch pass; the pass decides which
//! `ExecuteTask` commands to send, and the surrounding runtime performs the
//! sends on the workers' channels.

use crate::task::{Task, TaskView};
use crate::types::{TaskId, TaskState, TaskStateView, WorkerCommand, WorkerCommandView, WorkerId,
    WorkerUpdate, WorkerUpdateView};
use vstd::prelude::*;

verus! {

/// A command the dispatch pass decided on, addressed to one worker; the
/// runtime performs the send on that worker's channel.
#[derive(Debug)]
pub struct Dispatch {
    pub worker_id: WorkerId,
    pub command: WorkerCommand,
}

/// Mathematical value of a [`Dispatch`].
pub struct DispatchView {
    pub worker_id: Seq<char>,
    pub command: WorkerCommandView,
}

impl View for Dispatch {
    type V = DispatchView;

    open spec fn view(&self) -> DispatchView {
        DispatchView { worker_id: self.worker_id@, command: self.command@ }
    }
}

/// The views of a list of dispatches, in order.
pub open spec fn dispatch_views(d: Seq<Dispatch>) -> Seq<DispatchView> {
    d.map_values(|x: Dispatch| x@)
}

/// No two tasks of the registry share an id.
pub open spec fn unique_ids(tasks: Seq<TaskView>) -> bool {
    forall|i: int, j: int| 0 <= i < j < tasks.len() ==> tasks[i].id != tasks[j].id
}

/// No two registered workers share an id.
pub open spec fn unique_worker_ids(workers: Seq<Seq<char>>) -> bool {
    forall|i: int, j: int| 0 <= i < j < workers.len() ==> workers[i] != workers[j]
}

/// Whether the registry holds a task with the given id.
pub open spec fn has_task(tasks: Seq<TaskView>, id: Seq<char>) -> bool {
    exists|i: int| 0 <= i < tasks.len() && tasks[i].id == id
}

/// The index of the task with the given id; meaningful when `has_task` holds
/// and ids are unique.
pub open spec fn task_index(tasks: Seq<TaskView>, id: Seq<char>) -> int {
    choose|i: int| 0 <= i < tasks.len() && tasks[i].id == id
}

/// The task as submission enters it into the registry: in `Pending` state,
/// whatever state the submitted value carried.
pub open spec fn pending_of(t: TaskView) -> TaskView {
    TaskView { state: TaskStateView::Pending, ..t }
}

/// Submission's effect on the registry: a task with a fresh id is appended;
/// re-submission under an existing id silently overwrites the prior entry in
/// place. Either way the entry starts out `Pending`.
pub open spec fn insert_task(tasks: Seq<TaskView>, t: TaskView) -> Seq<TaskView> {
    if has_task(tasks, t.id) {
        tasks.update(task_index(tasks, t.id), pending_of(t))
    } else {
        tasks.push(pending_of(t))
    }
}

/// An update's effect on the registry: the task named by the update takes the
/// reported state, unless it already reached a terminal state, which absorbs
/// every later report. An update naming no registered task changes nothing.
pub open spec fn apply_update(tasks: Seq<TaskView>, u: WorkerUpdateView) -> Seq<TaskView> {
    if has_task(tasks, u.task_id) {
        let i = task_index(tasks, u.task_id);
        if tasks[i].state.is_terminal() {
            tasks
        } else {
            tasks.update(i, TaskView { state: u.state, ..tasks[i] })
        }
    } else {
        tasks
    }
}

/// A dispatched task is marked `Running` in the registry; tasks in any other
/// state are left alone.
pub open spec fn mark_one(t: TaskView) -> TaskView {
    if t.state is Pending {
        TaskView { state: TaskStateView::Running, ..t }
    } else {
        t
    }
}

/// The registry after a dispatch pass: with no worker registered nothing
/// changes; otherwise every pending task is handed out and marked `Running`.
pub open spec fn tasks_after_dispatch(tasks: Seq<TaskView>, workers: Seq<Seq<char>>) -> Seq<
    TaskView,
> {
    if workers.len() == 0 {
        tasks
    } else {
        tasks.map_values(|t: TaskView| mark_one(t))
    }
}

/// The commands a dispatch pass sends: one `ExecuteTask` per pending task, in
/// registry order, each addressed to the first registered worker — the
/// deliberately trivial selection policy. With no worker, nothing is sent.
pub open spec fn dispatches_of(tasks: Seq<TaskView>, workers: Seq<Seq<char>>) -> Seq<DispatchView>
    decreases tasks.len(),
{
    if workers.len() == 0 || tasks.len() == 0 {
        Seq::<DispatchView>::empty()
    } else {
        dispatches_of(tasks.drop_last(), workers) + (if tasks.last().state is Pending {
            seq![
                DispatchView {
                    worker_id: workers[0],
                    command: WorkerCommandView::ExecuteTask(tasks.last()),
                },
            ]
        } else {
            Seq::<DispatchView>::empty()
        })
    }
}

/// The central coordinator: the worker registry (in registration order) and
/// the task registry (in submission order). Its channel endpoints live in the
/// surrounding runtime.
pub struct Scheduler {
    workers: Vec<WorkerId>,
    tasks: Vec<Task>,
}

/// Mathematical value of a [`Scheduler`]: the registered worker ids and the
/// registered tasks, each in registry order.
pub struct SchedulerView {
    pub workers: Seq<Seq<char>>,
    pub tasks: Seq<TaskView>,
}

impl View for Scheduler {
    type V = SchedulerView;

    closed spec fn view(&self) -> SchedulerView {
        SchedulerView {
            workers: self.workers@.map_values(|w: WorkerId| w@),
            tasks: self.tasks@.map_values(|t: Task| t@),
        }
    }
}

impl Scheduler {
    /// Registry well-formedness: worker ids and task ids are unique.
    pub open spec fn wf(&self) -> bool {
        unique_ids(self@.tasks) && unique_worker_ids(self@.workers)
    }

    /// Creates a scheduler with empty registries.
    pub fn new() -> (s: Scheduler)
        ensures
            s.wf(),
            s@.workers == Seq::<Seq<char>>::empty(),
            s@.tasks == Seq::<TaskView>::empty(),
    {
        let s = Scheduler { workers: Vec::new(), tasks: Vec::new() };
        proof {
            assert(s@.workers =~= Seq::<Seq<char>>::empty());
            assert(s@.tasks =~= Seq::<TaskView>::empty());
        }
        s
    }

    /// The worker the trivial selection policy targets: the first registered
    /// worker, independent of its busy or idle status.
    pub fn find_available_worker(&self) -> (r: Option<&WorkerId>)
        ensures
            r is Some <==> self@.workers.len() > 0,
            r matches Some(w) ==> w@ == self@.workers[0],
    {
        if self.workers.len() == 0 {
            None
        } else {
            Some(&self.workers[0])
        }
    }

    /// The index of the task with the given id, if one is registered.
    #[verifier::loop_isolation(false)]
    fn find_task_index(&self, id: &TaskId) -> (r: Option<usize>)
        requires
            self.wf(),
        ensures
            match r {
                Some(i) => i < self@.tasks.len() && self@.tasks[i as int].id == id@ && has_task(
                    self@.tasks,
                    id@,
                ) && task_index(self@.tasks, id@) == i as int,
                None => !has_task(self@.tasks, id@),
            },
    {
        let n = self.tasks.len();
        let mut i: usize = 0;
        while i < n
            invariant
                n == self@.tasks.len(),
                i <= n,
                forall|k: int| 0 <= k < i ==> self@.tasks[k].id != id@,
            decreases n - i,
        {
            if self.tasks[i].id == *id {
                proof {
                    lemma_task_index_of(self@.tasks, id@, i as int);
                }
                return Some(i);
            }
            i += 1;
        }
        None
    }

    /// Registers a worker. Registration fails, changing nothing, if the id is
    /// already registered; the caller then must not reuse the id.
    #[verifier::loop_isolation(false)]
    pub fn add_worker(&mut self, worker_id: WorkerId) -> (added: bool)
        requires
            old(self).wf(),
        ensures
            final(self).wf(),
            final(self)@.tasks == old(self)@.tasks,
            added <==> !old(self)@.workers.contains(worker_id@),
            added ==> final(self)@.workers == old(self)@.workers.push(worker_id@),
            !added ==> final(self)@.workers == old(self)@.workers,
    {
        let n = self.workers.len();
        let mut i: usize = 0;
        while i < n
            invariant
                n == self@.workers.len(),
                i <= n,
                forall|k: int| 0 <= k < i ==> self@.workers[k] != worker_id@,
            decreases n - i,
        {
            if self.workers[i] == worker_id {
                proof {
                    assert(self@.workers[i as int] == worker_id@);
                    assert(old(self)@.workers.contains(worker_id@));
                }
                return false;
            }
            i += 1;
        }
        proof {
            assert(forall|k: int|
                0 <= k < old(self)@.workers.len() ==> old(self)@.workers[k] != worker_id@);
            assert(!old(self)@.workers.contains(worker_id@));
        }
        self.workers.push(worker_id);
        proof {
            assert(self@.workers =~= old(self)@.workers.push(worker_id@));
            assert(self@.tasks =~= old(self)@.tasks);
        }
        true
    }

    /// One dispatch pass: every pending task is handed to the worker the
    /// selection policy picks and marked `Running` in the registry; with no
    /// worker registered, nothing changes and nothing is sent. The returned
    /// commands are for the runtime to send, in order.
    #[verifier::loop_isolation(false)]
    pub fn try_schedule_tasks(&mut self) -> (d: Vec<Dispatch>)
        requires
            old(self).wf(),
        ensures
            final(self).wf(),
            final(self)@.workers == old(self)@.workers,
            final(self)@.tasks == tasks_after_dispatch(old(self)@.tasks, old(self)@.workers),
            dispatch_views(d@) == dispatches_of(old(self)@.tasks, old(self)@.workers),
    {
        let mut dispatches: Vec<Dispatch> = Vec::new();
        if self.workers.len() == 0 {
            proof {
                assert(dispatch_views(dispatches@) =~= Seq::<DispatchView>::empty());
            }
            return dispatches;
        }
        let ghost pre = self@;
        let target = self.workers[0].clone();
        let n = self.tasks.len();
        let mut i: usize = 0;
        while i < n
            invariant
                pre.workers.len() > 0,
                n == self@.tasks.len(),
                n == pre.tasks.len(),
                i <= n,
                self@.workers == pre.workers,
                target@ == pre.workers[0],
                forall|k: int| i <= k < n ==> self@.tasks[k] == pre.tasks[k],
                forall|k: int| 0 <= k < i ==> self@.tasks[k] == mark_one(pre.tasks[k]),
                dispatch_views(dispatches@) == dispatches_of(pre.tasks.take(i as int), pre.workers),
            decreases n - i,
        {
            let ghost before_tasks = self@.tasks;
            let ghost before_views = dispatch_views(dispatches@);
            if self.tasks[i].state.is_pending() {
                let run_copy = self.tasks[i].clone();
                let mut marked = self.tasks[i].clone();
                marked.state = TaskState::Running;
                self.tasks[i] = marked;
                dispatches.push(
                    Dispatch {
                        worker_id: target.clone(),
                        command: WorkerCommand::ExecuteTask(run_copy),
                    },
                );
                proof {
                    assert(self@.tasks =~= before_tasks.update(
                        i as int,
                        mark_one(pre.tasks[i as int]),
                    ));
                    let dv = DispatchView {
                        worker_id: pre.workers[0],
                        command: WorkerCommandView::ExecuteTask(pre.tasks[i as int]),
                    };
                    assert(dispatch_views(dispatches@) =~= before_views.push(dv));
                    lemma_dispatches_of_take_step(pre.tasks, pre.workers, i as int);
                    assert(before_views.push(dv) =~= before_views + seq![dv]);
                }
            } else {
                proof {
                    lemma_dispatches_of_take_step(pre.tasks, pre.workers, i as int);
                    assert(dispatch_views(dispatches@) + Seq::<DispatchView>::empty()
                        =~= dispatch_views(dispatches@));
                }
            }
            i += 1;
        }
        proof {
            assert(pre.tasks.take(n as int) =~= pre.tasks);
            assert(self@.tasks =~= pre.tasks.map_values(|t: TaskView| mark_one(t)));
            assert(forall|k: int|
                0 <= k < self@.tasks.len() ==> self@.tasks[k].id == pre.tasks[k].id);
        }
        dispatches
    }

    /// Submits a task: it enters the registry in `Pending` state (an existing
    /// entry under the same id is silently overwritten), then a dispatch pass
    /// runs. The returned commands are for the runtime to send, in order.
    pub fn submit_task(&mut self, task: Task) -> (d: Vec<Dispatch>)
        requires
            old(self).wf(),
        ensures
            final(self).wf(),
            final(self)@.workers == old(self)@.workers,
            final(self)@.tasks == tasks_after_dispatch(
                insert_task(old(self)@.tasks, task@),
                old(self)@.workers,
            ),
            dispatch_views(d@) == dispatches_of(
                insert_task(old(self)@.tasks, task@),
                old(self)@.workers,
            ),
    {
        let mut entry = task;
        entry.state = TaskState::Pending;
        match self.find_task_index(&entry.id) {
            Some(i) => {
                self.tasks[i] = entry;
                proof {
                    assert(self@.tasks =~= insert_task(old(self)@.tasks, task@));
                    assert(forall|k: int|
                        0 <= k < self@.tasks.len() ==> self@.tasks[k].id == old(
                            self,
                        )@.tasks[k].id);
                }
            },
            None => {
                self.tasks.push(entry);
                proof {
                    assert(self@.tasks =~= insert_task(old(self)@.tasks, task@));
                }
            },
        }
        self.try_schedule_tasks()
    }

    /// Processes one worker update: the named task takes the reported state
    /// unless it is unknown (the update is silently dropped) or already
    /// terminal (terminal states absorb every later report); then a dispatch
    /// pass runs. The returned commands are for the runtime to send, in
    /// order.
    pub fn handle_update(&mut self, update: WorkerUpdate) -> (d: Vec<Dispatch>)
        requires
            old(self).wf(),
        ensures
            final(self).wf(),
            final(self)@.workers == old(self)@.workers,
            final(self)@.tasks == tasks_after_dispatch(
                apply_update(old(self)@.tasks, update@),
                old(self)@.workers,
            ),
            dispatch_views(d@) == dispatches_of(
                apply_update(old(self)@.tasks, update@),
                old(self)@.workers,
            ),
    {
        let ghost u = update@;
        match self.find_task_index(&update.task_id) {
            Some(i) => {
                if !self.tasks[i].state.is_terminal() {
                    let mut changed = self.tasks[i].clone();
                    changed.state = update.state;
                    self.tasks[i] = changed;
                    proof {
                        assert(self@.tasks =~= apply_update(old(self)@.tasks, u));
                        assert(forall|k: int|
                            0 <= k < self@.tasks.len() ==> self@.tasks[k].id == old(
                                self,
                            )@.tasks[k].id);
                    }
                } else {
                    proof {
                        assert(self@.tasks == apply_update(old(self)@.tasks, u));
                    }
                }
            },
            None => {
                proof {
                    assert(self@.tasks == apply_update(old(self)@.tasks, u));
                }
            },
        }
        self.try_schedule_tasks()
    }

    /// Looks a task up by id, exposing the authoritative registry entry.
    pub fn get_task(&self, task_id: &TaskId) -> (r: Option<&Task>)
        requires
            self.wf(),
        ensures
            r is Some <==> has_task(self@.tasks, task_id@),
            r matches Some(t) ==> t@ == self@.tasks[task_index(self@.tasks, task_id@)],
    {
        match self.find_task_index(task_id) {
            Some(i) => Some(&self.tasks[i]),
            None => None,
        }
    }

    /// The shutdown path: one `Stop` per registered worker, in registration
    /// order, for the runtime to send before closing the update channel.
    #[verifier::loop_isolation(false)]
    pub fn shutdown(&self) -> (d: Vec<Dispatch>)
        ensures
            dispatch_views(d@) == stop_all(self@.workers),
    {
        let mut dispatches: Vec<Dispatch> = Vec::new();
        let n = self.workers.len();
        let mut i: usize = 0;
        while i < n
            invariant
                n == self@.workers.len(),
                i <= n,
                dispatch_views(dispatches@) == stop_all(self@.workers.take(i as int)),
            decreases n - i,
        {
            let ghost before_views = dispatch_views(dispatches@);
            dispatches.push(
                Dispatch { worker_id: self.workers[i].clone(), command: WorkerCommand::Stop },
            );
            proof {
                let dv = DispatchView {
                    worker_id: self@.workers[i as int],
                    command: WorkerCommandView::Stop,
                };
                assert(dispatch_views(dispatches@) =~= before_views.push(dv));
                assert(stop_all(self@.workers.take(i as int + 1)) =~= stop_all(
                    self@.workers.take(i as int),
                ).push(dv));
            }
            i += 1;
        }
        proof {
            assert(self@.workers.take(n as int) =~= self@.workers);
        }
        dispatches
    }
}

/// One `Stop` addressed to each of the given workers, in order.
pub open spec fn stop_all(workers: Seq<Seq<char>>) -> Seq<DispatchView> {
    workers.map_values(
        |w: Seq<char>| (DispatchView { worker_id: w, command: WorkerCommandView::Stop }),
    )
}

/// With unique ids, the index of a task pins down `task_index`.
proof fn lemma_task_index_of(tasks: Seq<TaskView>, id: Seq<char>, i: int)
    requires
        unique_ids(tasks),
        0 <= i < tasks.len(),
        tasks[i].id == id,
    ensures
        has_task(tasks, id),
        task_index(tasks, id) == i,
{
    assert(has_task(tasks, id));
    let j = task_index(tasks, id);
    assert(0 <= j < tasks.len() && tasks[j].id == id);
    if i < j {
        assert(tasks[i].id != tasks[j].id);
    } else if j < i {
        assert(tasks[j].id != tasks[i].id);
    }
}

/// The tasks a dispatch pass hands out: the pending ones, in registry order.
pub open spec fn pending_tasks(tasks: Seq<TaskView>) -> Seq<TaskView> {
    tasks.filter(|t: TaskView| t.state is Pending)
}

/// A task never transitions out of a terminal state: once an entry of the
/// registry is `Completed` or `Failed`, no update and no dispatch pass
/// changes it again.
pub proof fn lemma_terminal_state_absorbing(
    tasks: Seq<TaskView>,
    u: WorkerUpdateView,
    workers: Seq<Seq<char>>,
    i: int,
)
    requires
        0 <= i < tasks.len(),
        tasks[i].state.is_terminal(),
    ensures
        apply_update(tasks, u).len() == tasks.len(),
        apply_update(tasks, u)[i] == tasks[i],
        tasks_after_dispatch(tasks, workers).len() == tasks.len(),
        tasks_after_dispatch(tasks, workers)[i] == tasks[i],
{
}

/// Update processing is idempotent per update message: replaying the
/// identical update leaves the registry exactly as after its first
/// application.
pub proof fn lemma_update_idempotent(tasks: Seq<TaskView>, u: WorkerUpdateView)
    requires
        unique_ids(tasks),
    ensures
        apply_update(apply_update(tasks, u), u) == apply_update(tasks, u),
{
    if has_task(tasks, u.task_id) {
        let i = task_index(tasks, u.task_id);
        assert(0 <= i < tasks.len() && tasks[i].id == u.task_id);
        if !tasks[i].state.is_terminal() {
            let t1 = apply_update(tasks, u);
            assert(forall|k: int| 0 <= k < tasks.len() ==> t1[k].id == tasks[k].id);
            assert(unique_ids(t1));
            lemma_task_index_of(t1, u.task_id, i);
            if !u.state.is_terminal() {
                assert(apply_update(t1, u) =~= t1);
            }
        }
    }
}

/// With no worker registered, a dispatch pass changes nothing and sends
/// nothing: a submitted task stays `Pending` until a worker registers.
pub proof fn lemma_no_worker_no_dispatch(tasks: Seq<TaskView>, workers: Seq<Seq<char>>)
    requires
        workers.len() == 0,
    ensures
        tasks_after_dispatch(tasks, workers) == tasks,
        dispatches_of(tasks, workers) == Seq::<DispatchView>::empty(),
{
}

/// With at least one worker registered, a dispatch pass leaves no task
/// pending: every task that could wait has been handed out.
pub proof fn lemma_dispatch_clears_pending(tasks: Seq<TaskView>, workers: Seq<Seq<char>>)
    requires
        workers.len() > 0,
    ensures
        tasks_after_dispatch(tasks, workers).len() == tasks.len(),
        forall|i: int|
            0 <= i < tasks.len() ==> !((#[trigger] tasks_after_dispatch(tasks, workers)[i]).state
                is Pending),
{
}

/// With at least one worker registered, a dispatch pass sends exactly one
/// `ExecuteTask` per pending task, in registry order, every one of them
/// addressed to the first registered worker.
pub proof fn lemma_one_dispatch_per_pending(tasks: Seq<TaskView>, workers: Seq<Seq<char>>)
    requires
        workers.len() > 0,
    ensures
        dispatches_of(tasks, workers).len() == pending_tasks(tasks).len(),
        forall|j: int|
            0 <= j < pending_tasks(tasks).len() ==> #[trigger] dispatches_of(tasks, workers)[j]
                == (DispatchView {
                worker_id: workers[0],
                command: WorkerCommandView::ExecuteTask(pending_tasks(tasks)[j]),
            }),
    decreases tasks.len(),
{
    reveal(Seq::filter);
    if tasks.len() > 0 {
        lemma_one_dispatch_per_pending(tasks.drop_last(), workers);
    }
}

/// A registry with no pending entry yields an empty dispatch list's worth of
/// pending tasks.
proof fn lemma_no_pending_filter_empty(tasks: Seq<TaskView>)
    requires
        forall|i: int| 0 <= i < tasks.len() ==> !(tasks[i].state is Pending),
    ensures
        pending_tasks(tasks) =~= Seq::<TaskView>::empty(),
    decreases tasks.len(),
{
    reveal(Seq::filter);
    if tasks.len() > 0 {
        lemma_no_pending_filter_empty(tasks.drop_last());
    }
}

/// Submitting a task under a fresh id while no other task is pending — the
/// situation after every earlier submission has been handed out — produces
/// exactly one `ExecuteTask`, carrying that task and addressed to the first
/// registered worker. Two submissions with distinct ids while one worker is
/// registered therefore each yield one dispatch to that same worker.
pub proof fn lemma_fresh_submission_single_dispatch(
    tasks: Seq<TaskView>,
    workers: Seq<Seq<char>>,
    t: TaskView,
)
    requires
        workers.len() > 0,
        !has_task(tasks, t.id),
        forall|i: int| 0 <= i < tasks.len() ==> !(tasks[i].state is Pending),
    ensures
        dispatches_of(insert_task(tasks, t), workers) == seq![
            DispatchView {
                worker_id: workers[0],
                command: WorkerCommandView::ExecuteTask(pending_of(t)),
            },
        ],
{
    let inserted = insert_task(tasks, t);
    assert(inserted == tasks.push(pending_of(t)));
    reveal(Seq::filter);
    lemma_no_pending_filter_empty(tasks);
    assert(inserted.drop_last() =~= tasks);
    assert(pending_tasks(inserted) =~= seq![pending_of(t)]);
    lemma_one_dispatch_per_pending(inserted, workers);
    let dv = DispatchView {
        worker_id: workers[0],
        command: WorkerCommandView::ExecuteTask(pending_of(t)),
    };
    assert(dispatches_of(inserted, workers) =~= seq![dv]);
}

/// Unrolls `dispatches_of` one prefix step at a time.
proof fn lemma_dispatches_of_take_step(tasks: Seq<TaskView>, workers: Seq<Seq<char>>, i: int)
    requires
        workers.len() > 0,
        0 <= i < tasks.len(),
    ensures
        dispatches_of(tasks.take(i + 1), workers) == dispatches_of(tasks.take(i), workers) + (
        if tasks[i].state is Pending {
            seq![
                DispatchView {
                    worker_id: workers[0],
                    command: WorkerCommandView::ExecuteTask(tasks[i]),
                },
            ]
        } else {
            Seq::<DispatchView>::empty()
        }),
{
    assert(tasks.take(i + 1).drop_last() =~= tasks.take(i));
    assert(tasks.take(i + 1).last() == tasks[i]);
}

} // verus!
