use core_module::scheduler::{Dispatch, Scheduler};
use core_module::task::{Task, TaskCommand};
use core_module::types::{TaskState, WorkerCommand, WorkerUpdate};

fn shell_task(id: &str, cmd: &str) -> Task {
    Task::new(String::from(id), TaskCommand::Shell(String::from(cmd)))
}

fn completed_update(worker: &str, task: &str, output: &str) -> WorkerUpdate {
    WorkerUpdate {
        worker_id: String::from(worker),
        task_id: String::from(task),
        state: TaskState::Completed(String::from(output)),
    }
}

#[test]
fn new_scheduler_is_empty() {
    let s = Scheduler::new();
    assert!(s.find_available_worker().is_none());
    assert!(s.get_task(&String::from("missing")).is_none());
}

#[test]
fn add_worker_registers_and_rejects_duplicates() {
    let mut s = Scheduler::new();
    assert!(s.add_worker(String::from("w1")));
    assert!(s.add_worker(String::from("w2")));
    assert!(!s.add_worker(String::from("w1")));
    assert_eq!(s.find_available_worker().unwrap(), "w1");
}

#[test]
fn submit_without_worker_stays_pending() {
    let mut s = Scheduler::new();
    let d = s.submit_task(shell_task("t1", "echo hi"));
    assert!(d.is_empty());
    let t = s.get_task(&String::from("t1")).unwrap();
    assert_eq!(t.state, TaskState::Pending);
}

#[test]
fn pending_task_is_dispatched_once_a_worker_registers() {
    let mut s = Scheduler::new();
    assert!(s.submit_task(shell_task("t1", "echo hi")).is_empty());
    assert!(s.add_worker(String::from("w1")));
    // The next pass (submission- or update-triggered) hands the task out.
    let d = s.try_schedule_tasks();
    assert_eq!(d.len(), 1);
    assert_eq!(d[0].worker_id, "w1");
    match &d[0].command {
        WorkerCommand::ExecuteTask(t) => assert_eq!(t.id, "t1"),
        WorkerCommand::Stop => panic!("expected an ExecuteTask command"),
    }
    let t = s.get_task(&String::from("t1")).unwrap();
    assert_eq!(t.state, TaskState::Running);
}

#[test]
fn two_tasks_one_worker_each_dispatched_once_to_it() {
    let mut s = Scheduler::new();
    assert!(s.add_worker(String::from("w1")));
    let d1 = s.submit_task(shell_task("t1", "echo one"));
    assert_eq!(d1.len(), 1);
    assert_eq!(d1[0].worker_id, "w1");
    // The second pass must not re-dispatch the first task.
    let d2 = s.submit_task(shell_task("t2", "echo two"));
    assert_eq!(d2.len(), 1);
    assert_eq!(d2[0].worker_id, "w1");
    match &d2[0].command {
        WorkerCommand::ExecuteTask(t) => assert_eq!(t.id, "t2"),
        WorkerCommand::Stop => panic!("expected an ExecuteTask command"),
    }
    // One update per task settles both.
    let du1 = s.handle_update(completed_update("w1", "t1", "one\n"));
    assert!(du1.is_empty());
    let du2 = s.handle_update(completed_update("w1", "t2", "two\n"));
    assert!(du2.is_empty());
    assert_eq!(
        s.get_task(&String::from("t1")).unwrap().state,
        TaskState::Completed(String::from("one\n"))
    );
    assert_eq!(
        s.get_task(&String::from("t2")).unwrap().state,
        TaskState::Completed(String::from("two\n"))
    );
}

#[test]
fn terminal_state_absorbs_later_updates() {
    let mut s = Scheduler::new();
    assert!(s.add_worker(String::from("w1")));
    s.submit_task(shell_task("t1", "echo hi"));
    s.handle_update(completed_update("w1", "t1", "hi\n"));
    // A later, contradictory report must not move the task out of Completed.
    s.handle_update(WorkerUpdate {
        worker_id: String::from("w1"),
        task_id: String::from("t1"),
        state: TaskState::Failed(String::from("late report")),
    });
    assert_eq!(
        s.get_task(&String::from("t1")).unwrap().state,
        TaskState::Completed(String::from("hi\n"))
    );
}

#[test]
fn replaying_an_update_changes_nothing_further() {
    let mut s = Scheduler::new();
    assert!(s.add_worker(String::from("w1")));
    s.submit_task(shell_task("t1", "echo hi"));
    let d1 = s.handle_update(completed_update("w1", "t1", "hi\n"));
    let d2 = s.handle_update(completed_update("w1", "t1", "hi\n"));
    assert!(d1.is_empty());
    assert!(d2.is_empty());
    assert_eq!(
        s.get_task(&String::from("t1")).unwrap().state,
        TaskState::Completed(String::from("hi\n"))
    );
}

#[test]
fn update_for_unknown_task_is_dropped() {
    let mut s = Scheduler::new();
    assert!(s.add_worker(String::from("w1")));
    let d = s.handle_update(completed_update("w1", "ghost-task", "out"));
    assert!(d.is_empty());
    assert!(s.get_task(&String::from("ghost-task")).is_none());
}

#[test]
fn resubmission_overwrites_the_prior_entry() {
    let mut s = Scheduler::new();
    assert!(s.add_worker(String::from("w1")));
    s.submit_task(shell_task("t1", "echo old"));
    s.handle_update(completed_update("w1", "t1", "old\n"));
    let d = s.submit_task(shell_task("t1", "echo new"));
    assert_eq!(d.len(), 1);
    let t = s.get_task(&String::from("t1")).unwrap();
    match &t.command {
        TaskCommand::Shell(cmd) => assert_eq!(cmd, "echo new"),
        TaskCommand::FileProcess(_) => panic!("expected a Shell command"),
    }
    assert_eq!(t.state, TaskState::Running);
}

#[test]
fn shutdown_addresses_stop_to_every_worker_in_order() {
    let mut s = Scheduler::new();
    assert!(s.add_worker(String::from("w1")));
    assert!(s.add_worker(String::from("w2")));
    let d: Vec<Dispatch> = s.shutdown();
    assert_eq!(d.len(), 2);
    assert_eq!(d[0].worker_id, "w1");
    assert_eq!(d[1].worker_id, "w2");
    assert!(matches!(d[0].command, WorkerCommand::Stop));
    assert!(matches!(d[1].command, WorkerCommand::Stop));
}

#[test]
fn new_task_starts_pending() {
    let t = Task::new(
        String::from("list-files"),
        TaskCommand::Shell(String::from("ls -la")),
    );
    assert_eq!(t.id, "list-files");
    assert_eq!(t.state, TaskState::Pending);
    match &t.command {
        TaskCommand::Shell(cmd) => assert_eq!(cmd, "ls -la"),
        TaskCommand::FileProcess(_) => panic!("expected a Shell command"),
    }
}
