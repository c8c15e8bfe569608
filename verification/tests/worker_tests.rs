use core_module::task::{Task, TaskCommand};
use core_module::types::{TaskError, TaskState, WorkerCommand};
use core_module::worker::{Worker, WorkerAction};

#[test]
fn new_worker_is_idle() {
    let w = Worker::new(String::from("w1"));
    assert_eq!(w.id(), "w1");
    assert!(!w.is_busy());
}

#[test]
fn execute_command_marks_busy_and_runs_the_task() {
    let mut w = Worker::new(String::from("w1"));
    let t = Task::new(String::from("t1"), TaskCommand::Shell(String::from("echo hi")));
    match w.on_command(WorkerCommand::ExecuteTask(t)) {
        WorkerAction::Run(task) => assert_eq!(task.id, "t1"),
        WorkerAction::Halt => panic!("expected a Run action"),
    }
    assert!(w.is_busy());
}

#[test]
fn stop_command_halts_the_loop() {
    let mut w = Worker::new(String::from("w1"));
    assert!(matches!(w.on_command(WorkerCommand::Stop), WorkerAction::Halt));
    assert!(!w.is_busy());
}

#[test]
fn successful_outcome_reports_completed() {
    let mut w = Worker::new(String::from("w1"));
    let u = w.report_outcome(String::from("t1"), Ok(String::from("hi\n")));
    assert_eq!(u.worker_id, "w1");
    assert_eq!(u.task_id, "t1");
    assert_eq!(u.state, TaskState::Completed(String::from("hi\n")));
    assert!(!w.is_busy());
}

#[test]
fn failed_outcome_reports_the_error_message() {
    let mut w = Worker::new(String::from("w1"));
    let u = w.report_outcome(
        String::from("t1"),
        Err(TaskError::new(String::from("no such file"))),
    );
    assert_eq!(u.state, TaskState::Failed(String::from("no such file")));
}

#[test]
fn format_output_success_returns_stdout() {
    let w = Worker::new(String::from("w1"));
    let r = w.format_output(true, b"hello\n".to_vec(), Vec::new());
    assert_eq!(r.unwrap(), "hello\n");
}

#[test]
fn format_output_failure_embeds_stderr() {
    let w = Worker::new(String::from("w1"));
    let r = w.format_output(false, Vec::new(), b"oops".to_vec());
    assert_eq!(r.unwrap_err().message(), "Command failed: oops");
}

#[test]
fn format_output_rejects_invalid_utf8_stdout() {
    let w = Worker::new(String::from("w1"));
    let r = w.format_output(true, vec![0xff, 0xfe], Vec::new());
    assert!(r.is_err());
}

#[test]
fn format_output_rejects_invalid_utf8_stderr() {
    let w = Worker::new(String::from("w1"));
    let r = w.format_output(true, b"fine".to_vec(), vec![0xc3, 0x28]);
    assert!(r.is_err());
}

#[test]
fn task_error_keeps_its_message() {
    let e = TaskError::new(String::from("spawn failed"));
    assert_eq!(e.message(), "spawn failed");
    assert_eq!(e.into_message(), "spawn failed");
}
