use flash_watcher::{CommandRunner, RunError, RunReport, SpawnOutcome};

fn words(list: &[&str]) -> Vec<String> {
    list.iter().map(|w| w.to_string()).collect()
}

#[test]
fn plan_of_plain_runner() {
    let runner = CommandRunner::new(words(&["echo", "hello", "world"]), false, true);
    let plan = runner.plan_run();
    assert_eq!(plan.terminate, None);
    assert!(plan.clear_console);
    assert_eq!(plan.command_line, "echo hello world");
}

#[test]
fn plan_of_restart_runner_without_process() {
    let runner = CommandRunner::new(words(&["npm", "start"]), true, false);
    let plan = runner.plan_run();
    assert_eq!(plan.terminate, None);
    assert!(!plan.clear_console);
    assert_eq!(plan.command_line, "npm start");
}

#[test]
fn plan_of_empty_command_is_empty_line() {
    let runner = CommandRunner::new(vec![], false, false);
    assert_eq!(runner.plan_run().command_line, "");
}

#[test]
fn plain_runner_never_terminates_a_process() {
    let mut runner = CommandRunner::new(words(&["make"]), false, false);
    runner.current_process = Some(11);
    assert_eq!(runner.plan_run().terminate, None);
}

#[test]
fn restart_replaces_held_process() {
    let mut runner = CommandRunner::new(words(&["server"]), true, false);
    assert_eq!(runner.plan_run().terminate, None);
    assert_eq!(runner.finish_run(SpawnOutcome::Started { pid: 100 }), Ok(RunReport::Running));
    assert_eq!(runner.current_process, Some(100));

    let second = runner.plan_run();
    assert_eq!(second.terminate, Some(100));
    assert_eq!(runner.finish_run(SpawnOutcome::Started { pid: 200 }), Ok(RunReport::Running));
    assert_eq!(runner.current_process, Some(200));
    assert_eq!(runner.plan_run().terminate, Some(200));
}

#[test]
fn plain_runner_holds_no_process_after_run() {
    let mut runner = CommandRunner::new(words(&["make"]), false, false);
    assert_eq!(runner.finish_run(SpawnOutcome::Started { pid: 5 }), Ok(RunReport::Waiting));
    assert_eq!(runner.current_process, None);
    assert_eq!(runner.finish_run(SpawnOutcome::Exited { success: true }), Ok(RunReport::Completed));
    assert_eq!(runner.current_process, None);
}

#[test]
fn failing_command_is_reported_not_raised() {
    let mut runner = CommandRunner::new(words(&["false"]), false, false);
    assert_eq!(
        runner.finish_run(SpawnOutcome::Exited { success: false }),
        Ok(RunReport::CommandFailed)
    );
}

#[test]
fn spawn_failure_is_the_only_error() {
    let mut runner = CommandRunner::new(words(&["server"]), true, false);
    runner.current_process = Some(42);
    assert_eq!(runner.finish_run(SpawnOutcome::Failed), Err(RunError::SpawnFailed));
    assert_eq!(runner.current_process, Some(42));
    assert_eq!(runner.command, words(&["server"]));
    assert!(runner.restart);
}

#[test]
fn dry_run_fails_on_empty_command_only() {
    for restart in [false, true] {
        let mut empty = CommandRunner::new(vec![], restart, false);
        assert_eq!(empty.dry_run(), Err(RunError::EmptyCommand));
        let mut full = CommandRunner::new(words(&["echo"]), restart, false);
        assert_eq!(full.dry_run(), Ok(()));
    }
}

#[test]
fn dry_run_lets_go_of_process_in_restart_mode() {
    let mut runner = CommandRunner::new(words(&["server"]), true, false);
    runner.current_process = Some(7);
    assert_eq!(runner.dry_run(), Ok(()));
    assert_eq!(runner.current_process, None);

    let mut empty = CommandRunner::new(vec![], true, false);
    empty.current_process = Some(7);
    assert_eq!(empty.dry_run(), Err(RunError::EmptyCommand));
    assert_eq!(empty.current_process, None);
}

#[test]
fn dry_run_keeps_process_outside_restart_mode() {
    let mut runner = CommandRunner::new(words(&["make"]), false, true);
    runner.current_process = Some(7);
    assert_eq!(runner.dry_run(), Ok(()));
    assert_eq!(runner.current_process, Some(7));
    assert!(runner.clear);
    assert!(!runner.restart);
}

#[test]
fn run_error_messages() {
    assert_eq!(RunError::EmptyCommand.to_string(), "Empty command");
    assert_eq!(RunError::SpawnFailed.to_string(), "Failed to execute command");
}
