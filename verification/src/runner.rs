//! The life cycle of the command that is run on a change.
//!
//! Starting, waiting for and terminating a process is the caller's work.
//! The runner decides what is to be done for a run and keeps track of the
//! process that restart mode holds: the caller asks for a plan, carries it
//! out, and reports what happened.

use crate::text::{join_spaced, join_words, texts_of};
use vstd::prelude::*;

verus! {

/// Why a run did not take place.
#[derive(Debug, Clone, Copy, PartialEq, Eq)]
pub enum RunError {
    /// There is no command to run.
    EmptyCommand,
    /// The process could not be started.
    SpawnFailed,
}

impl RunError {
    /// The text of the message for this error.
    pub open spec fn message_text(self) -> Seq<char> {
        match self {
            RunError::EmptyCommand => "Empty command"@,
            RunError::SpawnFailed => "Failed to execute command"@,
        }
    }

    /// The message for this error.
    pub fn to_string(&self) -> (s: String)
        ensures
            s@ == self.message_text(),
    {
        match self {
            RunError::EmptyCommand => "Empty command".to_string(),
            RunError::SpawnFailed => "Failed to execute command".to_string(),
        }
    }
}

/// What is to be done for one run, in this order.
#[derive(Debug, Clone, PartialEq, Eq)]
pub struct RunPlan {
    /// The process to terminate and wait for before anything else.
    pub terminate: Option<u32>,
    /// Whether the console is cleared before the command is announced.
    pub clear_console: bool,
    /// The command as one line for the platform shell.
    pub command_line: String,
}

/// What the caller reports while carrying out a plan.
#[derive(Debug, Clone, Copy, PartialEq, Eq)]
pub enum SpawnOutcome {
    /// The process could not be started.
    Failed,
    /// The process has been started; `pid` identifies it.
    Started { pid: u32 },
    /// The process that was waited for has exited.
    Exited { success: bool },
}

/// Where a run stands after a report.
#[derive(Debug, Clone, Copy, PartialEq, Eq)]
pub enum RunReport {
    /// The command is running and held by the runner; the run is over.
    Running,
    /// The command is running and is to be waited for; its exit is reported
    /// next.
    Waiting,
    /// The command ran to its end.
    Completed,
    /// The command ran and reported failure. This is no error of the run.
    CommandFailed,
}

/// Runs the configured command, once per change or as one long-running
/// process that each change restarts.
#[derive(Debug)]
pub struct CommandRunner {
    pub command: Vec<String>,
    pub restart: bool,
    pub clear: bool,
    /// The process held in restart mode.
    pub current_process: Option<u32>,
}

impl CommandRunner {
    /// The process to terminate before the next run: the one held, in
    /// restart mode; none otherwise.
    pub open spec fn to_terminate(self) -> Option<u32> {
        if self.restart {
            self.current_process
        } else {
            None
        }
    }

    /// The process held once `outcome` has been reported. Only a process
    /// left running in restart mode is held, and it replaces the one held
    /// before; any other outcome leaves what is held as it was.
    pub open spec fn held_after(self, outcome: SpawnOutcome) -> Option<u32> {
        match outcome {
            SpawnOutcome::Started { pid } => if self.restart {
                Some(pid)
            } else {
                self.current_process
            },
            _ => self.current_process,
        }
    }

    /// The answer to `outcome`. A process that was started is kept running
    /// in restart mode and waited for otherwise.
    pub open spec fn answer(self, outcome: SpawnOutcome) -> Result<RunReport, RunError> {
        match outcome {
            SpawnOutcome::Failed => Err(RunError::SpawnFailed),
            SpawnOutcome::Started { pid } => if self.restart {
                Ok(RunReport::Running)
            } else {
                Ok(RunReport::Waiting)
            },
            SpawnOutcome::Exited { success } => if success {
                Ok(RunReport::Completed)
            } else {
                Ok(RunReport::CommandFailed)
            },
        }
    }

    /// A runner that holds no process.
    pub fn new(command: Vec<String>, restart: bool, clear: bool) -> (runner: CommandRunner)
        ensures
            runner.command == command,
            runner.restart == restart,
            runner.clear == clear,
            runner.current_process is None,
    {
        CommandRunner { command, restart, clear, current_process: None }
    }

    /// What the next run begins with. In restart mode the process held is
    /// terminated first; otherwise nothing is terminated.
    pub fn plan_run(&self) -> (plan: RunPlan)
        ensures
            plan.terminate == self.to_terminate(),
            plan.clear_console == self.clear,
            plan.command_line@ == join_spaced(texts_of(self.command@)),
    {
        let terminate = if self.restart {
            self.current_process
        } else {
            None
        };
        RunPlan {
            terminate,
            clear_console: self.clear,
            command_line: join_words(&self.command),
        }
    }

    /// Takes note of what came of a run. A process that could not be started
    /// is the only error; a command that ran and failed is reported, not
    /// raised.
    pub fn finish_run(&mut self, outcome: SpawnOutcome) -> (r: Result<RunReport, RunError>)
        ensures
            r == old(self).answer(outcome),
            final(self).current_process == old(self).held_after(outcome),
            final(self).command == old(self).command,
            final(self).restart == old(self).restart,
            final(self).clear == old(self).clear,
    {
        match outcome {
            SpawnOutcome::Failed => Err(RunError::SpawnFailed),
            SpawnOutcome::Started { pid } => {
                if self.restart {
                    self.current_process = Some(pid);
                    Ok(RunReport::Running)
                } else {
                    Ok(RunReport::Waiting)
                }
            },
            SpawnOutcome::Exited { success } => {
                if success {
                    Ok(RunReport::Completed)
                } else {
                    Ok(RunReport::CommandFailed)
                }
            },
        }
    }

    /// Goes through a run without starting anything: in restart mode the
    /// process held is let go, and no new one takes its place. Fails where
    /// there is no command.
    pub fn dry_run(&mut self) -> (r: Result<(), RunError>)
        ensures
            r is Err <==> old(self).command@.len() == 0,
            r is Err ==> r == Err::<(), RunError>(RunError::EmptyCommand),
            final(self).current_process == (if old(self).restart {
                None
            } else {
                old(self).current_process
            }),
            final(self).command == old(self).command,
            final(self).restart == old(self).restart,
            final(self).clear == old(self).clear,
    {
        if self.restart && self.current_process.is_some() {
            self.current_process = None;
        }
        if self.command.len() == 0 {
            return Err(RunError::EmptyCommand);
        }
        Ok(())
    }
}

/// In restart mode a run replaces the process held: the plan names the old
/// process for termination, and once the new one is reported as started, it
/// is the one held, whatever was held before, and the run is over.
pub proof fn lemma_restart_replaces_process(runner: CommandRunner, pid: u32)
    requires
        runner.restart,
    ensures
        runner.to_terminate() == runner.current_process,
        runner.held_after(SpawnOutcome::Started { pid }) == Some(pid),
        runner.answer(SpawnOutcome::Started { pid }) == Ok::<RunReport, RunError>(
            RunReport::Running,
        ),
{
}

/// Outside restart mode no run terminates a process or changes what is
/// held, and a process that was started is waited for.
pub proof fn lemma_plain_run_holds_nothing_new(runner: CommandRunner, outcome: SpawnOutcome)
    requires
        !runner.restart,
    ensures
        runner.to_terminate() is None,
        runner.held_after(outcome) == runner.current_process,
        outcome is Started ==> runner.answer(outcome) == Ok::<RunReport, RunError>(
            RunReport::Waiting,
        ),
{
}

} // verus!
