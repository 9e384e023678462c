//! The process runner's data model and retry policy.
//!
//! The engine never spawns a process itself.  It hands its embedder a
//! [`CommandRequest`], receives an [`AttemptOutcome`] for every
//! attempt, and decides through [`decide_after_attempt`] whether the
//! attempt's result is final, whether to retry after the fixed delay,
//! or which error the call fails with.

use vstd::prelude::*;
use vstd::string::StringExecFns;
use crate::error::{AdbError, AppError, AppErrorV, adb_error_surfaced};

verus! {

/// Delay between retry attempts, in milliseconds.
pub const RETRY_DELAY_MS: u64 = 1000;

/// Mathematical image of an [`ExecutionConfig`].
pub ghost struct ExecutionConfigV {
    pub timeout_ms: u64,
    pub retries: u32,
    pub hidden: bool,
}

/// How one command is to be run: its deadline, how often a spawn or
/// timeout failure is retried, and whether the child's console window
/// is suppressed on platforms that have the concept.
#[derive(Debug, Clone)]
pub struct ExecutionConfig {
    pub timeout_ms: u64,
    pub retries: u32,
    pub hidden: bool,
}

impl View for ExecutionConfig {
    type V = ExecutionConfigV;

    open spec fn view(&self) -> ExecutionConfigV {
        ExecutionConfigV {
            timeout_ms: self.timeout_ms,
            retries: self.retries,
            hidden: self.hidden,
        }
    }
}

impl Default for ExecutionConfig {
    /// Standard commands: a five-second deadline, one retry, hidden.
    fn default() -> (r: Self)
        ensures
            r@.timeout_ms == 5000,
            r@.retries == 1,
            r@.hidden,
    {
        ExecutionConfig { timeout_ms: 5000, retries: 1, hidden: true }
    }
}

/// Mathematical image of a [`CommandResult`].
pub ghost struct CommandResultV {
    pub success: bool,
    pub stdout: Seq<char>,
    pub stderr: Seq<char>,
}

/// What a completed child process left behind: whether it exited
/// successfully, and its fully captured output streams.
#[derive(Debug, Clone)]
pub struct CommandResult {
    pub success: bool,
    pub stdout: String,
    pub stderr: String,
}

impl View for CommandResult {
    type V = CommandResultV;

    open spec fn view(&self) -> CommandResultV {
        CommandResultV { success: self.success, stdout: self.stdout@, stderr: self.stderr@ }
    }
}

impl CommandResult {
    pub fn new(success: bool, stdout: &str, stderr: &str) -> (r: Self)
        ensures
            r@.success == success,
            r@.stdout == stdout@,
            r@.stderr == stderr@,
    {
        CommandResult {
            success,
            stdout: String::from_str(stdout),
            stderr: String::from_str(stderr),
        }
    }
}

/// A command to be run by the embedder.
#[derive(Debug, Clone)]
pub struct CommandRequest {
    pub args: Vec<String>,
    pub config: ExecutionConfig,
}

/// How one attempt at running a command ended.
#[derive(Debug)]
pub enum AttemptOutcome {
    /// The child ran to completion within the deadline (its exit
    /// status may still be non-zero).
    Completed(CommandResult),
    /// The child could not be spawned; the message says why.
    SpawnFailed(String),
    /// The child did not exit within the deadline and was killed.
    TimedOut,
}

/// What the runner does next.
#[derive(Debug)]
pub enum RunnerStep {
    /// Hand this result to the caller.
    Finish(CommandResult),
    /// Sleep for the given milliseconds, then run the command again.
    RetryAfterDelay(u64),
    /// Give up with this error.
    Fail(AppError),
}

/// Mathematical image of a [`RunnerStep`].
pub ghost enum RunnerStepV {
    Finish(CommandResultV),
    RetryAfterDelay(u64),
    Fail(AppErrorV),
}

impl View for RunnerStep {
    type V = RunnerStepV;

    open spec fn view(&self) -> RunnerStepV {
        match self {
            RunnerStep::Finish(r) => RunnerStepV::Finish(r@),
            RunnerStep::RetryAfterDelay(d) => RunnerStepV::RetryAfterDelay(*d),
            RunnerStep::Fail(e) => RunnerStepV::Fail(e@),
        }
    }
}

/// The retry policy of the process runner.
///
/// A completed run is always final, whatever its exit status.  A
/// spawn failure or a timeout is retried, after the fixed one-second
/// delay, while attempts remain; once `attempt` reaches `retries`,
/// a timeout fails with the timeout error and a spawn failure with
/// the execution error carrying the spawn message.
pub fn decide_after_attempt(outcome: AttemptOutcome, attempt: u32, retries: u32) -> (r: RunnerStep)
    ensures
        ({
            match outcome {
                AttemptOutcome::Completed(res) => r@ == RunnerStepV::Finish(res@),
                AttemptOutcome::SpawnFailed(msg) => if attempt < retries {
                    r@ == RunnerStepV::RetryAfterDelay(RETRY_DELAY_MS)
                } else {
                    r@ == RunnerStepV::Fail(
                        adb_error_surfaced(AdbError::ExecutionFailed(msg)),
                    )
                },
                AttemptOutcome::TimedOut => if attempt < retries {
                    r@ == RunnerStepV::RetryAfterDelay(RETRY_DELAY_MS)
                } else {
                    r@ == RunnerStepV::Fail(adb_error_surfaced(AdbError::Timeout))
                },
            }
        }),
{
    match outcome {
        AttemptOutcome::Completed(res) => RunnerStep::Finish(res),
        AttemptOutcome::SpawnFailed(msg) => {
            if attempt < retries {
                RunnerStep::RetryAfterDelay(RETRY_DELAY_MS)
            } else {
                RunnerStep::Fail(AppError::from(AdbError::ExecutionFailed(msg)))
            }
        },
        AttemptOutcome::TimedOut => {
            if attempt < retries {
                RunnerStep::RetryAfterDelay(RETRY_DELAY_MS)
            } else {
                RunnerStep::Fail(AppError::from(AdbError::Timeout))
            }
        },
    }
}

} // verus!
