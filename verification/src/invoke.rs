//! Compiler invocation: the command handed to the external schema compiler
//! and the reading of its exit.
//!
//! Spawning and waiting are I/O and happen outside; they hand back an
//! `ExitOutcome`, and `check_invocation` decides what it means: exit status
//! zero is success, everything else is a `CompilerInvocationError` carrying
//! the reported message.

use crate::{ErrorModel, PipelineError};
use vstd::prelude::*;

verus! {

/// Everything the external compiler needs for one run: the executable, the
/// scratch directory its output goes to, and the input files in discovery
/// order. An empty input list is a valid command — the compiler still runs.
pub struct CompilerCommand {
    pub executable: String,
    pub output_dir: String,
    pub inputs: Vec<String>,
}

/// What became of one attempt to run the external compiler.
pub enum ExitOutcome {
    /// The process ran to completion with exit status `code`; `message` is
    /// what it reported.
    Exited { code: i32, message: String },
    /// The process could not be started.
    SpawnFailed { message: String },
}

/// The failure message an outcome carries, if it is a failure: any non-zero
/// exit and any spawn failure is one.
pub open spec fn invocation_failure(outcome: ExitOutcome) -> Option<Seq<char>> {
    match outcome {
        ExitOutcome::Exited { code, message } => if code == 0 {
            None
        } else {
            Some(message@)
        },
        ExitOutcome::SpawnFailed { message } => Some(message@),
    }
}

/// Assembles the command for one run of the external compiler.
pub fn build_command(executable: &str, output_dir: &str, inputs: Vec<String>) -> (r:
    CompilerCommand)
    ensures
        r.executable@ == executable@,
        r.output_dir@ == output_dir@,
        r.inputs == inputs,
{
    CompilerCommand { executable: executable.to_owned(), output_dir: output_dir.to_owned(), inputs }
}

/// Reads an exit outcome: success exactly on exit status zero; any non-zero
/// status or spawn failure becomes a `CompilerInvocationError` carrying the
/// reported message. No exit code is interpreted beyond zero or not.
pub fn check_invocation(outcome: &ExitOutcome) -> (r: Result<(), PipelineError>)
    ensures
        (match invocation_failure(*outcome) {
            None => r is Ok,
            Some(msg) => r matches Err(e) && e@ == (ErrorModel::CompilerInvocation {
                message: msg,
            }),
        }),
{
    match outcome {
        ExitOutcome::Exited { code, message } => {
            if *code == 0 {
                Ok(())
            } else {
                Err(PipelineError::CompilerInvocationError { message: message.clone() })
            }
        },
        ExitOutcome::SpawnFailed { message } => Err(
            PipelineError::CompilerInvocationError { message: message.clone() },
        ),
    }
}

} // verus!
