//! Build-time code-generation pipeline: compile glob patterns, discover
//! schema files under a project tree, hand them to an external schema
//! compiler, and fold the compiler's output back into one source blob in
//! which every generated file is wrapped in a named module.
//!
//! The pipeline itself is pure: every stage is a function from plain values
//! (pattern strings, walked directory entries, the compiler's exit outcome,
//! the generated files' contents) to plain values, so a thin driver that does
//! the actual filesystem walking and process spawning can run it end to end.

use vstd::prelude::*;

pub mod aggregate;
pub mod discover;
pub mod glob;
pub mod invoke;
pub mod path;
pub mod pipeline;
pub mod text;

verus! {

/// Everything that can go wrong in one run of the pipeline. Each variant
/// carries enough context (the offending pattern, path or name) for the
/// caller to diagnose the failure; every one of them is terminal for the run.
#[derive(Debug, PartialEq, Eq)]
pub enum PipelineError {
    /// A caller-supplied pattern does not parse as a glob.
    PatternSyntaxError { pattern: String, message: String },
    /// An entry could not be read while walking the project tree.
    DiscoveryError { path: String },
    /// The external compiler could not be spawned or exited non-zero.
    CompilerInvocationError { message: String },
    /// A generated file could not be read back.
    AggregationError { path: String },
    /// A generated file's stem is not usable as a module identifier.
    InvalidModuleNameError { name: String },
}

/// Ghost mirror of `PipelineError`, with every `String` payload replaced by
/// its character sequence, so that spec-level stage functions can construct
/// error values.
pub enum ErrorModel {
    PatternSyntax { pattern: Seq<char>, message: Seq<char> },
    Discovery { path: Seq<char> },
    CompilerInvocation { message: Seq<char> },
    Aggregation { path: Seq<char> },
    InvalidModuleName { name: Seq<char> },
}

impl View for PipelineError {
    type V = ErrorModel;

    open spec fn view(&self) -> ErrorModel {
        match self {
            PipelineError::PatternSyntaxError { pattern, message } => ErrorModel::PatternSyntax {
                pattern: pattern@,
                message: message@,
            },
            PipelineError::DiscoveryError { path } => ErrorModel::Discovery { path: path@ },
            PipelineError::CompilerInvocationError { message } => ErrorModel::CompilerInvocation {
                message: message@,
            },
            PipelineError::AggregationError { path } => ErrorModel::Aggregation { path: path@ },
            PipelineError::InvalidModuleNameError { name } => ErrorModel::InvalidModuleName {
                name: name@,
            },
        }
    }
}

} // verus!
