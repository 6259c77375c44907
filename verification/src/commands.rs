//! Data describing external command invocations: how an environment
//! variable is treated across a privilege boundary, how an elevation
//! program is chosen, and what a planned invocation looks like.

use vstd::prelude::*;

verus! {

/// What happens to one environment variable when a command runs.
#[derive(Debug, Clone)]
pub enum EnvAction {
    /// Assign the variable a specific value.
    Assign(String),
    /// Preserve the variable from the current environment.
    Preserve,
    /// Remove the variable.
    Remove,
}

/// Strategy for choosing a privilege elevation program: try the supported
/// programs in fallback order, prefer a specific one with fallback, or
/// force one with no fallback at all.
#[derive(Debug, Clone, PartialEq, Eq)]
pub enum ElevationStrategy {
    /// Try supported programs in fallback order.
    Auto,
    /// Try the given program first, then fall back.
    Prefer(String),
    /// Use only the given program.
    Force(String),
}

/// One planned invocation of an external program: what to run, with which
/// arguments, and the message announcing it.
pub struct CommandPlan {
    /// The program to run.
    pub program: String,
    /// Its arguments, in order.
    pub args: Vec<String>,
    /// The message announcing the invocation.
    pub message: String,
}

} // verus!
