//! Loops and debugging steps.

use vstd::prelude::*;
use crate::template::Template;

verus! {

/// Runs a sub-pipeline for each item of an array variable.
#[derive(Debug, PartialEq)]
pub struct StepLoopForEach {
    /// The array to walk, rendered against the context.
    pub input: Template,
    /// The variable each item is bound to inside the loop.
    pub item_name: String,
    /// The sub-pipeline run for each item.
    pub pipeline: crate::pipeline::Pipeline,
}

/// Prints a debug message.
#[derive(Debug, Clone, PartialEq)]
pub struct StepLog {
    /// The message, rendered against the context.
    pub message: Template,
}

} // verus!
