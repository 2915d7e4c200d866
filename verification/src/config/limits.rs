//! Runtime resource caps.

use vstd::prelude::*;

verus! {

/// How deep component calls may nest when nothing is configured.
pub const DEFAULT_MAX_RECURSION_DEPTH: u32 = 32;

/// How many steps one pipeline may run when nothing is configured.
pub const DEFAULT_MAX_STEPS: u32 = 1000;

/// How many pipelines one flow may run when nothing is configured.
pub const DEFAULT_MAX_PIPELINES: u32 = 100;

/// Caps on what one flow invocation may consume.
#[derive(Debug, Clone, Copy, PartialEq, Eq, Structural)]
pub struct RuntimeLimits {
    /// How deep component calls may nest.
    pub max_recursion_depth: u32,
    /// How many steps one pipeline may run.
    pub max_steps: u32,
    /// How many pipelines one flow may run.
    pub max_pipelines: u32,
}

impl Default for RuntimeLimits {
    /// The documented default caps.
    fn default() -> (r: Self)
        ensures
            r.max_recursion_depth == DEFAULT_MAX_RECURSION_DEPTH,
            r.max_steps == DEFAULT_MAX_STEPS,
            r.max_pipelines == DEFAULT_MAX_PIPELINES,
    {
        RuntimeLimits {
            max_recursion_depth: DEFAULT_MAX_RECURSION_DEPTH,
            max_steps: DEFAULT_MAX_STEPS,
            max_pipelines: DEFAULT_MAX_PIPELINES,
        }
    }
}

} // verus!
