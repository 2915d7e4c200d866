//! The rule's script module table.

use vstd::prelude::*;
use crate::script::Script;

verus! {

/// The script modules a rule defines, by name.
#[derive(Debug)]
pub struct ScriptingConfig {
    /// Module names with their scripts, in declaration order.
    pub modules: Vec<(String, Script)>,
}

} // verus!
