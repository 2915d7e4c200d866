//! The security envelope scripts run under.

use vstd::prelude::*;

verus! {

/// The memory cap used when none is configured, in megabytes.
pub const DEFAULT_MAX_MEMORY_MB: u64 = 128;

/// The timeout used when none is configured, in seconds.
pub const DEFAULT_TIMEOUT_SECONDS: u64 = 30;

/// Whether scripts may touch the file system when nothing is configured.
pub fn default_allow_file_access() -> (r: bool)
    ensures
        r == false,
{
    false
}

/// Whether scripts may reach the network when nothing is configured.
pub fn default_allow_network() -> (r: bool)
    ensures
        r == false,
{
    false
}

/// Whether a flag is off; serialization omits such flags.
pub fn is_false(b: &bool) -> (r: bool)
    ensures
        r == !*b,
{
    !*b
}

/// The caps a script runs under: memory, file access, network access and
/// time. A step-local configuration overrides the global one.
#[derive(Debug, Clone, Copy, PartialEq, Eq, Structural)]
pub struct ScriptSecurityConfig {
    /// The memory cap, in megabytes.
    pub max_memory_mb: Option<u64>,
    /// Whether the script may touch the file system.
    pub allow_file_access: bool,
    /// Whether the script may reach the network.
    pub allow_network: bool,
    /// The time cap, in seconds; zero means none.
    pub timeout_seconds: Option<u64>,
}

impl ScriptSecurityConfig {
    /// The local configuration completed from the global one: a set local
    /// field wins, an unset one takes the global value, and grant-style
    /// flags combine by or.
    pub fn merge_with(self, global: Option<&ScriptSecurityConfig>) -> (r: Self)
        ensures
            match global {
                Some(g) => {
                    &&& r.max_memory_mb == (if self.max_memory_mb is Some {
                        self.max_memory_mb
                    } else {
                        g.max_memory_mb
                    })
                    &&& r.allow_file_access == (self.allow_file_access || g.allow_file_access)
                    &&& r.allow_network == (self.allow_network || g.allow_network)
                    &&& r.timeout_seconds == (if self.timeout_seconds is Some {
                        self.timeout_seconds
                    } else {
                        g.timeout_seconds
                    })
                },
                None => r == self,
            },
    {
        let mut out = self;
        match global {
            Some(g) => {
                if out.max_memory_mb.is_none() {
                    out.max_memory_mb = g.max_memory_mb;
                }
                if !out.allow_file_access && g.allow_file_access {
                    out.allow_file_access = true;
                }
                if !out.allow_network && g.allow_network {
                    out.allow_network = true;
                }
                if out.timeout_seconds.is_none() {
                    out.timeout_seconds = g.timeout_seconds;
                }
                out
            },
            None => out,
        }
    }
}

impl Default for ScriptSecurityConfig {
    /// Nothing configured: the documented defaults apply downstream.
    fn default() -> (r: Self)
        ensures
            r.max_memory_mb is None,
            r.allow_file_access == false,
            r.allow_network == false,
            r.timeout_seconds is None,
    {
        ScriptSecurityConfig {
            max_memory_mb: None,
            allow_file_access: false,
            allow_network: false,
            timeout_seconds: None,
        }
    }
}

} // verus!
