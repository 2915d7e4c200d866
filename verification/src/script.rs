//! Script invocations: a source, an engine, a function, parameters and a
//! security envelope.

use vstd::prelude::*;
use crate::jsonval::JsonValue;
use crate::config::script_security::ScriptSecurityConfig;

verus! {

/// The engine a script step runs under; JavaScript when unspecified.
#[derive(Debug, Clone, Copy, PartialEq, Eq, Hash, Structural)]
pub enum ScriptEngine {
    /// A JavaScript engine.
    JavaScript,
    /// The Rhai engine.
    Rhai,
    /// A Lua engine.
    Lua,
    /// A Python engine.
    Python,
}

impl Default for ScriptEngine {
    /// JavaScript is the default engine for script steps.
    fn default() -> (r: Self)
        ensures
            r == ScriptEngine::JavaScript,
    {
        ScriptEngine::JavaScript
    }
}

/// Where a script's code comes from.
#[derive(Debug, Clone, PartialEq)]
pub enum ScriptSource {
    /// Code written inline.
    Code(String),
    /// Code loaded from a URL.
    Url(String),
}

/// A script invocation.
#[derive(Debug, Clone, PartialEq)]
pub struct Script {
    /// Where the code comes from.
    pub source: ScriptSource,
    /// The engine to run under, when not the default.
    pub engine: Option<ScriptEngine>,
    /// The function to call, when not the script's entry point.
    pub function: Option<String>,
    /// Parameters the script reads, in declaration order.
    pub params: Vec<(String, JsonValue)>,
    /// A security envelope overriding the global one.
    pub security: Option<ScriptSecurityConfig>,
}

impl Script {
    /// Where the code comes from.
    pub fn source(&self) -> (r: &ScriptSource)
        ensures
            r == self.source,
    {
        &self.source
    }

    /// The engine to run under; JavaScript when unspecified.
    pub fn engine(&self) -> (r: ScriptEngine)
        ensures
            r == match self.engine {
                Some(e) => e,
                None => ScriptEngine::JavaScript,
            },
    {
        match self.engine {
            Some(e) => e,
            None => ScriptEngine::JavaScript,
        }
    }

    /// The function to call, if one is named.
    pub fn function(&self) -> (r: Option<&String>)
        ensures
            match r {
                Some(f) => self.function == Some(*f),
                None => self.function is None,
            },
    {
        self.function.as_ref()
    }

    /// The parameters the script reads.
    pub fn params(&self) -> (r: &Vec<(String, JsonValue)>)
        ensures
            r == self.params,
    {
        &self.params
    }

    /// The security envelope overriding the global one, if any.
    pub fn security(&self) -> (r: Option<&ScriptSecurityConfig>)
        ensures
            match r {
                Some(s) => self.security == Some(*s),
                None => self.security is None,
            },
    {
        self.security.as_ref()
    }
}

impl Default for Script {
    /// An empty inline script.
    fn default() -> (r: Self)
        ensures
            r.source matches ScriptSource::Code(c) && c@ == Seq::<char>::empty(),
            r.engine is None,
            r.function is None,
            r.params@.len() == 0,
            r.security is None,
    {
        Script {
            source: ScriptSource::Code(String::new()),
            engine: None,
            function: None,
            params: Vec::new(),
            security: None,
        }
    }
}

} // verus!
