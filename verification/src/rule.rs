//! The rule document root.

use vstd::prelude::*;
use crate::config::http::HttpConfig;
use crate::config::limits::RuntimeLimits;
use crate::config::meta::Meta;
use crate::config::scripting::ScriptingConfig;
use crate::flow::{Component, DetailFlow, ListFlow, LoginFlow, SearchFlow};

verus! {

/// One site's whole rule: identity, configuration, components and flows.
#[derive(Debug)]
pub struct CrawlerRule {
    /// The rule's identity.
    pub meta: Meta,
    /// Network behaviour, overridable per flow.
    pub http: Option<HttpConfig>,
    /// Runtime resource caps.
    pub limits: Option<RuntimeLimits>,
    /// The rule's script modules.
    pub scripting: Option<ScriptingConfig>,
    /// Reusable components, by name, in declaration order.
    pub components: Option<Vec<(String, Component)>>,
    /// The login flow, where the site needs one.
    pub login: Option<LoginFlow>,
    /// The listing flow, where the site offers one.
    pub list: Option<ListFlow>,
    /// The detail flow.
    pub detail: DetailFlow,
    /// The search flow.
    pub search: SearchFlow,
}

impl CrawlerRule {
    /// The configured runtime caps, or the defaults.
    pub fn limits_or_default(&self) -> (r: RuntimeLimits)
        ensures
            r == match self.limits {
                Some(l) => l,
                None => RuntimeLimits {
                    max_recursion_depth: crate::config::limits::DEFAULT_MAX_RECURSION_DEPTH,
                    max_steps: crate::config::limits::DEFAULT_MAX_STEPS,
                    max_pipelines: crate::config::limits::DEFAULT_MAX_PIPELINES,
                },
            },
    {
        match self.limits {
            Some(l) => l,
            None => RuntimeLimits::default(),
        }
    }

    /// The configured network behaviour, or an empty configuration.
    pub fn http_or_default(&self) -> (r: HttpConfig)
        ensures
            match self.http {
                Some(h) => crate::config::http::opt_text(r.user_agent)
                    == crate::config::http::opt_text(h.user_agent) && r.timeout == h.timeout
                    && r.follow_redirects == h.follow_redirects,
                None => r.user_agent is None && r.timeout is None && r.follow_redirects is None,
            },
    {
        match &self.http {
            Some(h) => h.clone2(),
            None => HttpConfig {
                user_agent: None,
                timeout: None,
                proxy: None,
                headers: None,
                follow_redirects: None,
                max_redirects: None,
                connect_timeout: None,
                verify_ssl: None,
                request_delay: None,
                max_concurrent: None,
                retry_count: None,
                retry_delay: None,
            },
        }
    }
}

} // verus!
