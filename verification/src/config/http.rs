//! The global HTTP configuration, merged with per-flow overrides.

use vstd::prelude::*;
use std::collections::HashMap;
use crate::config::traits::ConfigMerge;

verus! {

use vstd::string::StrSliceExecFns;
use vstd::string::StringExecFns;

/// The User-Agent used when none is configured.
pub const DEFAULT_USER_AGENT: &'static str = "Mozilla/5.0 (compatible; YingJuCrawler/1.0)";

/// The request timeout used when none is configured, in seconds.
pub const DEFAULT_TIMEOUT: u32 = 30;

/// Whether redirects are followed when nothing is configured.
pub const DEFAULT_FOLLOW_REDIRECTS: bool = true;

/// How many redirects are followed when nothing is configured.
pub const DEFAULT_MAX_REDIRECTS: u32 = 10;

/// The text of an optional string.
pub open spec fn opt_text(o: Option<String>) -> Option<Seq<char>> {
    match o {
        Some(s) => Some(s@),
        None => None,
    }
}

/// The merge of one optional field: the other side wins when set.
pub open spec fn merged_opt<T>(a: Option<T>, b: Option<T>) -> Option<T> {
    match b {
        Some(v) => Some(v),
        None => a,
    }
}

/// The default behaviour of every network request a rule makes.
#[derive(Debug, Clone, Default, PartialEq)]
pub struct HttpConfig {
    /// The User-Agent header.
    pub user_agent: Option<String>,
    /// Request timeout, in seconds.
    pub timeout: Option<u32>,
    /// A proxy address.
    pub proxy: Option<String>,
    /// Headers sent with every request.
    pub headers: Option<HashMap<String, String>>,
    /// Whether redirects are followed.
    pub follow_redirects: Option<bool>,
    /// How many redirects are followed at most.
    pub max_redirects: Option<u32>,
    /// Connection timeout, in seconds.
    pub connect_timeout: Option<u32>,
    /// Whether TLS certificates are checked.
    pub verify_ssl: Option<bool>,
    /// The pause between requests, in milliseconds.
    pub request_delay: Option<u32>,
    /// How many requests may run at once.
    pub max_concurrent: Option<u32>,
    /// How often a failed request is retried.
    pub retry_count: Option<u32>,
    /// The pause between retries, in milliseconds.
    pub retry_delay: Option<u32>,
}

impl HttpConfig {
    /// A configuration with the documented defaults filled in.
    pub fn with_defaults() -> (r: Self)
        ensures
            opt_text(r.user_agent) == Some(DEFAULT_USER_AGENT@),
            r.timeout == Some(DEFAULT_TIMEOUT),
            r.follow_redirects == Some(DEFAULT_FOLLOW_REDIRECTS),
            r.max_redirects == Some(DEFAULT_MAX_REDIRECTS),
            r.verify_ssl == Some(true),
            r.proxy is None && r.headers is None && r.connect_timeout is None
                && r.request_delay is None && r.max_concurrent is None
                && r.retry_count is None && r.retry_delay is None,
    {
        HttpConfig {
            user_agent: Some(String::from_str(DEFAULT_USER_AGENT)),
            timeout: Some(DEFAULT_TIMEOUT),
            follow_redirects: Some(DEFAULT_FOLLOW_REDIRECTS),
            max_redirects: Some(DEFAULT_MAX_REDIRECTS),
            verify_ssl: Some(true),
            proxy: None,
            headers: None,
            connect_timeout: None,
            request_delay: None,
            max_concurrent: None,
            retry_count: None,
            retry_delay: None,
        }
    }

    /// The configured User-Agent, or the default.
    pub fn user_agent_or_default(&self) -> (r: &str)
        ensures
            r@ == match self.user_agent {
                Some(s) => s@,
                None => DEFAULT_USER_AGENT@,
            },
    {
        match &self.user_agent {
            Some(s) => s.as_str(),
            None => DEFAULT_USER_AGENT,
        }
    }

    /// The configured timeout, or the default.
    pub fn timeout_or_default(&self) -> (r: u32)
        ensures
            r == match self.timeout {
                Some(t) => t,
                None => DEFAULT_TIMEOUT,
            },
    {
        match self.timeout {
            Some(t) => t,
            None => DEFAULT_TIMEOUT,
        }
    }

    /// Whether redirects are followed, by configuration or default.
    pub fn follow_redirects_or_default(&self) -> (r: bool)
        ensures
            r == match self.follow_redirects {
                Some(b) => b,
                None => DEFAULT_FOLLOW_REDIRECTS,
            },
    {
        match self.follow_redirects {
            Some(b) => b,
            None => DEFAULT_FOLLOW_REDIRECTS,
        }
    }

    /// The merge of two configurations, field by field: the other side's
    /// set fields win; header tables are united with the other side's
    /// entries winning.
    pub fn merge(&self, other: &Self) -> (r: Self)
        ensures
            opt_text(r.user_agent) == merged_opt(opt_text(self.user_agent), opt_text(other.user_agent)),
            r.timeout == merged_opt(self.timeout, other.timeout),
            opt_text(r.proxy) == merged_opt(opt_text(self.proxy), opt_text(other.proxy)),
            r.follow_redirects == merged_opt(self.follow_redirects, other.follow_redirects),
            r.max_redirects == merged_opt(self.max_redirects, other.max_redirects),
            r.connect_timeout == merged_opt(self.connect_timeout, other.connect_timeout),
            r.verify_ssl == merged_opt(self.verify_ssl, other.verify_ssl),
            r.request_delay == merged_opt(self.request_delay, other.request_delay),
            r.max_concurrent == merged_opt(self.max_concurrent, other.max_concurrent),
            r.retry_count == merged_opt(self.retry_count, other.retry_count),
            r.retry_delay == merged_opt(self.retry_delay, other.retry_delay),
            r.headers is Some == (self.headers is Some || other.headers is Some),
            vstd::std_specs::hash::obeys_key_model::<String>() ==> match (self.headers, other.headers) {
                (Some(a), Some(b)) => r.headers matches Some(h) && h@ == a@.union_prefer_right(b@),
                (None, Some(b)) => r.headers matches Some(h) && h@ == b@,
                (Some(a), None) => r.headers matches Some(h) && h@ == a@,
                (None, None) => r.headers is None,
            },
    {
        let headers: Option<HashMap<String, String>> = match (&self.headers, &other.headers) {
            (Some(base), Some(overlay)) => Some(crate::config::traits::hashmap_union(base, overlay)),
            (None, Some(h)) => Some(h.clone()),
            (Some(h), None) => Some(h.clone()),
            (None, None) => None,
        };
        HttpConfig {
            user_agent: opt_clone_str(&self.user_agent, &other.user_agent),
            timeout: merge_copy(&self.timeout, &other.timeout),
            proxy: opt_clone_str(&self.proxy, &other.proxy),
            headers,
            follow_redirects: merge_copy(&self.follow_redirects, &other.follow_redirects),
            max_redirects: merge_copy(&self.max_redirects, &other.max_redirects),
            connect_timeout: merge_copy(&self.connect_timeout, &other.connect_timeout),
            verify_ssl: merge_copy(&self.verify_ssl, &other.verify_ssl),
            request_delay: merge_copy(&self.request_delay, &other.request_delay),
            max_concurrent: merge_copy(&self.max_concurrent, &other.max_concurrent),
            retry_count: merge_copy(&self.retry_count, &other.retry_count),
            retry_delay: merge_copy(&self.retry_delay, &other.retry_delay),
        }
    }
}

fn opt_clone_str(a: &Option<String>, b: &Option<String>) -> (r: Option<String>)
    ensures
        opt_text(r) == merged_opt(opt_text(*a), opt_text(*b)),
{
    match b {
        Some(s) => Some(s.clone()),
        None => match a {
            Some(s) => Some(s.clone()),
            None => None,
        },
    }
}

fn merge_copy<T: Copy>(a: &Option<T>, b: &Option<T>) -> (r: Option<T>)
    ensures
        r == merged_opt(*a, *b),
{
    match b {
        Some(v) => Some(*v),
        None => match a {
            Some(v) => Some(*v),
            None => None,
        },
    }
}

impl HttpConfig {
    /// A copy of the configuration; the simple fields are known to carry
    /// over.
    pub fn clone2(&self) -> (r: Self)
        ensures
            opt_text(r.user_agent) == opt_text(self.user_agent),
            r.timeout == self.timeout,
            opt_text(r.proxy) == opt_text(self.proxy),
            r.follow_redirects == self.follow_redirects,
            r.max_redirects == self.max_redirects,
            r.connect_timeout == self.connect_timeout,
            r.verify_ssl == self.verify_ssl,
            r.request_delay == self.request_delay,
            r.max_concurrent == self.max_concurrent,
            r.retry_count == self.retry_count,
            r.retry_delay == self.retry_delay,
            r.headers is Some == self.headers is Some,
    {
        HttpConfig {
            user_agent: match &self.user_agent {
                Some(s) => Some(s.clone()),
                None => None,
            },
            timeout: self.timeout,
            proxy: match &self.proxy {
                Some(s) => Some(s.clone()),
                None => None,
            },
            headers: match &self.headers {
                Some(h) => Some(h.clone()),
                None => None,
            },
            follow_redirects: self.follow_redirects,
            max_redirects: self.max_redirects,
            connect_timeout: self.connect_timeout,
            verify_ssl: self.verify_ssl,
            request_delay: self.request_delay,
            max_concurrent: self.max_concurrent,
            retry_count: self.retry_count,
            retry_delay: self.retry_delay,
        }
    }
}

impl ConfigMerge for HttpConfig {
    /// Field-by-field merge, the other side winning.
    fn merge(&self, other: &Self) -> Self {
        HttpConfig::merge(self, other)
    }
}

} // verus!
