use crawler_core::config::challenge::{
    default_external_timeout, default_max_attempts, default_max_retries, default_retry_delay,
    default_true, default_webview_timeout,
};
use crawler_core::config::limits::RuntimeLimits;
use crawler_core::config::script_security::{default_allow_file_access, default_allow_network, is_false};
use crawler_core::flow::{default_page_param, default_start_page, LoginType, PaginationType};
use crawler_core::script::{Script, ScriptEngine, ScriptSource};
use crawler_core::types::{CacheBackend, CacheScope, ScriptEngine as RuleScriptEngine};

#[test]
fn test_challenge_defaults() {
    assert!(default_true());
    assert_eq!(default_max_attempts(), 3);
    assert_eq!(default_webview_timeout(), 120);
    assert_eq!(default_retry_delay(), 5000);
    assert_eq!(default_max_retries(), 3);
    assert_eq!(default_external_timeout(), 120);
}

#[test]
fn test_script_security_defaults() {
    assert!(!default_allow_file_access());
    assert!(!default_allow_network());
    assert!(is_false(&false));
    assert!(!is_false(&true));
}

#[test]
fn test_enum_defaults() {
    assert_eq!(RuleScriptEngine::default(), RuleScriptEngine::Rhai);
    assert_eq!(RuleScriptEngine::JavaScript.file_extension(), "js");
    assert_eq!(ScriptEngine::default(), ScriptEngine::JavaScript);
    assert_eq!(CacheBackend::default(), CacheBackend::Memory);
    assert_eq!(CacheScope::default(), CacheScope::Flow);
    assert_eq!(LoginType::default(), LoginType::Password);
    assert_eq!(PaginationType::default(), PaginationType::PageNumber);
    assert_eq!(default_start_page(), 1);
    assert_eq!(default_page_param(), "page");
}

#[test]
fn test_script_accessors() {
    let s = Script::default();
    assert!(matches!(s.source(), ScriptSource::Code(c) if c.is_empty()));
    assert_eq!(s.engine(), ScriptEngine::JavaScript);
    assert!(s.function().is_none());
    assert!(s.params().is_empty());
    assert!(s.security().is_none());
    let limits = RuntimeLimits::default();
    assert_eq!(limits.max_recursion_depth, 32);
}
