use crawler_core::config::http::{HttpConfig, DEFAULT_TIMEOUT, DEFAULT_USER_AGENT};
use crawler_core::config::script_security::ScriptSecurityConfig;
use crawler_core::config::traits::ConfigMerge;
use std::collections::HashMap;

#[test]
fn test_http_config_merge() {
    let global = HttpConfig {
        user_agent: Some("GlobalUA".to_string()),
        timeout: Some(60),
        proxy: Some("http://proxy:8080".to_string()),
        ..Default::default()
    };

    let local = HttpConfig {
        timeout: Some(30),
        verify_ssl: Some(false),
        ..Default::default()
    };

    let merged = global.merge(&local);

    assert_eq!(merged.user_agent, Some("GlobalUA".to_string()));
    assert_eq!(merged.timeout, Some(30));
    assert_eq!(merged.proxy, Some("http://proxy:8080".to_string()));
    assert_eq!(merged.verify_ssl, Some(false));
}

#[test]
fn test_with_defaults() {
    let config = HttpConfig::with_defaults();
    assert_eq!(config.user_agent_or_default(), DEFAULT_USER_AGENT);
    assert_eq!(config.timeout_or_default(), DEFAULT_TIMEOUT);
    assert!(config.follow_redirects_or_default());
}

#[test]
fn test_option_merge() {
    let a: Option<i32> = Some(1);
    let b: Option<i32> = Some(2);
    let c: Option<i32> = None;

    assert_eq!(a.merge(&b), Some(2));
    assert_eq!(a.merge(&c), Some(1));
    assert_eq!(c.merge(&a), Some(1));
}

#[test]
fn test_hashmap_merge() {
    let mut a = HashMap::new();
    a.insert("key1", "value1");
    a.insert("key2", "value2");

    let mut b = HashMap::new();
    b.insert("key2", "new_value2");
    b.insert("key3", "value3");

    let merged = a.merge(&b);
    assert_eq!(merged.get("key1"), Some(&"value1"));
    assert_eq!(merged.get("key2"), Some(&"new_value2"));
    assert_eq!(merged.get("key3"), Some(&"value3"));
}

#[test]
fn test_script_security_merge() {
    let local = ScriptSecurityConfig {
        max_memory_mb: None,
        allow_file_access: false,
        allow_network: true,
        timeout_seconds: Some(60),
    };
    let global = ScriptSecurityConfig {
        max_memory_mb: Some(256),
        allow_file_access: true,
        allow_network: false,
        timeout_seconds: Some(30),
    };
    let merged = local.merge_with(Some(&global));
    assert_eq!(merged.max_memory_mb, Some(256));
    assert!(merged.allow_file_access);
    assert!(merged.allow_network);
    assert_eq!(merged.timeout_seconds, Some(60));
}
