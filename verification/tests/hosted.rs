use crawler_core::config::script_security::ScriptSecurityConfig;
use crawler_core::extract::context::Context;
use crawler_core::extract::hosted::{resume_chain_hosted, run_chain_hosted, ChainOutcome};
use crawler_core::extract::step::{ExtractStep, FilterCall, ScriptCall};
use crawler_core::jsonval::JsonValue;
use crawler_core::value::ExtractValueData;

fn s(text: &str) -> ExtractValueData {
    ExtractValueData::String(text.to_string())
}

#[test]
fn test_hosted_chain_suspends_at_script() {
    let global = ScriptSecurityConfig {
        max_memory_mb: Some(64),
        allow_file_access: false,
        allow_network: true,
        timeout_seconds: None,
    };
    let context = Context::new("https://ex.com/".to_string(), 8, vec![])
        .with_script_security(global);
    let steps = vec![
        ExtractStep::Filter(FilterCall { name: "trim".to_string(), args: vec![] }),
        ExtractStep::Script(ScriptCall {
            call: "m.f".to_string(),
            params: vec![("x".to_string(), JsonValue::Num("1".to_string()))],
            security: Some(ScriptSecurityConfig {
                max_memory_mb: None,
                allow_file_access: true,
                allow_network: false,
                timeout_seconds: Some(5),
            }),
        }),
        ExtractStep::Filter(FilterCall { name: "upper".to_string(), args: vec![] }),
    ];
    let outcome = run_chain_hosted(&steps, 0, &s("  ab  "), &context);
    match outcome {
        ChainOutcome::Pending(invocation, resume_at) => {
            assert_eq!(invocation.call, "m.f");
            assert_eq!(resume_at, 2);
            assert!(matches!(invocation.input, ExtractValueData::String(ref t) if t == "ab"));
            assert_eq!(invocation.security.max_memory_mb, Some(64));
            assert!(invocation.security.allow_file_access);
            assert!(invocation.security.allow_network);
            assert_eq!(invocation.security.timeout_seconds, Some(5));
            let done = resume_chain_hosted(&steps, resume_at,
                &JsonValue::Str("out".to_string()), &context);
            match done {
                ChainOutcome::Done(v) => {
                    assert!(matches!(v, ExtractValueData::String(ref t) if t == "OUT"));
                },
                other => panic!("expected the chain to finish, got {:?}", other),
            }
        },
        other => panic!("expected a pending invocation, got {:?}", other),
    }
}

#[test]
fn test_hosted_chain_without_scripts_runs_through() {
    let context = Context::new(String::new(), 8, vec![]);
    let steps = vec![ExtractStep::Filter(FilterCall { name: "lower".to_string(), args: vec![] })];
    match run_chain_hosted(&steps, 0, &s("AB"), &context) {
        ChainOutcome::Done(v) => assert!(matches!(v, ExtractValueData::String(ref t) if t == "ab")),
        other => panic!("expected the chain to finish, got {:?}", other),
    }
}

#[test]
fn test_hosted_chain_reports_failures() {
    let context = Context::new(String::new(), 8, vec![]);
    let steps = vec![ExtractStep::Var("missing".to_string())];
    match run_chain_hosted(&steps, 0, &ExtractValueData::Null, &context) {
        ChainOutcome::Failed(e) => assert_eq!(e.message(), "提取错误: Variable not found: missing"),
        other => panic!("expected a failure, got {:?}", other),
    }
}
