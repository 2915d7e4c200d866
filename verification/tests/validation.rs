use crawler_core::config::meta::Meta;
use crawler_core::error::CrawlerError;
use crawler_core::flow::{Component, DetailFlow, SearchFlow};
use crawler_core::pipeline::{Step, StepCall, StepScript};
use crawler_core::rule::CrawlerRule;
use crawler_core::types::MediaType;
use crawler_core::validation::RuleValidate;

fn create_minimal_rule() -> CrawlerRule {
    CrawlerRule {
        meta: Meta {
            name: "Test".to_string(),
            author: "Test".to_string(),
            version: "1.0.0".to_string(),
            spec_version: "1.0.0".to_string(),
            domain: "example.com".to_string(),
            media_type: MediaType::Video,
            description: None,
            encoding: None,
            icon_url: None,
        },
        http: None,
        limits: None,
        scripting: None,
        components: None,
        login: None,
        list: None,
        detail: DetailFlow {
            description: None,
            pipeline: vec![],
        },
        search: SearchFlow {
            description: None,
            pagination: None,
            filters: None,
            pipeline: vec![],
        },
    }
}

#[test]
fn test_validate_empty_rule() {
    let rule = create_minimal_rule();
    assert!(RuleValidate::validate(&rule).is_ok());
}

#[test]
fn test_validate_undefined_component() {
    let mut rule = create_minimal_rule();
    rule.detail.pipeline.push(Step::Call(StepCall {
        component: "undefined_component".to_string(),
        with: None,
        output: "result".to_string(),
    }));

    let result = RuleValidate::validate(&rule);
    assert!(matches!(
        result,
        Err(CrawlerError::UndefinedComponent { .. })
    ));
}

#[test]
fn test_validate_circular_reference() {
    let mut rule = create_minimal_rule();

    let mut components = Vec::new();
    components.push((
        "A".to_string(),
        Component {
            description: None,
            inputs: None,
            pipeline: vec![Step::Call(StepCall {
                component: "B".to_string(),
                with: None,
                output: "result".to_string(),
            })],
        },
    ));
    components.push((
        "B".to_string(),
        Component {
            description: None,
            inputs: None,
            pipeline: vec![Step::Call(StepCall {
                component: "A".to_string(),
                with: None,
                output: "result".to_string(),
            })],
        },
    ));
    rule.components = Some(components);

    let result = RuleValidate::validate(&rule);
    assert!(result.is_err());
    if let Err(e) = result {
        let error_msg = e.message();
        assert!(
            error_msg.contains("循环引用") || matches!(e, CrawlerError::MultipleErrors { .. }),
            "Expected circular reference error, got: {}",
            error_msg
        );
    }
}

#[test]
fn test_validate_cycle_path_names_both_nodes() {
    let mut rule = create_minimal_rule();
    let mut components = Vec::new();
    components.push((
        "A".to_string(),
        Component {
            description: None,
            inputs: None,
            pipeline: vec![Step::Call(StepCall {
                component: "B".to_string(),
                with: None,
                output: "r".to_string(),
            })],
        },
    ));
    components.push((
        "B".to_string(),
        Component {
            description: None,
            inputs: None,
            pipeline: vec![Step::Call(StepCall {
                component: "A".to_string(),
                with: None,
                output: "r".to_string(),
            })],
        },
    ));
    rule.components = Some(components);
    let result = RuleValidate::validate(&rule);
    let e = result.err().expect("cycle must be rejected");
    let texts: Vec<String> = match &e {
        CrawlerError::MultipleErrors { errors, .. } => errors.iter().map(|x| x.message()).collect(),
        other => vec![other.message()],
    };
    let cycle_text = texts
        .iter()
        .find(|m| m.contains("循环引用"))
        .expect("a cycle report must be among the findings");
    assert!(cycle_text.contains("A -> B -> A") || cycle_text.contains("B -> A -> B"),
        "cycle path should name both nodes: {}", cycle_text);
}

#[test]
fn test_validate_three_cycle_rejected() {
    let mut rule = create_minimal_rule();
    let call = |target: &str| Step::Call(StepCall {
        component: target.to_string(),
        with: None,
        output: "r".to_string(),
    });
    let mut components = Vec::new();
    components.push(("A".to_string(), Component {
        description: None,
        inputs: None,
        pipeline: vec![call("B")],
    }));
    components.push(("B".to_string(), Component {
        description: None,
        inputs: None,
        pipeline: vec![call("C")],
    }));
    components.push(("C".to_string(), Component {
        description: None,
        inputs: None,
        pipeline: vec![call("A")],
    }));
    rule.components = Some(components);
    let result = RuleValidate::validate(&rule);
    let e = result.err().expect("a three-component cycle must be rejected");
    let texts: Vec<String> = match &e {
        CrawlerError::MultipleErrors { errors, .. } => errors.iter().map(|x| x.message()).collect(),
        other => vec![other.message()],
    };
    let cycle_text = texts
        .iter()
        .find(|m| m.contains("循环引用"))
        .expect("a cycle report must be among the findings");
    assert!(cycle_text.contains("A") && cycle_text.contains("B") && cycle_text.contains("C"),
        "cycle path should name all three nodes: {}", cycle_text);
}

#[test]
fn test_validate_undefined_script_module() {
    let mut rule = create_minimal_rule();
    rule.detail.pipeline.push(Step::Script(StepScript {
        call: "m.f".to_string(),
        input: None,
        output: "out".to_string(),
    }));
    let result = RuleValidate::validate(&rule);
    assert!(matches!(result, Err(CrawlerError::UndefinedScriptModule { ref module }) if module == "m"));
}

