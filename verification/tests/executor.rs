use crawler_core::error::CrawlerError;
use crawler_core::extract::context::Context;
use crawler_core::extract::executor::{
    ConditionExecutor, ConstExecutor, MapExecutor, NoopExecutor, StepExecutorFactory, VarExecutor,
};
use crawler_core::extract::step::{ComponentRef, ConditionStep, ExtractComponent, ExtractStep, FilterCall, IndexSpec};
use crawler_core::jsonval::JsonValue;
use crawler_core::value::ExtractValueData;

fn ctx() -> Context {
    Context::new("https://ex.com/".to_string(), 8, vec![])
}

fn s(text: &str) -> ExtractValueData {
    ExtractValueData::String(text.to_string())
}

#[test]
fn test_var_missing_fails_with_extraction() {
    let context = ctx();
    let r = VarExecutor::execute("missing", &ExtractValueData::Null, &context);
    match r {
        Err(CrawlerError::Extraction(m)) => assert_eq!(m, "Variable not found: missing"),
        other => panic!("expected an extraction error, got {:?}", other),
    }
}

#[test]
fn test_var_found() {
    let mut context = ctx();
    context.set("page", JsonValue::Num("2".to_string()));
    let r = VarExecutor::execute("page", &ExtractValueData::Null, &context).unwrap();
    assert!(matches!(r, ExtractValueData::Json(JsonValue::Num(ref t)) if t == "2"));
}

#[test]
fn test_var_shadowing() {
    let mut context = ctx();
    context.set("k", JsonValue::Str("old".to_string()));
    context.set("k", JsonValue::Str("new".to_string()));
    let r = VarExecutor::execute("k", &ExtractValueData::Null, &context).unwrap();
    assert!(matches!(r, ExtractValueData::String(ref t) if t == "new"));
}

#[test]
fn test_const_ignores_input() {
    let context = ctx();
    let r = ConstExecutor::execute(&JsonValue::Str("fixed".to_string()), &s("ignored"), &context)
        .unwrap();
    assert!(matches!(r, ExtractValueData::String(ref t) if t == "fixed"));
}

#[test]
fn test_noop_returns_input() {
    let context = ctx();
    let input = s("same");
    let r = NoopExecutor::execute(&input, &context).unwrap();
    assert_eq!(r, input);
}

#[test]
fn test_value_unchanged_by_execution() {
    let context = ctx();
    let input = ExtractValueData::Array(vec![s("a"), s("b")]);
    let snapshot = input.clone();
    let step = ExtractStep::Index(IndexSpec::At(0));
    let _ = StepExecutorFactory::execute(&step, &input, &context).unwrap();
    assert_eq!(input, snapshot);
}

#[test]
fn test_index_step() {
    let context = ctx();
    let arr = ExtractValueData::Array(vec![s("a"), s("b"), s("c")]);
    let first = StepExecutorFactory::execute(&ExtractStep::Index(IndexSpec::At(0)), &arr, &context)
        .unwrap();
    assert!(matches!(first, ExtractValueData::String(ref t) if t == "a"));
    let last = StepExecutorFactory::execute(&ExtractStep::Index(IndexSpec::At(-1)), &arr, &context)
        .unwrap();
    assert!(matches!(last, ExtractValueData::String(ref t) if t == "c"));
    let oob = StepExecutorFactory::execute(&ExtractStep::Index(IndexSpec::At(7)), &arr, &context)
        .unwrap();
    assert!(matches!(oob, ExtractValueData::Null));
    let range = StepExecutorFactory::execute(
        &ExtractStep::Index(IndexSpec::Range { start: Some(1), end: None, step: None }),
        &arr,
        &context,
    )
    .unwrap();
    match range {
        ExtractValueData::Array(items) => assert_eq!(items.len(), 2),
        other => panic!("expected an array, got {:?}", other),
    }
}

#[test]
fn test_map_keeps_order_and_drops_failures() {
    let context = ctx();
    let arr = ExtractValueData::Array(vec![s("1"), s("x"), s("3")]);
    let steps = vec![ExtractStep::Filter(FilterCall { name: "to_int".to_string(), args: vec![] })];
    let r = MapExecutor::execute(&steps, &arr, &context).unwrap();
    match r {
        ExtractValueData::Array(items) => {
            assert_eq!(items.len(), 2);
            assert!(matches!(&items[0], ExtractValueData::Json(JsonValue::Num(t)) if t == "1"));
            assert!(matches!(&items[1], ExtractValueData::Json(JsonValue::Num(t)) if t == "3"));
        },
        other => panic!("expected an array, got {:?}", other),
    }
}

#[test]
fn test_map_requires_array() {
    let context = ctx();
    let r = MapExecutor::execute(&vec![], &s("nope"), &context);
    assert!(matches!(r, Err(CrawlerError::Extraction(ref m)) if m == "Map step requires array input"));
}

#[test]
fn test_condition_falsy_takes_otherwise() {
    let context = ctx();
    let cond = ConditionStep {
        when: vec![ExtractStep::Const(JsonValue::Bool(false))],
        then_steps: vec![ExtractStep::Const(JsonValue::Str("yes".to_string()))],
        otherwise: Some(vec![ExtractStep::Const(JsonValue::Str("no".to_string()))]),
    };
    let r = ConditionExecutor::execute(&cond, &ExtractValueData::Json(JsonValue::Null), &context)
        .unwrap();
    assert!(matches!(r, ExtractValueData::String(ref t) if t == "no"));
}

#[test]
fn test_condition_error_counts_as_false() {
    let context = ctx();
    let cond = ConditionStep {
        when: vec![ExtractStep::Var("missing".to_string())],
        then_steps: vec![ExtractStep::Const(JsonValue::Str("yes".to_string()))],
        otherwise: None,
    };
    let input = s("kept");
    let r = ConditionExecutor::execute(&cond, &input, &context).unwrap();
    assert_eq!(r, input);
}

#[test]
fn test_xpath_not_supported() {
    let context = ctx();
    let r = StepExecutorFactory::execute(&ExtractStep::Xpath("//a".to_string()), &s("x"), &context);
    assert!(matches!(r, Err(CrawlerError::Extraction(ref m)) if m == "XPath not supported in this context"));
}

#[test]
fn test_regex_step_captures() {
    let context = ctx();
    let step = ExtractStep::Regex("([a-z]+)=[0-9]+".to_string());
    let r = StepExecutorFactory::execute(&step, &s("a=1 bb=22 c"), &context).unwrap();
    match r {
        ExtractValueData::Array(items) => {
            assert_eq!(items.len(), 2);
            assert!(matches!(&items[0], ExtractValueData::String(t) if t == "a"));
            assert!(matches!(&items[1], ExtractValueData::String(t) if t == "bb"));
        },
        other => panic!("expected an array, got {:?}", other),
    }
}

#[test]
fn test_json_path_step() {
    let context = ctx();
    let doc = JsonValue::Obj(vec![(
        "data".to_string(),
        JsonValue::Arr(vec![
            JsonValue::Obj(vec![("id".to_string(), JsonValue::Num("7".to_string()))]),
        ]),
    )]);
    let step = ExtractStep::Json("$.data.0.id".to_string());
    let r = StepExecutorFactory::execute(&step, &ExtractValueData::Json(doc), &context).unwrap();
    match r {
        ExtractValueData::Array(items) => {
            assert_eq!(items.len(), 1);
            assert!(matches!(&items[0], ExtractValueData::Json(JsonValue::Num(t)) if t == "7"));
        },
        other => panic!("expected an array, got {:?}", other),
    }
    let miss = StepExecutorFactory::execute(
        &ExtractStep::Json("data.9".to_string()),
        &ExtractValueData::Json(JsonValue::Obj(vec![])),
        &context,
    )
    .unwrap();
    assert!(matches!(miss, ExtractValueData::Array(ref items) if items.is_empty()));
}

#[test]
fn test_component_call_and_recursion_cap() {
    let upper = ExtractComponent {
        inputs: vec![],
        steps: vec![ExtractStep::Filter(FilterCall { name: "upper".to_string(), args: vec![] })],
    };
    let looping = ExtractComponent {
        inputs: vec![],
        steps: vec![ExtractStep::UseComponent(ComponentRef {
            name: "loop_me".to_string(),
            with: vec![],
        })],
    };
    let context = Context::new(
        "https://ex.com/".to_string(),
        4,
        vec![("up".to_string(), upper), ("loop_me".to_string(), looping)],
    );
    let call = ExtractStep::UseComponent(ComponentRef { name: "up".to_string(), with: vec![] });
    let r = StepExecutorFactory::execute(&call, &s("abc"), &context).unwrap();
    assert!(matches!(r, ExtractValueData::String(ref t) if t == "ABC"));

    let endless = ExtractStep::UseComponent(ComponentRef {
        name: "loop_me".to_string(),
        with: vec![],
    });
    let r = StepExecutorFactory::execute(&endless, &s("x"), &context);
    assert!(matches!(r, Err(CrawlerError::RecursionLimitExceeded { .. })));

    let unknown = ExtractStep::UseComponent(ComponentRef {
        name: "nope".to_string(),
        with: vec![],
    });
    let r = StepExecutorFactory::execute(&unknown, &s("x"), &context);
    assert!(matches!(r, Err(CrawlerError::UndefinedComponent { .. })));
}

#[test]
fn test_component_inputs_and_with_bindings() {
    let reader = ExtractComponent {
        inputs: vec![("who".to_string(), JsonValue::Str("default".to_string()))],
        steps: vec![ExtractStep::Var("who".to_string())],
    };
    let context = Context::new(
        "https://ex.com/".to_string(),
        4,
        vec![("reader".to_string(), reader)],
    );
    let plain = ExtractStep::UseComponent(ComponentRef { name: "reader".to_string(), with: vec![] });
    let r = StepExecutorFactory::execute(&plain, &ExtractValueData::Null, &context).unwrap();
    assert!(matches!(r, ExtractValueData::String(ref t) if t == "default"));

    let bound = ExtractStep::UseComponent(ComponentRef {
        name: "reader".to_string(),
        with: vec![("who".to_string(), JsonValue::Str("bound".to_string()))],
    });
    let r = StepExecutorFactory::execute(&bound, &ExtractValueData::Null, &context).unwrap();
    assert!(matches!(r, ExtractValueData::String(ref t) if t == "bound"));
}
