use crawler_core::error::CrawlerError;
use crawler_core::pipeline::{Pipeline, PipelineExt, Step, StepCategory, StepConstant, StepLog, StepStringTemplate, StepTrait};
use crawler_core::jsonval::JsonValue;
use crawler_core::template::Template;

#[test]
fn test_pipeline_validate_wraps_step_findings() {
    let p: Pipeline = vec![
        Step::Constant(StepConstant {
            value: JsonValue::Null,
            output: "ok_name".to_string(),
        }),
        Step::Constant(StepConstant {
            value: JsonValue::Null,
            output: "1bad".to_string(),
        }),
    ];
    let r = PipelineExt::validate(&p);
    match r {
        Err(CrawlerError::PipelineValidation { step_index, message }) => {
            assert_eq!(step_index, 1);
            assert!(message.contains("1bad"));
        },
        other => panic!("expected a pipeline finding, got {:?}", other),
    }
}

#[test]
fn test_pipeline_validate_rejects_bad_template() {
    let p: Pipeline = vec![Step::Log(StepLog { message: Template::new("{{ broken") })];
    assert!(PipelineExt::validate(&p).is_err());
}

#[test]
fn test_dotted_required_variables_keep_roots() {
    let p: Pipeline = vec![Step::Log(StepLog { message: Template::new("{{ item.title }}") })];
    assert_eq!(p.required_external_variables(), vec!["item".to_string()]);
}

#[test]
fn test_pipeline_variable_queries() {
    let p: Pipeline = vec![
        Step::StringTemplate(StepStringTemplate {
            template: Template::new("{{ seed }}-x"),
            output: "made".to_string(),
        }),
        Step::Log(StepLog { message: Template::new("{{ made }} {{ other }}") }),
    ];
    assert_eq!(p.output_variables(), vec!["made".to_string()]);
    assert_eq!(
        p.required_external_variables(),
        vec!["seed".to_string(), "other".to_string()]
    );
}

#[test]
fn test_step_identity() {
    let step = Step::Log(StepLog { message: Template::new("m") });
    assert_eq!(StepTrait::name(&step), "log");
    assert_eq!(StepTrait::category(&step), StepCategory::Debug);
    assert!(StepTrait::output_variable(&step).is_none());
    assert_eq!(StepTrait::templates(&step).len(), 1);
}
