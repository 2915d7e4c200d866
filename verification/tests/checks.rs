use crawler_core::error::ValidationErrors;
use crawler_core::extract::checks::{check_field_extractor, check_xsteps};
use crawler_core::extract::step::{ExtractStep, FieldExtractor, FilterCall, IndexSpec};

#[test]
fn test_static_check_accepts_sound_steps() {
    let steps = vec![
        ExtractStep::Css("div.item".to_string()),
        ExtractStep::Regex("[a-z]+".to_string()),
        ExtractStep::Filter(FilterCall { name: "trim".to_string(), args: vec![] }),
        ExtractStep::Index(IndexSpec::Range { start: None, end: None, step: Some(2) }),
        ExtractStep::MapEach(vec![ExtractStep::Attr("href".to_string())]),
    ];
    let mut errors = ValidationErrors::new();
    check_xsteps(&steps, &mut errors);
    assert!(errors.is_empty());
}

#[test]
fn test_static_check_reports_each_fault() {
    let steps = vec![
        ExtractStep::Regex("[".to_string()),
        ExtractStep::Css("p >".to_string()),
        ExtractStep::Filter(FilterCall { name: "blur".to_string(), args: vec![] }),
        ExtractStep::Index(IndexSpec::Range { start: None, end: None, step: Some(0) }),
    ];
    let mut errors = ValidationErrors::new();
    check_xsteps(&steps, &mut errors);
    assert_eq!(errors.len(), 4);
}

#[test]
fn test_static_check_reaches_nested_pipelines() {
    let fx = FieldExtractor {
        steps: vec![ExtractStep::MapEach(vec![ExtractStep::Regex("(".to_string())])],
        fallback: Some(vec![vec![ExtractStep::Css("#".to_string())]]),
        default: None,
        nullable: false,
    };
    let mut errors = ValidationErrors::new();
    check_field_extractor(&fx, &mut errors);
    assert_eq!(errors.len(), 2);
}
