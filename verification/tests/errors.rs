use crawler_core::error::{CrawlerError, ValidationErrors};

#[test]
fn test_validation_errors_empty() {
    let errors = ValidationErrors::new();
    assert!(!errors.has_errors());
    assert!(errors.into_result().is_ok());
}

#[test]
fn test_validation_errors_single() {
    let mut errors = ValidationErrors::new();
    errors.push(CrawlerError::UndefinedVariable {
        variable: "test".to_string(),
    });
    assert!(errors.has_errors());

    let result = errors.into_result();
    assert!(matches!(result, Err(CrawlerError::UndefinedVariable { .. })));
}

#[test]
fn test_validation_errors_multiple() {
    let mut errors = ValidationErrors::new();
    errors.push(CrawlerError::UndefinedVariable {
        variable: "a".to_string(),
    });
    errors.push(CrawlerError::UndefinedComponent {
        component: "b".to_string(),
    });

    let result = errors.into_result();
    assert!(matches!(result, Err(CrawlerError::MultipleErrors { count: 2, .. })));
}

#[test]
fn test_error_messages() {
    let e = CrawlerError::UndefinedComponent { component: "nav".to_string() };
    assert_eq!(e.message(), "组件 'nav' 未定义");
    let e = CrawlerError::PipelineValidation { step_index: 3, message: "bad".to_string() };
    assert_eq!(e.message(), "管道验证错误 (步骤 3): bad");
    let e = CrawlerError::RecursionLimitExceeded { current: 33, max: 32 };
    assert_eq!(e.message(), "递归深度超出限制 (当前: 33, 最大: 32)");
}
