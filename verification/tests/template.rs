use crawler_core::error::CrawlerError;
use crawler_core::extract::context::Context;
use crawler_core::jsonval::JsonValue;
use crawler_core::template::{Template, TemplateValidator};

fn ctx() -> Context {
    Context::new("https://ex.com/".to_string(), 8, vec![])
}

#[test]
fn test_template_render() {
    let mut context = ctx();
    context.set("id", JsonValue::Str("42".to_string()));
    let t = Template::new("https://site/b/{{ id }}");
    assert_eq!(t.render(&context).unwrap(), "https://site/b/42");
}

#[test]
fn test_template_renders_json_variables() {
    let mut context = ctx();
    context.set("page", JsonValue::Num("3".to_string()));
    let t = Template::new("?p={{page}}&q=x");
    assert_eq!(t.render(&context).unwrap(), "?p=3&q=x");
}

#[test]
fn test_template_missing_variable() {
    let context = ctx();
    let t = Template::new("{{ nope }}");
    let r = t.render(&context);
    assert!(matches!(r, Err(CrawlerError::UndefinedVariable { ref variable }) if variable == "nope"));
}

#[test]
fn test_template_syntax_check() {
    assert!(Template::new("plain text").validate().is_ok());
    assert!(Template::new("a {{ ok_name }} b").validate().is_ok());
    assert!(Template::new("a {{ 1bad }}").validate().is_err());
    assert!(Template::new("a {{ unclosed").validate().is_err());
    assert!(Template::new("{{}}").validate().is_err());
}

#[test]
fn test_template_variables() {
    let t = Template::new("{{a}}/{{ b }}/{{a}}");
    let vars = t.variables();
    assert_eq!(vars, vec!["a".to_string(), "b".to_string(), "a".to_string()]);
}

#[test]
fn test_template_dotted_path_renders() {
    let mut context = ctx();
    context.set(
        "item",
        JsonValue::Obj(vec![
            ("title".to_string(), JsonValue::Str("T".to_string())),
            ("ids".to_string(), JsonValue::Arr(vec![JsonValue::Num("7".to_string())])),
        ]),
    );
    assert_eq!(Template::new("/b/{{ item.title }}").render(&context).unwrap(), "/b/T");
    assert_eq!(Template::new("/n/{{ item.ids[0] }}").render(&context).unwrap(), "/n/7");
    let missing = Template::new("{{ item.nope }}").render(&context);
    assert!(matches!(missing, Err(CrawlerError::UndefinedVariable { ref variable })
        if variable == "item.nope"));
}

#[test]
fn test_template_dotted_path_parses_and_roots() {
    let t = Template::new("{{ a.b }} {{ c[1].d }}");
    assert!(t.validate().is_ok());
    assert_eq!(t.variables(), vec!["a".to_string(), "c".to_string()]);
    assert!(Template::new("{{ a. }}").validate().is_err());
    assert!(Template::new("{{ a[] }}").validate().is_err());
    assert!(Template::new("{{ a[x] }}").validate().is_err());
}
