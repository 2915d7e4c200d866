use crawler_core::extract::context::Context;
use crawler_core::extract::engine::ExtractEngine;
use crawler_core::extract::step::{ExtractStep, FieldExtractor, FilterCall, IndexSpec};
use crawler_core::jsonval::JsonValue;
use crawler_core::value::ExtractValueData;

fn ctx() -> Context {
    Context::new("https://ex.com/".to_string(), 8, vec![])
}

fn filter(name: &str, args: Vec<JsonValue>) -> ExtractStep {
    ExtractStep::Filter(FilterCall { name: name.to_string(), args })
}

#[test]
fn test_css_trim_chain() {
    let context = ctx();
    let extractor = FieldExtractor {
        steps: vec![
            ExtractStep::Css("h1".to_string()),
            ExtractStep::Index(IndexSpec::At(0)),
            filter("strip_html", vec![]),
            filter("trim", vec![]),
        ],
        fallback: None,
        default: None,
        nullable: false,
    };
    let input = ExtractValueData::Html("<h1>  Hello  </h1>".to_string());
    let r = ExtractEngine::extract_field(&extractor, &input, &context).unwrap();
    assert!(matches!(r, ExtractValueData::String(ref t) if t == "Hello"));
}

#[test]
fn test_fallback_fires_before_default() {
    let context = ctx();
    let extractor = FieldExtractor {
        steps: vec![ExtractStep::Css(".missing".to_string())],
        fallback: Some(vec![
            vec![ExtractStep::Css(".also-missing".to_string())],
            vec![ExtractStep::Const(JsonValue::Str("unknown".to_string()))],
        ]),
        default: Some(JsonValue::Null),
        nullable: false,
    };
    let input = ExtractValueData::Html("<div>whatever</div>".to_string());
    let r = ExtractEngine::extract_field(&extractor, &input, &context).unwrap();
    assert!(matches!(r, ExtractValueData::String(ref t) if t == "unknown"));
}

#[test]
fn test_primary_success_skips_fallback() {
    let context = ctx();
    let extractor = FieldExtractor {
        steps: vec![ExtractStep::Const(JsonValue::Str("primary".to_string()))],
        fallback: Some(vec![vec![ExtractStep::Const(JsonValue::Str("fallback".to_string()))]]),
        default: Some(JsonValue::Str("default".to_string())),
        nullable: false,
    };
    let r = ExtractEngine::extract_field(&extractor, &ExtractValueData::Null, &context).unwrap();
    assert!(matches!(r, ExtractValueData::String(ref t) if t == "primary"));
}

#[test]
fn test_default_when_everything_fails() {
    let context = ctx();
    let extractor = FieldExtractor {
        steps: vec![ExtractStep::Var("gone".to_string())],
        fallback: None,
        default: Some(JsonValue::Str("fallback-default".to_string())),
        nullable: false,
    };
    let r = ExtractEngine::extract_field(&extractor, &ExtractValueData::Null, &context).unwrap();
    assert!(matches!(r, ExtractValueData::String(ref t) if t == "fallback-default"));
}

#[test]
fn test_empty_non_nullable_is_an_error() {
    let context = ctx();
    let extractor = FieldExtractor {
        steps: vec![ExtractStep::Const(JsonValue::Str("".to_string()))],
        fallback: None,
        default: None,
        nullable: false,
    };
    let r = ExtractEngine::extract_field(&extractor, &ExtractValueData::Null, &context);
    match r {
        Err(e) => assert_eq!(e.message(), "提取错误: Field extraction returned empty value"),
        Ok(v) => panic!("expected an error, got {:?}", v),
    }
}

#[test]
fn test_empty_nullable_passes_through() {
    let context = ctx();
    let extractor = FieldExtractor {
        steps: vec![ExtractStep::Const(JsonValue::Str("".to_string()))],
        fallback: None,
        default: Some(JsonValue::Str("unused".to_string())),
        nullable: true,
    };
    let r = ExtractEngine::extract_field(&extractor, &ExtractValueData::Null, &context).unwrap();
    assert!(matches!(r, ExtractValueData::String(ref t) if t.is_empty()));
}

#[test]
fn test_map_absolute_urls_in_order() {
    let context = ctx();
    let input = ExtractValueData::Array(vec![
        ExtractValueData::Html("<a href='/a'>x</a>".to_string()),
        ExtractValueData::Html("<span/>".to_string()),
        ExtractValueData::Html("<a href='/b'>y</a>".to_string()),
    ]);
    let steps = vec![ExtractStep::MapEach(vec![
        ExtractStep::Css("a".to_string()),
        ExtractStep::Index(IndexSpec::At(0)),
        ExtractStep::Attr("href".to_string()),
        filter("absolute_url", vec![JsonValue::Str("https://ex.com/".to_string())]),
    ])];
    let extractor = FieldExtractor { steps, fallback: None, default: None, nullable: false };
    let r = ExtractEngine::extract_field(&extractor, &input, &context).unwrap();
    match r {
        ExtractValueData::Array(items) => {
            assert_eq!(items.len(), 2);
            assert!(matches!(&items[0], ExtractValueData::String(t) if t == "https://ex.com/a"));
            assert!(matches!(&items[1], ExtractValueData::String(t) if t == "https://ex.com/b"));
        },
        other => panic!("expected an array, got {:?}", other),
    }
}

#[test]
fn test_css_nested_elements() {
    let context = ctx();
    let html = "<div class='chap'><a href='/c1'>One</a></div><div class='chap'><a href='/c2'>Two</a></div>";
    let extractor = FieldExtractor {
        steps: vec![ExtractStep::Css(".chap".to_string())],
        fallback: None,
        default: None,
        nullable: false,
    };
    let input = ExtractValueData::Html(html.to_string());
    let r = ExtractEngine::extract_field(&extractor, &input, &context).unwrap();
    match r {
        ExtractValueData::Array(items) => {
            assert_eq!(items.len(), 2);
            assert!(matches!(&items[0], ExtractValueData::Html(t)
                if t == "<div class='chap'><a href='/c1'>One</a></div>"));
        },
        other => panic!("expected an array, got {:?}", other),
    }
}

#[test]
fn test_css_selector_forms() {
    let context = ctx();
    let html = "<p id='x' class='big bold'>A</p><p class='big'>B</p><img class='cover' src='/i.png'>";
    let input = ExtractValueData::Html(html.to_string());
    let count = |sel: &str| -> usize {
        let extractor = FieldExtractor {
            steps: vec![ExtractStep::Css(sel.to_string())],
            fallback: None,
            default: None,
            nullable: true,
        };
        match ExtractEngine::extract_field(&extractor, &input, &context).unwrap() {
            ExtractValueData::Array(items) => items.len(),
            other => panic!("expected an array, got {:?}", other),
        }
    };
    assert_eq!(count("p"), 2);
    assert_eq!(count(".big"), 2);
    assert_eq!(count("p.bold"), 1);
    assert_eq!(count("#x"), 1);
    assert_eq!(count("img.cover"), 1);
    assert_eq!(count(".nope"), 0);
}

#[test]
fn test_invalid_css_selector_is_an_error() {
    let context = ctx();
    let extractor = FieldExtractor {
        steps: vec![ExtractStep::Css("p >".to_string())],
        fallback: None,
        default: None,
        nullable: true,
    };
    let input = ExtractValueData::Html("<p>x</p>".to_string());
    let r = ExtractEngine::extract_field(&extractor, &input, &context);
    assert!(r.is_err());
}
