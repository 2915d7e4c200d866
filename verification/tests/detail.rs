use crawler_core::detail::{
    BookDetailFields, ChapterListRule, DetailFields, DetailFlowExecutor, DetailPlan, DetailRequest,
    DetailResponse,
};
use crawler_core::extract::context::Context;
use crawler_core::extract::step::{ExtractStep, FieldExtractor, FilterCall, IndexSpec};
use crawler_core::jsonval::JsonValue;
use crawler_core::template::Template;

fn chain(steps: Vec<ExtractStep>) -> FieldExtractor {
    FieldExtractor { steps, fallback: None, default: None, nullable: false }
}

fn filter(name: &str, args: Vec<JsonValue>) -> ExtractStep {
    ExtractStep::Filter(FilterCall { name: name.to_string(), args })
}

fn text_chain(selector: &str) -> FieldExtractor {
    chain(vec![
        ExtractStep::Css(selector.to_string()),
        ExtractStep::Index(IndexSpec::At(0)),
        filter("strip_html", vec![]),
        filter("trim", vec![]),
    ])
}

fn attr_chain(selector: &str, attr: &str, base: &str) -> FieldExtractor {
    chain(vec![
        ExtractStep::Css(selector.to_string()),
        ExtractStep::Index(IndexSpec::At(0)),
        ExtractStep::Attr(attr.to_string()),
        filter("absolute_url", vec![JsonValue::Str(base.to_string())]),
    ])
}

#[test]
fn test_book_detail_end_to_end() {
    let base = "https://site/";
    let plan = DetailPlan {
        url: Template::new("https://site/b/{{ id }}"),
        fields: DetailFields::Book(BookDetailFields {
            title: text_chain(".t"),
            author: text_chain(".a"),
            cover: Some(attr_chain("img.cover", "src", base)),
            intro: None,
            category: None,
            status: None,
            last_chapter: None,
            word_count: None,
            chapters: Some(ChapterListRule {
                list: chain(vec![ExtractStep::Css(".chap".to_string())]),
                title: text_chain("a"),
                url: attr_chain("a", "href", base),
            }),
        }),
    };
    let executor = DetailFlowExecutor::new(plan).with_base_url(base.to_string());
    let mut context = Context::new(base.to_string(), 8, vec![]);
    context.set("id", JsonValue::Str("42".to_string()));

    let url = executor
        .prepare_url(&DetailRequest { url: "https://site/b/42".to_string() }, &mut context)
        .unwrap();
    assert_eq!(url, "https://site/b/42");

    let html = "<h1 class='t'> The Title </h1><span class='a'>An Author</span>\
<img class='cover' src='/cover.png'>\
<div class='chap'><a href='/c/1'>Chapter One</a></div>\
<div class='chap'><a href='/c/2'>Chapter Two</a></div>";
    let response = executor.extract_detail(html, &context).unwrap();
    match response {
        DetailResponse::Book(book) => {
            assert_eq!(book.title, "The Title");
            assert_eq!(book.author, "An Author");
            assert_eq!(book.cover.as_deref(), Some("https://site/cover.png"));
            assert_eq!(book.chapters.len(), 2);
            assert_eq!(book.chapters[0].title, "Chapter One");
            assert_eq!(book.chapters[0].url, "https://site/c/1");
            assert_eq!(book.chapters[1].title, "Chapter Two");
            assert_eq!(book.chapters[1].url, "https://site/c/2");
            assert_eq!(crawler_core::jsonval::json_to_string(&book.raw), "{}");
        },
        other => panic!("expected a book, got {:?}", other),
    }
}

#[test]
fn test_book_detail_missing_title_fails() {
    let plan = DetailPlan {
        url: Template::new("https://site/b"),
        fields: DetailFields::Book(BookDetailFields {
            title: text_chain(".t"),
            author: text_chain(".a"),
            cover: None,
            intro: None,
            category: None,
            status: None,
            last_chapter: None,
            word_count: None,
            chapters: None,
        }),
    };
    let executor = DetailFlowExecutor::new(plan);
    let context = Context::new("https://site/".to_string(), 8, vec![]);
    let r = executor.extract_detail("<p>nothing here</p>", &context);
    match r {
        Err(e) => assert_eq!(e.message(), "提取错误: 无法提取标题"),
        Ok(v) => panic!("expected an error, got {:?}", v),
    }
}

#[test]
fn test_other_kinds_return_their_mark() {
    let plan = DetailPlan { url: Template::new("u"), fields: DetailFields::Video };
    let executor = DetailFlowExecutor::new(plan);
    let context = Context::new(String::new(), 8, vec![]);
    let r = executor.extract_detail("<p/>", &context).unwrap();
    assert_eq!(r.title(), "");
    match r {
        DetailResponse::Other(j) => {
            assert_eq!(crawler_core::jsonval::json_to_string(&j), "{\"type\":\"video\"}");
        },
        other => panic!("expected untyped capture, got {:?}", other),
    }
}

#[test]
fn test_response_accessors() {
    let v = JsonValue::Obj(vec![
        ("title".to_string(), JsonValue::Str("T".to_string())),
        ("author".to_string(), JsonValue::Str("A".to_string())),
        ("intro".to_string(), JsonValue::Str("I".to_string())),
    ]);
    let r = DetailResponse::Other(v);
    assert_eq!(r.title(), "T");
    assert_eq!(r.author(), "A");
    assert_eq!(r.intro(), Some("I"));
}
