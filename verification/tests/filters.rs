use crawler_core::extract::filter::{
    apply_filter, AbsoluteUrlFilter, JoinFilter, LowerFilter, RegexReplaceFilter, ReplaceFilter,
    SplitFilter, StripHtmlFilter, SubstringFilter, ToIntFilter, ToStringFilter, TrimFilter,
    UpperFilter, UrlDecodeFilter, UrlEncodeFilter,
};
use crawler_core::jsonval::JsonValue;
use crawler_core::value::ExtractValueData;

fn s(text: &str) -> ExtractValueData {
    ExtractValueData::String(text.to_string())
}

fn text_of(v: ExtractValueData) -> String {
    match v {
        ExtractValueData::String(t) => t,
        other => panic!("expected a string, got {:?}", other),
    }
}

#[test]
fn test_trim_filter() {
    let out = TrimFilter.apply(&s("  Hello \u{3000} "), &vec![]).unwrap();
    assert_eq!(text_of(out), "Hello");
    assert!(TrimFilter.apply(&ExtractValueData::Null, &vec![]).is_err());
}

#[test]
fn test_case_filters() {
    assert_eq!(text_of(LowerFilter.apply(&s("AbC"), &vec![]).unwrap()), "abc");
    assert_eq!(text_of(UpperFilter.apply(&s("AbC"), &vec![]).unwrap()), "ABC");
}

#[test]
fn test_replace_filter() {
    let args = vec![
        JsonValue::Str("l".to_string()),
        JsonValue::Str("r".to_string()),
    ];
    assert_eq!(text_of(ReplaceFilter.apply(&s("hello"), &args).unwrap()), "herro");
    let e = ReplaceFilter.apply(&s("x"), &vec![]).unwrap_err();
    assert_eq!(e.message(), "提取错误: replace filter requires 2 arguments: from, to");
}

#[test]
fn test_regex_replace_filter() {
    let args = vec![
        JsonValue::Str("[0-9]+".to_string()),
        JsonValue::Str("#".to_string()),
    ];
    assert_eq!(
        text_of(RegexReplaceFilter.apply(&s("a1b22c"), &args).unwrap()),
        "a#b#c"
    );
    let bad = vec![
        JsonValue::Str("[".to_string()),
        JsonValue::Str("#".to_string()),
    ];
    assert!(RegexReplaceFilter.apply(&s("a"), &bad).is_err());
}

#[test]
fn test_split_join_round_trip() {
    let sep = vec![JsonValue::Str(", ".to_string())];
    let parts = SplitFilter.apply(&s("a, b, c"), &sep).unwrap();
    match &parts {
        ExtractValueData::Array(items) => assert_eq!(items.len(), 3),
        other => panic!("expected an array, got {:?}", other),
    }
    let joined = JoinFilter.apply(&parts, &sep).unwrap();
    assert_eq!(text_of(joined), "a, b, c");
}

#[test]
fn test_split_empty_separator_boundary_pieces() {
    let sep = vec![JsonValue::Str("".to_string())];
    let parts = SplitFilter.apply(&s("ab"), &sep).unwrap();
    match &parts {
        ExtractValueData::Array(items) => {
            assert_eq!(items.len(), 4);
            assert!(matches!(&items[0], ExtractValueData::String(t) if t.is_empty()));
            assert!(matches!(&items[1], ExtractValueData::String(t) if t == "a"));
            assert!(matches!(&items[2], ExtractValueData::String(t) if t == "b"));
            assert!(matches!(&items[3], ExtractValueData::String(t) if t.is_empty()));
        },
        other => panic!("expected an array, got {:?}", other),
    }
    let joined = JoinFilter.apply(&parts, &sep).unwrap();
    match joined {
        ExtractValueData::String(t) => assert_eq!(t, "ab"),
        other => panic!("expected a string, got {:?}", other),
    }
    let empty_input = SplitFilter.apply(&s(""), &sep).unwrap();
    match empty_input {
        ExtractValueData::Array(items) => assert_eq!(items.len(), 2),
        other => panic!("expected an array, got {:?}", other),
    }
}

#[test]
fn test_error_causes_carried() {
    let bad = vec![
        JsonValue::Str("[".to_string()),
        JsonValue::Str("#".to_string()),
    ];
    let e = RegexReplaceFilter.apply(&s("a"), &bad).unwrap_err();
    let m = e.message();
    assert!(m.starts_with("提取错误: Invalid regex pattern: "));
    assert!(m.len() > "提取错误: Invalid regex pattern: ".len());

    let e = ToIntFilter.apply(&s(""), &vec![]).unwrap_err();
    assert_eq!(e.message(), "提取错误: Failed to parse int: cannot parse integer from empty string");
    let e = ToIntFilter.apply(&s("4x"), &vec![]).unwrap_err();
    assert_eq!(e.message(), "提取错误: Failed to parse int: invalid digit found in string");
    let e = ToIntFilter.apply(&s("99999999999999999999"), &vec![]).unwrap_err();
    assert_eq!(e.message(), "提取错误: Failed to parse int: number too large to fit in target type");
    let e = ToIntFilter.apply(&s("-99999999999999999999"), &vec![]).unwrap_err();
    assert_eq!(e.message(), "提取错误: Failed to parse int: number too small to fit in target type");

    let e = UrlDecodeFilter.apply(&s("%FF"), &vec![]).unwrap_err();
    assert!(e.message().starts_with("提取错误: Failed to decode URL: "));
}

#[test]
fn test_strip_html_filter() {
    assert_eq!(
        text_of(StripHtmlFilter.apply(&s("<h1>  Hello  </h1>"), &vec![]).unwrap()),
        "  Hello  "
    );
    assert_eq!(text_of(StripHtmlFilter.apply(&s("a<>b<x"), &vec![]).unwrap()), "a<>b<x");
}

#[test]
fn test_substring_filter() {
    let args = vec![
        JsonValue::Num("1".to_string()),
        JsonValue::Num("3".to_string()),
    ];
    assert_eq!(text_of(SubstringFilter.apply(&s("abcdef"), &args).unwrap()), "bcd");
    let clamped = vec![
        JsonValue::Num("4".to_string()),
        JsonValue::Num("99".to_string()),
    ];
    assert_eq!(text_of(SubstringFilter.apply(&s("abcdef"), &clamped).unwrap()), "ef");
    let neg = vec![JsonValue::Num("-2".to_string())];
    assert_eq!(text_of(SubstringFilter.apply(&s("abc"), &neg).unwrap()), "abc");
}

#[test]
fn test_int_round_trip() {
    let n = ToIntFilter.apply(&s("-42"), &vec![]).unwrap();
    assert!(matches!(&n, ExtractValueData::Json(JsonValue::Num(t)) if t == "-42"));
    let back = ToStringFilter.apply(&n, &vec![]).unwrap();
    assert_eq!(text_of(back), "-42");
    assert!(ToIntFilter.apply(&s("4x"), &vec![]).is_err());
    assert!(ToIntFilter.apply(&s("99999999999999999999"), &vec![]).is_err());
}

#[test]
fn test_absolute_url_filter() {
    let base = vec![JsonValue::Str("https://ex.com/dir/".to_string())];
    assert_eq!(
        text_of(AbsoluteUrlFilter.apply(&s("/a/b"), &base).unwrap()),
        "https://ex.com/a/b"
    );
    assert_eq!(
        text_of(AbsoluteUrlFilter.apply(&s("c.html"), &base).unwrap()),
        "https://ex.com/dir/c.html"
    );
    assert_eq!(
        text_of(AbsoluteUrlFilter.apply(&s("https://other/x"), &base).unwrap()),
        "https://other/x"
    );
    assert!(AbsoluteUrlFilter.apply(&s("/a"), &vec![]).is_err());
}

#[test]
fn test_url_codec_round_trip() {
    let encoded = UrlEncodeFilter.apply(&s("a b/汉?"), &vec![]).unwrap();
    assert_eq!(text_of(encoded.clone()), "a%20b%2F%E6%B1%89%3F");
    let decoded = UrlDecodeFilter.apply(&encoded, &vec![]).unwrap();
    assert_eq!(text_of(decoded), "a b/汉?");
}

#[test]
fn test_unknown_filter() {
    let e = apply_filter("blur", &vec![], &s("x")).unwrap_err();
    assert_eq!(e.message(), "提取错误: Unknown filter: blur");
}
