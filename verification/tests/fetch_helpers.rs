//! Cleaning, HTML discovery of the header JSON and the fallback strategies.

use bms_table::fetch::{
    contains_header_json, find_header_json_in_text, get_web_header_json_value,
    header_query_with_fallback, parse_json_str_with_fallback, replace_control_chars,
    try_extract_bmstable_from_html, FetchError, HeaderQueryContent,
};

fn parse_value(s: &str) -> Result<serde_json::Value, String> {
    serde_json::from_str::<serde_json::Value>(s).map_err(|e| e.to_string())
}

#[test]
fn replace_control_chars_removes_c0_and_c1() {
    assert_eq!(replace_control_chars("\u{1}a\tb\nc\u{7f}d\u{9f}e\u{a0}"), "abcde\u{a0}");
}

#[test]
fn replace_control_chars_is_idempotent() {
    let once = replace_control_chars("\u{0}{\"a\":\u{1b}1}\r\n");
    assert_eq!(once, "{\"a\":1}");
    assert_eq!(replace_control_chars(&once), once);
}

#[test]
fn replace_control_chars_keeps_printable_text() {
    let s = "難易度表 [F] ★ header.json";
    assert_eq!(replace_control_chars(s), s);
}

#[test]
fn contains_header_json_ignores_case() {
    assert!(contains_header_json("Data/HEADER.JSON"));
    assert!(contains_header_json("my_header_v2.json"));
    assert!(!contains_header_json("header.json5"));
    assert!(!contains_header_json("data.json"));
    assert!(!contains_header_json(""));
}

#[test]
fn find_header_json_in_text_finds_quoted_span() {
    let text: Vec<char> = "var u = \"./Header.json\";".chars().collect();
    let (st, en) = find_header_json_in_text(&text).unwrap();
    let found: String = text[st..en].iter().collect();
    assert_eq!(found, "./Header.json");
}

#[test]
fn find_header_json_in_text_without_delimiter_starts_at_header() {
    let text: Vec<char> = "xheader.json".chars().collect();
    assert_eq!(find_header_json_in_text(&text), Some((1, 12)));
}

#[test]
fn find_header_json_in_text_needs_json_after_header() {
    let text: Vec<char> = "a.json then header".chars().collect();
    assert_eq!(find_header_json_in_text(&text), None);
}

#[test]
fn extraction_prefers_meta_bmstable() {
    let html = r#"<html><head><link rel="bmstable" href="link.json"><meta name="bmstable" content="meta.json"></head></html>"#;
    assert_eq!(try_extract_bmstable_from_html(html).unwrap(), "meta.json");
}

#[test]
fn extraction_uses_link_rel_bmstable() {
    let html = r#"<html><head><link rel="BMSTABLE" href="link.json"></head><body><a href="x_header.json">h</a></body></html>"#;
    assert_eq!(try_extract_bmstable_from_html(html).unwrap(), "link.json");
}

#[test]
fn extraction_uses_anchor_then_script_then_meta_content() {
    let a = r#"<html><body><script src="s_header.json"></script><a href="a_header.json">h</a></body></html>"#;
    assert_eq!(try_extract_bmstable_from_html(a).unwrap(), "a_header.json");
    let s = r#"<html><body><script src="s_header.json"></script></body></html>"#;
    assert_eq!(try_extract_bmstable_from_html(s).unwrap(), "s_header.json");
    let m = r#"<html><head><meta name="x" content="m_header.json"></head></html>"#;
    assert_eq!(try_extract_bmstable_from_html(m).unwrap(), "m_header.json");
}

#[test]
fn extraction_falls_back_to_raw_text() {
    let html = "<html><body><p>see 'tables/header.json' here</p></body></html>";
    assert_eq!(try_extract_bmstable_from_html(html).unwrap(), "tables/header.json");
}

#[test]
fn extraction_without_reference_fails() {
    let html = "<html><body><p>nothing</p></body></html>";
    assert!(matches!(try_extract_bmstable_from_html(html), Err(FetchError::HtmlExtraction)));
}

#[test]
fn doc_example_html_gives_url() {
    let html = r#"
<!DOCTYPE html>
<html>
  <head>
    <meta name="bmstable" content="header.json">
  </head>
  <body></body>
</html>
"#;
    match get_web_header_json_value(html, &parse_value).unwrap() {
        HeaderQueryContent::Url(u) => assert_eq!(u, "header.json"),
        HeaderQueryContent::Value(_) => panic!("expected a URL"),
    }
}

#[test]
fn json_response_gives_value() {
    let text = "\u{1}{\"name\": \"T\"}";
    match get_web_header_json_value(text, &parse_value).unwrap() {
        HeaderQueryContent::Value(v) => assert_eq!(v["name"], "T"),
        HeaderQueryContent::Url(_) => panic!("expected a value"),
    }
}

#[test]
fn non_json_non_html_reference_fails() {
    assert!(matches!(
        get_web_header_json_value("plain text", &parse_value),
        Err(FetchError::HtmlExtraction)
    ));
}

#[test]
fn header_query_with_fallback_returns_used_text() {
    let (q, used) = header_query_with_fallback("{\"a\": 1}", &parse_value).unwrap();
    assert!(matches!(q, HeaderQueryContent::Value(_)));
    assert_eq!(used, "{\"a\": 1}");
    let err = header_query_with_fallback("nothing here", &parse_value);
    assert!(matches!(err, Err(FetchError::HtmlExtraction)));
}

#[test]
fn parse_json_fallback_cleans_on_failure() {
    let (v, used) = parse_json_str_with_fallback("[1,\u{2}2]", &parse_value).unwrap();
    assert_eq!(v, parse_value("[1, 2]").unwrap());
    assert_eq!(used, "[1,2]");
    let (_, used2) = parse_json_str_with_fallback("[3]", &parse_value).unwrap();
    assert_eq!(used2, "[3]");
}

#[test]
fn parse_json_fallback_reports_second_error() {
    match parse_json_str_with_fallback("{bad\u{1}", &parse_value) {
        Err(FetchError::Parse { context }) => assert!(!context.is_empty()),
        _ => panic!("expected a parse error"),
    }
}
