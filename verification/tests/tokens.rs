//! The meta-tag scan over hand-made token streams.

use bms_table::html::{is_tokenizable, url_from_tokens, HtmlToken};
use bms_table::{BmsTableError, BmsTableHtml};

fn start(n: &str) -> HtmlToken {
    HtmlToken::ElementStart(n.to_string())
}
fn attr(n: &str, v: Option<&str>) -> HtmlToken {
    HtmlToken::Attribute(n.to_string(), v.map(|s| s.to_string()))
}

#[test]
fn matching_meta_returns_content() {
    let t = vec![
        start("meta"),
        attr("name", Some("BmsTable")),
        attr("content", Some("h.json")),
        HtmlToken::ElementEnd,
    ];
    assert_eq!(url_from_tokens(&t).unwrap(), "h.json");
}

#[test]
fn any_bmstable_name_qualifies_and_last_content_counts() {
    let t = vec![
        start("meta"),
        attr("name", Some("bmstable")),
        attr("content", Some("first.json")),
        attr("property", Some("other")),
        attr("content", Some("second.json")),
        HtmlToken::ElementEnd,
        start("META"),
        attr("property", Some("other")),
        attr("name", Some("bmstable")),
        attr("content", Some("a.json")),
        attr("content", Some("b.json")),
        HtmlToken::ElementEnd,
    ];
    assert_eq!(url_from_tokens(&t).unwrap(), "second.json");
}

#[test]
fn attributes_of_other_elements_are_ignored() {
    let t = vec![
        start("link"),
        attr("name", Some("bmstable")),
        attr("content", Some("x.json")),
        HtmlToken::ElementEnd,
    ];
    assert!(matches!(url_from_tokens(&t), Err(BmsTableError::MetaTagNotFound)));
}

#[test]
fn unterminated_meta_does_not_match() {
    let t = vec![
        start("meta"),
        attr("name", Some("bmstable")),
        attr("content", Some("x.json")),
        start("body"),
        HtmlToken::ElementEnd,
    ];
    assert!(matches!(url_from_tokens(&t), Err(BmsTableError::MetaTagNotFound)));
}

#[test]
fn tokenizer_error_without_match_is_meta_tag_not_found() {
    let t = vec![start("meta"), HtmlToken::Other, HtmlToken::Error("bad token".to_string())];
    assert!(matches!(url_from_tokens(&t), Err(BmsTableError::MetaTagNotFound)));
}

#[test]
fn match_before_an_error_wins() {
    let t = vec![
        start("meta"),
        attr("property", Some("BMSTABLE")),
        attr("content", Some("ok.json")),
        HtmlToken::ElementEnd,
        HtmlToken::Error("late".to_string()),
    ];
    assert_eq!(url_from_tokens(&t).unwrap(), "ok.json");
}

#[test]
fn valueless_content_does_not_match() {
    let t = vec![
        start("meta"),
        attr("name", Some("bmstable")),
        attr("content", None),
        HtmlToken::ElementEnd,
    ];
    assert!(url_from_tokens(&t).is_err());
}

#[test]
fn extract_url_on_malformed_html_is_meta_tag_not_found() {
    let html = "<meta name=\"x\" content=\"y\"><<<>";
    assert!(is_tokenizable(html));
    assert!(matches!(BmsTableHtml::extract_url(html), Err(BmsTableError::MetaTagNotFound)));
}

#[test]
fn extract_url_name_bmstable_then_other_property() {
    let html = r#"<meta name="bmstable" property="og:type" content="header.json">"#;
    assert!(is_tokenizable(html));
    assert_eq!(BmsTableHtml::extract_url(html).unwrap(), "header.json");
}

#[test]
fn extract_url_property_bmstable_then_other_name() {
    let html = r#"<meta property="bmstable" name="viewport" content="h.json"/>"#;
    assert_eq!(BmsTableHtml::extract_url(html).unwrap(), "h.json");
}

#[test]
fn text_splitting_a_character_is_not_tokenizable() {
    assert!(!is_tokenizable("<p>\u{20ac}></p>"));
    assert!(!is_tokenizable("<p>\u{e9}a></p>"));
    assert!(is_tokenizable("<p>\u{e9}></p>"));
    assert!(is_tokenizable("<p>a\u{e9}></p>"));
    assert!(is_tokenizable(r#"<p title="\u{20ac}">x</p>"#));
}

#[test]
fn badly_closed_conditional_comment_is_not_tokenizable() {
    assert!(!is_tokenizable("<p><![endifx></p>"));
    assert!(!is_tokenizable("<p><!--[if IE]x</p>"));
    assert!(!is_tokenizable("<p><!--[if IE"));
    assert!(is_tokenizable("<p><!--[if lt IE 9]><b>x</b><![endif]--></p>"));
}

#[test]
fn ascii_page_is_tokenizable() {
    let html = r#"<html><head><meta name="bmstable" content="header.json"></head><body><p>a > b</p></body></html>"#;
    assert!(is_tokenizable(html));
    assert_eq!(BmsTableHtml::extract_url(html).unwrap(), "header.json");
}

#[test]
fn later_gt_in_text_after_wide_character_is_tokenizable() {
    let html = "<p>A > \u{96e3}\u{6613}\u{5ea6}\u{8868} > B</p>";
    assert!(is_tokenizable(html));
    assert!(matches!(BmsTableHtml::extract_url(html), Err(BmsTableError::MetaTagNotFound)));
    let html = "<p>a>\u{20ac}></p>";
    assert!(is_tokenizable(html));
    assert!(matches!(BmsTableHtml::extract_url(html), Err(BmsTableError::MetaTagNotFound)));
}

#[test]
fn first_gt_of_text_after_quoted_gt_is_checked() {
    assert!(!is_tokenizable("<p title=\"x>\u{20ac}>\">\u{20ac}></p>"));
    let html = "<p title=\"x>\u{20ac}>\">a</p>";
    assert!(is_tokenizable(html));
    assert!(matches!(BmsTableHtml::extract_url(html), Err(BmsTableError::MetaTagNotFound)));
}

#[test]
fn comments_and_cdata_are_skipped_by_the_scan() {
    let html = "<p><!-- a > \u{20ac} > b -->x</p>";
    assert!(is_tokenizable(html));
    assert!(BmsTableHtml::extract_url(html).is_err());
    assert!(!is_tokenizable("<p><!-- a --->\u{20ac}></p>"));
    let html = "<p><![CDATA[\u{20ac}>]]>a</p>";
    assert!(is_tokenizable(html));
    assert!(BmsTableHtml::extract_url(html).is_err());
    assert!(!is_tokenizable("<p><![CDATA[a]]>\u{20ac}></p>"));
    assert!(!is_tokenizable("<p><!--[if IE]>\u{20ac}></p><![endif]-->"));
}

#[test]
fn page_with_doctype_and_meta_after_wide_text() {
    let html = "<!DOCTYPE html><html><head><title>A > \u{96e3} > B</title>\
                <meta name=\"bmstable\" content=\"header.json\"></head></html>";
    assert!(is_tokenizable(html));
    assert_eq!(BmsTableHtml::extract_url(html).unwrap(), "header.json");
}
