//! The decisions of fetching a complete table.

use bms_table::fetch::fetcher::{
    start_table_fetch, table_fetch_step, Fetcher, TableFetchNext, TableFetchState,
};
use bms_table::fetch::FetchError;
use bms_table::{BmsTableData, BmsTableHeader, ChartItem};

fn parse_header(s: &str) -> Result<BmsTableHeader, String> {
    let v: serde_json::Value = serde_json::from_str(s).map_err(|e| e.to_string())?;
    let field = |k: &str| v.get(k).and_then(|x| x.as_str()).map(|x| x.to_string());
    match (field("name"), field("symbol"), field("data_url")) {
        (Some(n), Some(s), Some(d)) => Ok(BmsTableHeader::new(n, s, d)),
        _ => Err("missing field".to_string()),
    }
}

fn parse_data(s: &str) -> Result<BmsTableData, String> {
    let v: serde_json::Value = serde_json::from_str(s).map_err(|e| e.to_string())?;
    let arr = v.as_array().ok_or_else(|| "not an array".to_string())?;
    Ok(BmsTableData::new(
        arr.iter()
            .map(|c| ChartItem::new(c["level"].as_str().unwrap_or("0").to_string()))
            .collect(),
    ))
}

fn expect_fetch(n: TableFetchNext) -> (String, TableFetchState) {
    match n {
        TableFetchNext::Fetch { url, state } => (url, state),
        TableFetchNext::Done(_) => panic!("expected a fetch"),
    }
}

#[test]
fn html_page_then_header_then_data() {
    let (url, state) = expect_fetch(start_table_fetch("https://example.com/sl/table.html".into()));
    assert_eq!(url, "https://example.com/sl/table.html");
    let page = r#"<html><head><meta name="bmstable" content="header.json"></head></html>"#;
    let (url, state) = expect_fetch(table_fetch_step(state, page, &parse_header, &parse_data).unwrap());
    assert_eq!(url, "https://example.com/sl/header.json");
    let header = r#"{"name":"Satellite","symbol":"sl","data_url":"score.json"}"#;
    let (url, state) = expect_fetch(table_fetch_step(state, header, &parse_header, &parse_data).unwrap());
    assert_eq!(url, "https://example.com/sl/score.json");
    let data = r#"[{"level":"1"},{"level":"2"}]"#;
    match table_fetch_step(state, data, &parse_header, &parse_data).unwrap() {
        TableFetchNext::Done(t) => {
            assert_eq!(t.table.header.name, "Satellite");
            assert_eq!(t.table.data.charts.len(), 2);
            assert_eq!(t.header_json_url, "https://example.com/sl/header.json");
            assert_eq!(t.header_raw, header);
            assert_eq!(t.data_json_url, "https://example.com/sl/score.json");
            assert_eq!(t.data_raw, data);
        }
        TableFetchNext::Fetch { .. } => panic!("expected the table"),
    }
}

#[test]
fn header_json_as_web_page_is_used_directly() {
    let (_, state) = expect_fetch(start_table_fetch("https://example.com/h.json".into()));
    let header = r#"{"name":"T","symbol":"t","data_url":"https://cdn.example.org/d.json"}"#;
    let (url, _) = expect_fetch(table_fetch_step(state, header, &parse_header, &parse_data).unwrap());
    assert_eq!(url, "https://cdn.example.org/d.json");
}

#[test]
fn header_url_pointing_to_html_is_cyclic() {
    let state = TableFetchState::HeaderJson {
        web_url: "https://example.com/t.html".into(),
        header_url: "h.json".into(),
        header_json_url: "https://example.com/h.json".into(),
    };
    let page = r#"<html><head><meta name="bmstable" content="again.json"></head></html>"#;
    match table_fetch_step(state, page, &parse_header, &parse_data) {
        Err(FetchError::CyclicHeader { web_url, header_url }) => {
            assert_eq!(web_url, "https://example.com/t.html");
            assert_eq!(header_url, "h.json");
        }
        _ => panic!("expected a cyclic header error"),
    }
}

#[test]
fn unresolvable_header_url_is_reported() {
    let state = TableFetchState::WebPage { web_url: "not a url".into() };
    let page = r#"<html><head><meta name="bmstable" content="h.json"></head></html>"#;
    match table_fetch_step(state, page, &parse_header, &parse_data) {
        Err(FetchError::UrlResolve { field, .. }) => assert_eq!(field, "header_url"),
        _ => panic!("expected a URL error"),
    }
}

#[test]
fn unparsable_data_is_a_parse_error() {
    let state = TableFetchState::DataJson {
        header_json_url: "https://example.com/h.json".into(),
        header: BmsTableHeader::new("T".into(), "t".into(), "d.json".into()),
        header_raw: "{}".into(),
        data_json_url: "https://example.com/d.json".into(),
    };
    assert!(matches!(
        table_fetch_step(state, "{oops", &parse_header, &parse_data),
        Err(FetchError::Parse { .. })
    ));
}

#[test]
fn fetcher_keeps_its_client() {
    let fetcher = Fetcher::new(reqwest::Client::new());
    let _client: &reqwest::Client = fetcher.client();
    let _copy = fetcher.clone();
}

#[test]
fn unresolvable_data_url_is_reported() {
    let state = TableFetchState::HeaderJson {
        web_url: "not a url".into(),
        header_url: "h.json".into(),
        header_json_url: "not a url".into(),
    };
    let header = r#"{"name":"T","symbol":"t","data_url":"d.json"}"#;
    match table_fetch_step(state, header, &parse_header, &parse_data) {
        Err(FetchError::UrlResolve { field, msg }) => {
            assert_eq!(field, "data_url");
            assert!(!msg.is_empty());
        }
        _ => panic!("expected a URL error"),
    }
}

#[test]
fn html_page_leading_to_html_page_names_both_urls() {
    let (_, state) = expect_fetch(start_table_fetch("https://example.com/sl/table.html".into()));
    let page = r#"<html><head><meta name="bmstable" content="next.html"></head></html>"#;
    let (url, state) = expect_fetch(table_fetch_step(state, page, &parse_header, &parse_data).unwrap());
    assert_eq!(url, "https://example.com/sl/next.html");
    let page2 = r#"<html><head><meta property="bmstable" content="header.json"></head></html>"#;
    match table_fetch_step(state, page2, &parse_header, &parse_data) {
        Err(FetchError::CyclicHeader { web_url, header_url }) => {
            assert_eq!(web_url, "https://example.com/sl/table.html");
            assert_eq!(header_url, "next.html");
        }
        _ => panic!("expected a cyclic header error"),
    }
}
