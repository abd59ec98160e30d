//! Construction of tables, headers and course trees, and level lookup.

use bms_table::de::{level_from_json, JsonScalar};
use bms_table::{BmsTable, BmsTableData, BmsTableHeader, ChartItem, CourseGroup, CourseInfo};
use std::collections::BTreeMap;

#[test]
fn test_bms_table_creation() {
    let header = BmsTableHeader {
        name: "Test Table".to_string(),
        symbol: "test".to_string(),
        data_url: "https://example.com/charts.json".to_string(),
        tag: None,
        mode: None,
        course: CourseGroup::Courses(vec![]),
        level_order: vec!["0".to_string(), "1".to_string()],
        extra: BTreeMap::new(),
    };
    let data = BmsTableData { charts: vec![] };
    let bms_table = BmsTable { header, data };

    assert_eq!(bms_table.header.name, "Test Table");
    assert_eq!(bms_table.header.symbol, "test");
    assert!(bms_table.header.course.flatten().is_empty());
    assert_eq!(bms_table.data.charts.len(), 0);
    assert_eq!(bms_table.header.level_order.len(), 2);
}

#[test]
fn test_bms_table_partial_eq() {
    let header1 = BmsTableHeader {
        name: "Test Table".to_string(),
        symbol: "test".to_string(),
        data_url: "https://example.com/charts.json".to_string(),
        tag: None,
        mode: None,
        course: CourseGroup::Courses(vec![]),
        level_order: vec!["0".to_string(), "1".to_string()],
        extra: BTreeMap::new(),
    };
    let data1 = BmsTableData { charts: vec![] };
    let table1 = BmsTable {
        header: header1.clone(),
        data: data1,
    };

    let header2 = header1;
    let data2 = BmsTableData { charts: vec![] };
    let table2 = BmsTable {
        header: header2,
        data: data2,
    };

    assert_eq!(table1, table2);
}

#[test]
fn level_index_returns_correct_index() {
    let header = BmsTableHeader {
        name: "Test".into(),
        symbol: "t".into(),
        data_url: "c.json".into(),
        tag: None,
        mode: None,
        course: CourseGroup::default(),
        level_order: vec!["1".into(), "2".into(), "3".into(), "11+".into()],
        extra: BTreeMap::new(),
    };
    assert_eq!(header.level_index("1"), Some(0));
    assert_eq!(header.level_index("2"), Some(1));
    assert_eq!(header.level_index("3"), Some(2));
    assert_eq!(header.level_index("11+"), Some(3));
}

#[test]
fn level_index_missing_level_returns_none() {
    let header = BmsTableHeader {
        name: "Test".into(),
        symbol: "t".into(),
        data_url: "c.json".into(),
        tag: None,
        mode: None,
        course: CourseGroup::default(),
        level_order: vec!["1".into(), "2".into()],
        extra: BTreeMap::new(),
    };
    assert_eq!(header.level_index("3"), None);
    assert_eq!(header.level_index("0"), None);
}

#[test]
fn level_index_empty_level_order_returns_none() {
    let header = BmsTableHeader {
        name: "Test".into(),
        symbol: "t".into(),
        data_url: "c.json".into(),
        tag: None,
        mode: None,
        course: CourseGroup::default(),
        level_order: vec![],
        extra: BTreeMap::new(),
    };
    assert_eq!(header.level_index("1"), None);
}

#[test]
fn course_group_into_flatten_flat() {
    let info = CourseInfo {
        name: "C1".into(),
        constraint: vec![],
        trophy: vec![],
        charts: vec![],
        md5: vec![],
        sha256: vec![],
        extra: BTreeMap::new(),
    };
    let group = CourseGroup::Courses(vec![info]);
    let flat = group.into_flatten();
    assert_eq!(flat.len(), 1);
    assert_eq!(flat.first().unwrap().name, "C1");
}

#[test]
fn course_group_into_flatten_nested() {
    let c1 = CourseInfo {
        name: "C1".into(),
        constraint: vec![],
        trophy: vec![],
        charts: vec![],
        md5: vec![],
        sha256: vec![],
        extra: BTreeMap::new(),
    };
    let c2 = CourseInfo {
        name: "C2".into(),
        constraint: vec![],
        trophy: vec![],
        charts: vec![],
        md5: vec![],
        sha256: vec![],
        extra: BTreeMap::new(),
    };
    let group = CourseGroup::SubGroups(vec![
        CourseGroup::Courses(vec![c1]),
        CourseGroup::Courses(vec![c2]),
    ]);
    let flat = group.into_flatten();
    assert_eq!(flat.len(), 2);
    assert_eq!(flat.first().unwrap().name, "C1");
    assert_eq!(flat.get(1).unwrap().name, "C2");
}

#[test]
fn course_group_into_flatten_empty() {
    let group = CourseGroup::Courses(vec![]);
    assert!(group.into_flatten().is_empty());
}

#[test]
fn course_group_into_flatten_deeply_nested() {
    let c1 = CourseInfo {
        name: "C1".into(),
        constraint: vec![],
        trophy: vec![],
        charts: vec![],
        md5: vec![],
        sha256: vec![],
        extra: BTreeMap::new(),
    };
    let group = CourseGroup::SubGroups(vec![CourseGroup::SubGroups(vec![CourseGroup::Courses(
        vec![c1],
    )])]);
    let flat = group.into_flatten();
    assert_eq!(flat.len(), 1);
    assert_eq!(flat.first().unwrap().name, "C1");
}

#[test]
fn chart_item_level_numeric_zero() {
    let data_json: serde_json::Value =
        serde_json::from_str(r#"[{ "level": 0, "md5": "abc" }]"#).unwrap();
    let items = data_json.as_array().unwrap();
    let charts: Vec<ChartItem> = items
        .iter()
        .map(|item| {
            let level = match &item["level"] {
                serde_json::Value::Null => JsonScalar::Null,
                serde_json::Value::Number(n) => JsonScalar::Number(n.to_string()),
                serde_json::Value::String(s) => JsonScalar::Text(s.clone()),
                other => JsonScalar::Other(other.to_string()),
            };
            let mut chart = ChartItem::new(level_from_json(&level).unwrap());
            chart.md5 = item["md5"].as_str().map(|s| s.to_string());
            chart
        })
        .collect();
    let data = BmsTableData { charts };
    let [chart] = data.charts.as_slice() else {
        panic!("expected one chart, got {}", data.charts.len());
    };
    assert_eq!(chart.level, "0");
}
