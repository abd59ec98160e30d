//! Course trees, chart merging and constructors.

use bms_table::{BmsTable, BmsTableData, BmsTableHeader, ChartItem, CourseGroup, CourseInfo};

fn named(name: &str) -> CourseInfo {
    CourseInfo::new(name.to_string())
}

#[test]
fn flatten_lists_courses_depth_first() {
    let group = CourseGroup::SubGroups(vec![
        CourseGroup::Courses(vec![named("A"), named("B")]),
        CourseGroup::SubGroups(vec![CourseGroup::Courses(vec![named("C")])]),
        CourseGroup::Courses(vec![]),
        CourseGroup::Courses(vec![named("D")]),
    ]);
    let names: Vec<String> = group.flatten().iter().map(|c| c.name.clone()).collect();
    assert_eq!(names, vec!["A", "B", "C", "D"]);
    let owned: Vec<String> = group.into_flatten().into_iter().map(|c| c.name).collect();
    assert_eq!(owned, names);
}

#[test]
fn nesting_does_not_change_flattened_courses() {
    let inner = CourseGroup::Courses(vec![named("X"), named("Y")]);
    let outer = CourseGroup::SubGroups(vec![inner.clone()]);
    let a: Vec<String> = inner.flatten().iter().map(|c| c.name.clone()).collect();
    let b: Vec<String> = outer.flatten().iter().map(|c| c.name.clone()).collect();
    assert_eq!(a, b);
}

#[test]
fn from_course_info_is_single_leaf() {
    let group = CourseGroup::from(named("Only"));
    match &group {
        CourseGroup::Courses(v) => assert_eq!(v.len(), 1),
        CourseGroup::SubGroups(_) => panic!("expected a leaf"),
    }
    assert_eq!(group.flatten()[0].name, "Only");
}

#[test]
fn default_course_group_is_empty_leaf() {
    let group = CourseGroup::default();
    assert!(matches!(&group, CourseGroup::Courses(v) if v.is_empty()));
    assert!(group.flatten().is_empty());
}

#[test]
fn clone_of_course_group_is_equal() {
    let group = CourseGroup::SubGroups(vec![CourseGroup::Courses(vec![named("A")])]);
    assert_eq!(group.clone(), group);
}

#[test]
fn clone_then_into_flatten_matches_flatten() {
    let group = CourseGroup::SubGroups(vec![
        CourseGroup::Courses(vec![named("A"), named("B")]),
        CourseGroup::SubGroups(vec![CourseGroup::Courses(vec![named("C")])]),
        CourseGroup::Courses(vec![]),
    ]);
    let borrowed: Vec<CourseInfo> = group.flatten().into_iter().cloned().collect();
    let owned = group.clone().into_flatten();
    assert_eq!(borrowed, owned);
    let names: Vec<&str> = owned.iter().map(|c| c.name.as_str()).collect();
    assert_eq!(names, vec!["A", "B", "C"]);
}

#[test]
fn all_charts_merges_charts_then_md5_then_sha256() {
    let mut info = named("Course");
    let mut existing = ChartItem::new("2".to_string());
    existing.title = Some("Existing Chart".to_string());
    info.charts = vec![existing];
    info.md5 = vec!["md5_hash_1".to_string(), "md5_hash_2".to_string()];
    info.sha256 = vec!["sha256_hash_1".to_string()];
    let all = info.all_charts();
    assert_eq!(all.len(), 4);
    assert_eq!(all[0].level, "2");
    assert_eq!(all[0].title.as_deref(), Some("Existing Chart"));
    assert_eq!(all[1].md5.as_deref(), Some("md5_hash_1"));
    assert_eq!(all[1].level, "0");
    assert!(all[1].sha256.is_none());
    assert_eq!(all[2].md5.as_deref(), Some("md5_hash_2"));
    assert_eq!(all[3].sha256.as_deref(), Some("sha256_hash_1"));
    assert_eq!(all[3].level, "0");
    assert!(all[3].md5.is_none());
    assert!(all[3].title.is_none());
    // the course itself keeps its three sources apart
    assert_eq!(info.charts.len(), 1);
    assert_eq!(info.md5.len(), 2);
}

#[test]
fn all_charts_of_empty_course_is_empty() {
    assert!(named("Empty").all_charts().is_empty());
}

#[test]
fn header_new_sets_defaults() {
    let header = BmsTableHeader::new("Table".into(), "t".into(), "d.json".into());
    assert_eq!(header.name, "Table");
    assert_eq!(header.symbol, "t");
    assert_eq!(header.data_url, "d.json");
    assert!(header.tag.is_none());
    assert!(header.mode.is_none());
    assert!(header.course.flatten().is_empty());
    assert!(header.level_order.is_empty());
    assert!(header.extra.is_empty());
}

#[test]
fn level_index_returns_first_occurrence() {
    let mut header = BmsTableHeader::new("T".into(), "t".into(), "d.json".into());
    header.level_order = vec!["1".into(), "2".into(), "1".into()];
    assert_eq!(header.level_index("1"), Some(0));
    assert_eq!(header.level_index("2"), Some(1));
    assert_eq!(header.level_index(""), None);
}

#[test]
fn chart_item_new_and_table_new() {
    let item = ChartItem::new("5".to_string());
    assert_eq!(item.level, "5");
    assert!(item.md5.is_none() && item.comment.is_none() && item.extra.is_empty());
    let header = BmsTableHeader::new("T".into(), "t".into(), "d.json".into());
    let data = BmsTableData::new(vec![item.clone()]);
    let table = BmsTable::new(header.clone(), data.clone());
    assert_eq!(table.header, header);
    assert_eq!(table.data, data);
}
