//! The data model of a BMS difficulty table: header, courses, trophies,
//! chart items and table lists.

use std::collections::BTreeMap;

use vstd::prelude::*;

use crate::html::opt_view;

verus! {

/// `serde_json::Value`, carried opaquely in the `extra` maps.
#[verifier::external_type_specification]
#[verifier::external_body]
pub struct ExJsonValue(serde_json::Value);

/// `url::Url`, carried opaquely in [`BmsTableInfo`].
#[verifier::external_type_specification]
#[verifier::external_body]
pub struct ExUrl(url::Url);

/// `url::Url::clone` (derived): the copy equals the original.
pub assume_specification[ <url::Url as Clone>::clone ](u: &url::Url) -> (r: url::Url)
    ensures
        r == *u,
;

/// Sequence of the character views of a list of strings.
pub open spec fn strings_view(v: Seq<String>) -> Seq<Seq<char>> {
    v.map_values(|s: String| s@)
}

/// Chart data item: metadata and resource links of a single BMS file.
///
/// Spec fields other than the promoted ones are kept in `extra`.
#[derive(Debug, Clone, PartialEq)]
pub struct ChartItem {
    /// Difficulty level, e.g. "0".
    pub level: String,
    /// MD5 hash of the file.
    pub md5: Option<String>,
    /// SHA256 hash of the file.
    pub sha256: Option<String>,
    /// Song title.
    pub title: Option<String>,
    /// Artist name.
    pub artist: Option<String>,
    /// File download URL.
    pub url: Option<String>,
    /// Differential file download URL.
    pub url_diff: Option<String>,
    /// Comment text.
    pub comment: Option<String>,
    /// Unrecognized fields.
    pub extra: BTreeMap<String, serde_json::Value>,
}

/// Mathematical view of a [`ChartItem`].
pub struct ChartItemView {
    pub level: Seq<char>,
    pub md5: Option<Seq<char>>,
    pub sha256: Option<Seq<char>>,
    pub title: Option<Seq<char>>,
    pub artist: Option<Seq<char>>,
    pub url: Option<Seq<char>>,
    pub url_diff: Option<Seq<char>>,
    pub comment: Option<Seq<char>>,
    pub extra: Map<String, serde_json::Value>,
}

impl View for ChartItem {
    type V = ChartItemView;

    open spec fn view(&self) -> ChartItemView {
        ChartItemView {
            level: self.level@,
            md5: opt_view(self.md5),
            sha256: opt_view(self.sha256),
            title: opt_view(self.title),
            artist: opt_view(self.artist),
            url: opt_view(self.url),
            url_diff: opt_view(self.url_diff),
            comment: opt_view(self.comment),
            extra: self.extra@,
        }
    }
}

pub open spec fn charts_view(v: Seq<ChartItem>) -> Seq<ChartItemView> {
    v.map_values(|c: ChartItem| c@)
}

/// A chart item with the given level and every other field empty.
pub open spec fn empty_chart(level: Seq<char>) -> ChartItemView {
    ChartItemView {
        level: level,
        md5: None,
        sha256: None,
        title: None,
        artist: None,
        url: None,
        url_diff: None,
        comment: None,
        extra: Map::empty(),
    }
}

fn clone_opt_string(o: &Option<String>) -> (r: Option<String>)
    ensures
        opt_view(r) == opt_view(*o),
{
    match o {
        Some(s) => Some(s.clone()),
        None => None,
    }
}

impl ChartItem {
    /// Creates a chart item with the given level and all other fields empty.
    pub fn new(level: String) -> (r: ChartItem)
        ensures
            r@ == empty_chart(level@),
    {
        ChartItem {
            level,
            md5: None,
            sha256: None,
            title: None,
            artist: None,
            url: None,
            url_diff: None,
            comment: None,
            extra: BTreeMap::new(),
        }
    }

    /// A copy of this chart item.
    fn duplicate(&self) -> (r: ChartItem)
        ensures
            r@ == self@,
    {
        ChartItem {
            level: self.level.clone(),
            md5: clone_opt_string(&self.md5),
            sha256: clone_opt_string(&self.sha256),
            title: clone_opt_string(&self.title),
            artist: clone_opt_string(&self.artist),
            url: clone_opt_string(&self.url),
            url_diff: clone_opt_string(&self.url_diff),
            comment: clone_opt_string(&self.comment),
            extra: self.extra.clone(),
        }
    }
}

/// Trophy requirements: a maximum miss rate and a minimum score rate, both in
/// percent. The rates are kept as the IEEE-754 bit patterns of their `f64` values.
#[derive(Debug, Clone, PartialEq)]
pub struct Trophy {
    /// Trophy name, e.g. "goldmedal".
    pub name: String,
    /// Bit pattern of the maximum miss rate (percent).
    pub missrate_bits: u64,
    /// Bit pattern of the minimum score rate (percent).
    pub scorerate_bits: u64,
}

/// Course information: name, constraints, trophies and chart set.
///
/// Charts come from three independent sources that can coexist: `charts`
/// (full objects), `md5` and `sha256` (hash shorthands).
#[derive(Debug, Clone, PartialEq)]
pub struct CourseInfo {
    /// Course name.
    pub name: String,
    /// Constraint list, e.g. ["grade_mirror", "gauge_lr2", "ln"].
    pub constraint: Vec<String>,
    /// Trophies, defining requirements for different ranks.
    pub trophy: Vec<Trophy>,
    /// Full chart objects.
    pub charts: Vec<ChartItem>,
    /// MD5 hash shorthand list.
    pub md5: Vec<String>,
    /// SHA256 hash shorthand list.
    pub sha256: Vec<String>,
    /// Unrecognized fields.
    pub extra: BTreeMap<String, serde_json::Value>,
}

/// The chart item that an MD5 shorthand stands for: level "0", that hash.
pub open spec fn md5_chart(hash: Seq<char>) -> ChartItemView {
    ChartItemView { md5: Some(hash), ..empty_chart("0"@) }
}

/// The chart item that a SHA256 shorthand stands for: level "0", that hash.
pub open spec fn sha256_chart(hash: Seq<char>) -> ChartItemView {
    ChartItemView { sha256: Some(hash), ..empty_chart("0"@) }
}

/// All charts of a course: `charts`, then the `md5` shorthands, then the
/// `sha256` shorthands.
pub open spec fn merged_charts(c: CourseInfo) -> Seq<ChartItemView> {
    charts_view(c.charts@) + strings_view(c.md5@).map_values(|h: Seq<char>| md5_chart(h))
        + strings_view(c.sha256@).map_values(|h: Seq<char>| sha256_chart(h))
}

/// The charts of a course, all sources merged, are the course's own charts
/// unchanged, then for each MD5 shorthand in order a chart of level "0" with
/// that MD5 and no SHA256, then for each SHA256 shorthand in order a chart of
/// level "0" with that SHA256 and no MD5.
pub proof fn lemma_merged_charts_layout(c: CourseInfo)
    ensures
        merged_charts(c).len() == c.charts.len() + c.md5.len() + c.sha256.len(),
        forall|i: int| 0 <= i < c.charts.len() ==> merged_charts(c)[i] == (#[trigger] c.charts@[i])@,
        forall|j: int|
            0 <= j < c.md5.len() ==> {
                let x = merged_charts(c)[c.charts.len() + j];
                &&& x.md5 == Some((#[trigger] c.md5@[j])@)
                &&& x.sha256 is None
                &&& x.level == "0"@
            },
        forall|j: int|
            0 <= j < c.sha256.len() ==> {
                let x = merged_charts(c)[c.charts.len() + c.md5.len() + j];
                &&& x.sha256 == Some((#[trigger] c.sha256@[j])@)
                &&& x.md5 is None
                &&& x.level == "0"@
            },
{
    let a = charts_view(c.charts@);
    let b = strings_view(c.md5@).map_values(|h: Seq<char>| md5_chart(h));
    let d = strings_view(c.sha256@).map_values(|h: Seq<char>| sha256_chart(h));
    assert(merged_charts(c) == a + b + d);
    assert forall|j: int| 0 <= j < c.md5.len() implies (a + b + d)[c.charts.len() + j] == md5_chart(
        (#[trigger] c.md5@[j])@,
    ) by {
        assert(b[j] == md5_chart(c.md5@[j]@));
    }
    assert forall|j: int| 0 <= j < c.sha256.len() implies (a + b + d)[c.charts.len() + c.md5.len()
        + j] == sha256_chart((#[trigger] c.sha256@[j])@) by {
        assert(d[j] == sha256_chart(c.sha256@[j]@));
    }
}

/// Mathematical view of a [`CourseInfo`].
pub struct CourseInfoView {
    pub name: Seq<char>,
    pub constraint: Seq<Seq<char>>,
    pub trophy: Seq<Trophy>,
    pub charts: Seq<ChartItemView>,
    pub md5: Seq<Seq<char>>,
    pub sha256: Seq<Seq<char>>,
    pub extra: Map<String, serde_json::Value>,
}

impl View for CourseInfo {
    type V = CourseInfoView;

    open spec fn view(&self) -> CourseInfoView {
        CourseInfoView {
            name: self.name@,
            constraint: strings_view(self.constraint@),
            trophy: self.trophy@,
            charts: charts_view(self.charts@),
            md5: strings_view(self.md5@),
            sha256: strings_view(self.sha256@),
            extra: self.extra@,
        }
    }
}

/// Views of a sequence of courses.
pub open spec fn courses_view(v: Seq<CourseInfo>) -> Seq<CourseInfoView> {
    v.map_values(|c: CourseInfo| c@)
}

fn clone_strings(v: &Vec<String>) -> (r: Vec<String>)
    ensures
        r@ == v@,
{
    let mut out: Vec<String> = Vec::new();
    let mut i: usize = 0;
    while i < v.len()
        invariant
            i <= v.len(),
            out@ == v@.take(i as int),
        decreases v.len() - i,
    {
        out.push(v[i].clone());
        assert(v@.take(i + 1) == v@.take(i as int).push(v@[i as int]));
        i = i + 1;
    }
    assert(v@.take(v.len() as int) == v@);
    out
}

fn clone_trophies(v: &Vec<Trophy>) -> (r: Vec<Trophy>)
    ensures
        r@ == v@,
{
    let mut out: Vec<Trophy> = Vec::new();
    let mut i: usize = 0;
    while i < v.len()
        invariant
            i <= v.len(),
            out@ == v@.take(i as int),
        decreases v.len() - i,
    {
        let t = &v[i];
        out.push(Trophy {
            name: t.name.clone(),
            missrate_bits: t.missrate_bits,
            scorerate_bits: t.scorerate_bits,
        });
        assert(v@.take(i + 1) == v@.take(i as int).push(v@[i as int]));
        i = i + 1;
    }
    assert(v@.take(v.len() as int) == v@);
    out
}

fn clone_charts(v: &Vec<ChartItem>) -> (r: Vec<ChartItem>)
    ensures
        charts_view(r@) == charts_view(v@),
{
    let mut out: Vec<ChartItem> = Vec::new();
    let mut i: usize = 0;
    while i < v.len()
        invariant
            i <= v.len(),
            charts_view(out@) == charts_view(v@.take(i as int)),
        decreases v.len() - i,
    {
        out.push(v[i].duplicate());
        assert(charts_view(v@.take(i + 1)) == charts_view(v@.take(i as int)).push(v@[i as int]@));
        i = i + 1;
    }
    assert(v@.take(v.len() as int) == v@);
    out
}

impl CourseInfo {
    /// A copy of this course.
    fn duplicate(&self) -> (r: CourseInfo)
        ensures
            r@ == self@,
    {
        CourseInfo {
            name: self.name.clone(),
            constraint: clone_strings(&self.constraint),
            trophy: clone_trophies(&self.trophy),
            charts: clone_charts(&self.charts),
            md5: clone_strings(&self.md5),
            sha256: clone_strings(&self.sha256),
            extra: self.extra.clone(),
        }
    }

    /// Creates a course with the given name and all other fields empty.
    pub fn new(name: String) -> (r: CourseInfo)
        ensures
            r.name == name,
            r.constraint@.len() == 0,
            r.trophy@.len() == 0,
            r.charts@.len() == 0,
            r.md5@.len() == 0,
            r.sha256@.len() == 0,
            r.extra@ == Map::<String, serde_json::Value>::empty(),
    {
        CourseInfo {
            name,
            constraint: Vec::new(),
            trophy: Vec::new(),
            charts: Vec::new(),
            md5: Vec::new(),
            sha256: Vec::new(),
            extra: BTreeMap::new(),
        }
    }

    /// Merges all chart sources in order: `charts`, `md5`, `sha256`.
    ///
    /// Hash shorthands become chart items with that hash and level "0".
    pub fn all_charts(&self) -> (r: Vec<ChartItem>)
        ensures
            charts_view(r@) == merged_charts(*self),
    {
        let mut result: Vec<ChartItem> = Vec::new();
        let mut i: usize = 0;
        while i < self.charts.len()
            invariant
                i <= self.charts.len(),
                charts_view(result@) == charts_view(self.charts@.take(i as int)),
            decreases self.charts.len() - i,
        {
            result.push(self.charts[i].duplicate());
            assert(charts_view(self.charts@.take(i + 1)) == charts_view(self.charts@.take(i as int)).push(self.charts@[i as int]@));
            i = i + 1;
        }
        assert(self.charts@.take(self.charts.len() as int) == self.charts@);
        let ghost base = charts_view(result@);
        let mut k: usize = 0;
        while k < self.md5.len()
            invariant
                k <= self.md5.len(),
                base == charts_view(self.charts@),
                charts_view(result@) == base + strings_view(self.md5@.take(k as int)).map_values(|h: Seq<char>| md5_chart(h)),
            decreases self.md5.len() - k,
        {
            let mut item = ChartItem::new(crate::de::default_level());
            item.md5 = Some(self.md5[k].clone());
            assert(item@ == md5_chart(self.md5@[k as int]@));
            let ghost prev = charts_view(result@);
            result.push(item);
            assert(charts_view(result@) == prev.push(item@));
            assert(strings_view(self.md5@.take(k + 1)).map_values(|h: Seq<char>| md5_chart(h)) == strings_view(self.md5@.take(k as int)).map_values(|h: Seq<char>| md5_chart(h)).push(md5_chart(self.md5@[k as int]@)));
            k = k + 1;
        }
        assert(self.md5@.take(self.md5.len() as int) == self.md5@);
        let ghost base2 = charts_view(result@);
        let mut m: usize = 0;
        while m < self.sha256.len()
            invariant
                m <= self.sha256.len(),
                base2 == charts_view(self.charts@) + strings_view(self.md5@).map_values(|h: Seq<char>| md5_chart(h)),
                charts_view(result@) == base2 + strings_view(self.sha256@.take(m as int)).map_values(|h: Seq<char>| sha256_chart(h)),
            decreases self.sha256.len() - m,
        {
            let mut item = ChartItem::new(crate::de::default_level());
            item.sha256 = Some(self.sha256[m].clone());
            assert(item@ == sha256_chart(self.sha256@[m as int]@));
            let ghost prev = charts_view(result@);
            result.push(item);
            assert(charts_view(result@) == prev.push(item@));
            assert(strings_view(self.sha256@.take(m + 1)).map_values(|h: Seq<char>| sha256_chart(h)) == strings_view(self.sha256@.take(m as int)).map_values(|h: Seq<char>| sha256_chart(h)).push(sha256_chart(self.sha256@[m as int]@)));
            m = m + 1;
        }
        assert(self.sha256@.take(self.sha256.len() as int) == self.sha256@);
        result
    }
}

/// Recursive course tree of arbitrary nesting depth, preserving the shape of
/// the `course` JSON value: a leaf holds course entries, a branch holds sub-groups.
#[derive(Debug, PartialEq)]
pub enum CourseGroup {
    /// A leaf node containing a list of course entries.
    Courses(Vec<CourseInfo>),
    /// A branch node containing nested sub-groups.
    SubGroups(Vec<CourseGroup>),
}

/// All courses of a group, depth first, left to right.
pub open spec fn group_courses(g: CourseGroup) -> Seq<CourseInfo>
    decreases g, 0int,
{
    match g {
        CourseGroup::Courses(v) => v@,
        CourseGroup::SubGroups(v) => groups_courses(v@),
    }
}

/// All courses of a list of groups, in order.
pub open spec fn groups_courses(gs: Seq<CourseGroup>) -> Seq<CourseInfo>
    decreases gs, 1int,
{
    if gs.len() == 0 {
        Seq::empty()
    } else {
        groups_courses(gs.drop_last()) + group_courses(gs.last())
    }
}

/// Flattening a list of groups is concatenation: the courses of `a + b` are
/// the courses of `a` followed by those of `b`.
pub proof fn lemma_groups_courses_concat(a: Seq<CourseGroup>, b: Seq<CourseGroup>)
    ensures
        groups_courses(a + b) == groups_courses(a) + groups_courses(b),
    decreases b.len(),
{
    if b.len() == 0 {
        assert(a + b == a);
    } else {
        lemma_groups_courses_concat(a, b.drop_last());
        assert((a + b).drop_last() == a + b.drop_last());
        assert((a + b).last() == b.last());
    }
}

/// Nesting a group one level deeper does not change its courses or their order.
pub proof fn lemma_nesting_keeps_courses(g: CourseGroup, outer: CourseGroup)
    requires
        outer matches CourseGroup::SubGroups(v) && v@ == seq![g],
    ensures
        group_courses(outer) == group_courses(g),
{
    let v = outer->SubGroups_0;
    assert(v@.drop_last() == Seq::<CourseGroup>::empty());
    assert(groups_courses(v@.drop_last()) == Seq::<CourseInfo>::empty());
    assert(Seq::<CourseInfo>::empty() + group_courses(g) == group_courses(g));
}

/// `a` and `b` have the same shape, and their leaves hold courses with the
/// same views, in the same order.
pub open spec fn same_tree(a: CourseGroup, b: CourseGroup) -> bool
    decreases a,
{
    match a {
        CourseGroup::Courses(x) => match b {
            CourseGroup::Courses(y) => courses_view(x@) == courses_view(y@),
            CourseGroup::SubGroups(_) => false,
        },
        CourseGroup::SubGroups(x) => match b {
            CourseGroup::Courses(_) => false,
            CourseGroup::SubGroups(y) => x@.len() == y@.len() && forall|i: int|
                0 <= i < x@.len() ==> same_tree(#[trigger] x@[i], y@[i]),
        },
    }
}

/// Trees of the same shape and course views list the same courses. Since
/// `clone` gives such a tree, `g.clone().into_flatten()` lists the courses that
/// `g.flatten()` lists.
pub proof fn lemma_same_tree_same_courses(a: CourseGroup, b: CourseGroup)
    requires
        same_tree(a, b),
    ensures
        courses_view(group_courses(a)) == courses_view(group_courses(b)),
    decreases a, 2int,
{
    match a {
        CourseGroup::Courses(_) => {},
        CourseGroup::SubGroups(x) => {
            let y = b->SubGroups_0;
            assert(decreases_to!(a => a->SubGroups_0));
            lemma_same_trees_same_courses(a, x@, y@);
        },
    }
}

proof fn lemma_same_trees_same_courses(root: CourseGroup, xs: Seq<CourseGroup>, ys: Seq<CourseGroup>)
    requires
        xs.len() == ys.len(),
        forall|i: int| 0 <= i < xs.len() ==> same_tree(#[trigger] xs[i], ys[i]),
        forall|i: int| 0 <= i < xs.len() ==> decreases_to!(root => #[trigger] xs[i]),
    ensures
        courses_view(groups_courses(xs)) == courses_view(groups_courses(ys)),
    decreases root, 1int, xs.len(),
{
    if xs.len() > 0 {
        let n = xs.len() - 1;
        assert(same_tree(xs[n], ys[n]));
        lemma_same_tree_same_courses(xs[n], ys[n]);
        assert forall|i: int| 0 <= i < xs.drop_last().len() implies same_tree(
            #[trigger] xs.drop_last()[i],
            ys.drop_last()[i],
        ) by {
            assert(same_tree(xs[i], ys[i]));
        }
        assert forall|i: int| 0 <= i < xs.drop_last().len() implies decreases_to!(root => #[trigger] xs.drop_last()[i]) by {
            assert(decreases_to!(root => xs[i]));
        }
        lemma_same_trees_same_courses(root, xs.drop_last(), ys.drop_last());
        assert(courses_view(groups_courses(xs)) == courses_view(groups_courses(xs.drop_last()))
            + courses_view(group_courses(xs.last())));
        assert(courses_view(groups_courses(ys)) == courses_view(groups_courses(ys.drop_last()))
            + courses_view(group_courses(ys.last())));
    }
}

impl Clone for CourseGroup {
    /// A deep copy of the tree: same shape, courses with the same views.
    fn clone(&self) -> (r: CourseGroup)
        ensures
            same_tree(r, *self),
        decreases self,
    {
        match self {
            CourseGroup::Courses(v) => {
                let mut out: Vec<CourseInfo> = Vec::new();
                let mut i: usize = 0;
                while i < v.len()
                    invariant
                        i <= v.len(),
                        courses_view(out@) == courses_view(v@.take(i as int)),
                    decreases v.len() - i,
                {
                    out.push(v[i].duplicate());
                    assert(courses_view(v@.take(i + 1)) == courses_view(v@.take(i as int)).push(
                        v@[i as int]@,
                    ));
                    i = i + 1;
                }
                assert(v@.take(v.len() as int) == v@);
                CourseGroup::Courses(out)
            },
            CourseGroup::SubGroups(v) => {
                let mut out: Vec<CourseGroup> = Vec::new();
                let mut i: usize = 0;
                while i < v.len()
                    invariant
                        i <= v.len(),
                        *self == CourseGroup::SubGroups(*v),
                        out@.len() == i,
                        forall|k: int| 0 <= k < i ==> same_tree(#[trigger] out@[k], v@[k]),
                    decreases v.len() - i,
                {
                    assert(decreases_to!(*self => (*self)->SubGroups_0));
                    assert(decreases_to!(*v => v[i as int]));
                    out.push(v[i].clone());
                    i = i + 1;
                }
                CourseGroup::SubGroups(out)
            },
        }
    }
}

impl Default for CourseGroup {
    /// An empty leaf.
    fn default() -> (r: CourseGroup)
        ensures
            r matches CourseGroup::Courses(v) && v@.len() == 0,
    {
        CourseGroup::Courses(Vec::new())
    }
}

impl CourseGroup {
    /// A leaf holding exactly one course.
    pub fn from(info: CourseInfo) -> (r: CourseGroup)
        ensures
            r matches CourseGroup::Courses(v) && v@ == seq![info],
    {
        let mut v: Vec<CourseInfo> = Vec::new();
        v.push(info);
        CourseGroup::Courses(v)
    }

    /// References to all courses of this sub-tree, depth first, left to right.
    pub fn flatten(&self) -> (r: Vec<&CourseInfo>)
        ensures
            r@.map_values(|c: &CourseInfo| *c) == group_courses(*self),
        decreases self,
    {
        let mut out: Vec<&CourseInfo> = Vec::new();
        match self {
            CourseGroup::Courses(v) => {
                let mut i: usize = 0;
                while i < v.len()
                    invariant
                        i <= v.len(),
                        out@.map_values(|c: &CourseInfo| *c) == v@.take(i as int),
                    decreases v.len() - i,
                {
                    out.push(&v[i]);
                    assert(v@.take(i + 1) == v@.take(i as int).push(v@[i as int]));
                    i = i + 1;
                }
                assert(v@.take(v.len() as int) == v@);
            },
            CourseGroup::SubGroups(v) => {
                let mut i: usize = 0;
                while i < v.len()
                    invariant
                        i <= v.len(),
                        *self == CourseGroup::SubGroups(*v),
                        out@.map_values(|c: &CourseInfo| *c) == groups_courses(v@.take(i as int)),
                    decreases v.len() - i,
                {
                    assert(decreases_to!(*self => (*self)->SubGroups_0));
                    assert(decreases_to!(*v => v[i as int]));
                    assert(decreases_to!(*self => v[i as int]));
                    let sub = v[i].flatten();
                    let ghost prev = out@.map_values(|c: &CourseInfo| *c);
                    let mut k: usize = 0;
                    while k < sub.len()
                        invariant
                            k <= sub.len(),
                            out@.map_values(|c: &CourseInfo| *c) == prev + sub@.map_values(|c: &CourseInfo| *c).take(k as int),
                        decreases sub.len() - k,
                    {
                        let ghost before = out@.map_values(|c: &CourseInfo| *c);
                        out.push(sub[k]);
                        assert(out@.map_values(|c: &CourseInfo| *c) == before.push(*sub@[k as int]));
                        assert(sub@.map_values(|c: &CourseInfo| *c).take(k + 1) == sub@.map_values(|c: &CourseInfo| *c).take(k as int).push(*sub@[k as int]));
                        k = k + 1;
                    }
                    assert(sub@.map_values(|c: &CourseInfo| *c).take(sub.len() as int) == sub@.map_values(|c: &CourseInfo| *c));
                    assert(v@.take(i + 1).drop_last() == v@.take(i as int));
                    i = i + 1;
                }
                assert(v@.take(v.len() as int) == v@);
            },
        }
        out
    }

    /// All courses of this sub-tree, depth first, left to right, by value.
    pub fn into_flatten(self) -> (r: Vec<CourseInfo>)
        ensures
            r@ == group_courses(self),
        decreases self,
    {
        match self {
            CourseGroup::Courses(v) => v,
            CourseGroup::SubGroups(v) => {
                let ghost gs = v@;
                assert forall|k: int| 0 <= k < gs.len() implies decreases_to!(self => #[trigger] gs[k]) by {
                    assert(decreases_to!(v => v[k]));
                }
                let mut v = v;
                assert(gs.len() == v.len());
                let mut out: Vec<CourseInfo> = Vec::new();
                let mut i: usize = 0;
                while v.len() > 0
                    invariant
                        i + v@.len() == gs.len(),
                        gs.len() <= usize::MAX,
                        v@ == gs.skip(i as int),
                        out@ == groups_courses(gs.take(i as int)),
                        forall|k: int| 0 <= k < gs.len() ==> decreases_to!(self => #[trigger] gs[k]),
                    decreases v.len(),
                {
                    let g = v.remove(0);
                    assert(g == gs[i as int]);
                    let mut sub = g.into_flatten();
                    out.append(&mut sub);
                    assert(gs.take(i + 1).drop_last() == gs.take(i as int));
                    assert(gs.skip(i + 1) == gs.skip(i as int).drop_first());
                    i = i + 1;
                }
                assert(gs.take(gs.len() as int) == gs);
                out
            },
        }
    }
}

/// Header of a BMS difficulty table. Unrecognized header fields are kept in `extra`.
#[derive(Debug, Clone, PartialEq)]
pub struct BmsTableHeader {
    /// Table name, e.g. "Satellite".
    pub name: String,
    /// Table symbol, e.g. "sl".
    pub symbol: String,
    /// URL of the chart data file, as written in the header JSON.
    pub data_url: String,
    /// Tag label text; falls back to `symbol` when absent.
    pub tag: Option<String>,
    /// Play mode hint.
    pub mode: Option<String>,
    /// Course tree, keeping the nesting of the JSON value.
    pub course: CourseGroup,
    /// Difficulty level order; a lower index means an easier level.
    pub level_order: Vec<String>,
    /// Unrecognized header fields.
    pub extra: BTreeMap<String, serde_json::Value>,
}

impl BmsTableHeader {
    /// Creates a header with the given required fields and defaults for everything else.
    pub fn new(name: String, symbol: String, data_url: String) -> (r: BmsTableHeader)
        ensures
            r.name == name,
            r.symbol == symbol,
            r.data_url == data_url,
            r.tag is None,
            r.mode is None,
            r.course matches CourseGroup::Courses(v) && v@.len() == 0,
            r.level_order@.len() == 0,
            r.extra@ == Map::<String, serde_json::Value>::empty(),
    {
        BmsTableHeader {
            name,
            symbol,
            data_url,
            tag: None,
            mode: None,
            course: CourseGroup::Courses(Vec::new()),
            level_order: Vec::new(),
            extra: BTreeMap::new(),
        }
    }

    /// The index of `level` in `level_order` (its first occurrence), or `None`
    /// if it does not occur.
    pub fn level_index(&self, level: &str) -> (r: Option<usize>)
        ensures
            match r {
                Some(i) => i < self.level_order@.len() && self.level_order@[i as int]@ == level@
                    && forall|k: int| 0 <= k < i ==> self.level_order@[k]@ != level@,
                None => forall|k: int|
                    0 <= k < self.level_order@.len() ==> self.level_order@[k]@ != level@,
            },
    {
        let target = crate::text::chars_of(level);
        let mut i: usize = 0;
        while i < self.level_order.len()
            invariant
                i <= self.level_order.len(),
                target@ == level@,
                forall|k: int| 0 <= k < i ==> self.level_order@[k]@ != level@,
            decreases self.level_order.len() - i,
        {
            let cand = crate::text::chars_of(self.level_order[i].as_str());
            if crate::text::chars_eq(&cand, &target) {
                return Some(i);
            }
            i = i + 1;
        }
        None
    }
}

/// Chart data of a table: a plain array of chart items.
#[derive(Debug, Clone, PartialEq)]
pub struct BmsTableData {
    /// Charts.
    pub charts: Vec<ChartItem>,
}

impl BmsTableData {
    /// Creates table data holding the given charts.
    pub fn new(charts: Vec<ChartItem>) -> (r: BmsTableData)
        ensures
            r.charts == charts,
    {
        BmsTableData { charts }
    }
}

/// A complete difficulty table: header and chart data.
#[derive(Debug, Clone, PartialEq)]
pub struct BmsTable {
    /// Header information and extra fields.
    pub header: BmsTableHeader,
    /// Chart data.
    pub data: BmsTableData,
}

impl BmsTable {
    /// Creates a table from its header and data.
    pub fn new(header: BmsTableHeader, data: BmsTableData) -> (r: BmsTable)
        ensures
            r.header == header,
            r.data == data,
    {
        BmsTable { header, data }
    }
}

/// One entry of a list of difficulty tables. Fields other than `name`,
/// `symbol` and `url` are kept in `extra`.
#[derive(Debug, Clone, PartialEq)]
pub struct BmsTableInfo {
    /// Table name.
    pub name: String,
    /// Table symbol.
    pub symbol: String,
    /// Table URL.
    pub url: url::Url,
    /// Other fields (tag1, tag2, comment, date, state, tag_order, ...).
    pub extra: BTreeMap<String, serde_json::Value>,
}

impl BmsTableInfo {
    /// Creates a list entry with the given fields and an empty `extra`.
    pub fn new(name: String, symbol: String, url: url::Url) -> (r: BmsTableInfo)
        ensures
            r.name == name,
            r.symbol == symbol,
            r.url == url,
            r.extra@ == Map::<String, serde_json::Value>::empty(),
    {
        BmsTableInfo { name, symbol, url, extra: BTreeMap::new() }
    }
}

/// A list of difficulty tables.
#[derive(Debug, Clone, PartialEq)]
pub struct BmsTableList {
    /// Entries.
    pub entries: Vec<BmsTableInfo>,
}

impl BmsTableList {
    /// Creates a list holding the given entries.
    pub fn new(entries: Vec<BmsTableInfo>) -> (r: BmsTableList)
        ensures
            r.entries == entries,
    {
        BmsTableList { entries }
    }
}

} // verus!
