//! Helpers for turning fetched responses into a table: control-character
//! cleaning, locating the header JSON in an HTML page, and the fallback
//! strategies used while parsing responses.

pub mod fetcher;

use vstd::prelude::*;

use crate::html::opt_view;

pub use self::FetchError as Error;

use crate::text::{
    char_is_control, char_is_whitespace, chars_eq_ignore_case, chars_find_from, chars_of,
    contains_seq, ends_with_seq, eq_ignore_case, is_control, is_white, lower_chars, lower_seq,
    occurs_at, string_from_chars,
};

verus! {

/// Keeps characters that are not control codes.
pub open spec fn keep_printable() -> spec_fn(char) -> bool {
    |c: char| !is_control(c)
}

/// `s` with every control character removed.
pub open spec fn strip_controls(s: Seq<char>) -> Seq<char> {
    s.filter(keep_printable())
}

/// Removes non-printable control characters (Unicode category `Cc`) from JSON text.
///
/// Some sites wrap their JSON in illegal control characters; cleaning before
/// parsing improves compatibility.
pub fn replace_control_chars(s: &str) -> (r: String)
    ensures
        r@ == strip_controls(s@),
{
    let cs = chars_of(s);
    let mut out: Vec<char> = Vec::new();
    let mut i: usize = 0;
    while i < cs.len()
        invariant
            i <= cs.len(),
            out@ == strip_controls(cs@.take(i as int)),
        decreases cs.len() - i,
    {
        let c = cs[i];
        proof {
            cs@.take(i as int).lemma_filter_push(c, keep_printable());
            assert(cs@.take(i + 1) == cs@.take(i as int).push(c));
        }
        if !char_is_control(c) {
            out.push(c);
        }
        i = i + 1;
    }
    assert(cs@.take(cs.len() as int) == cs@);
    string_from_chars(out.as_slice())
}

/// Cleaning leaves no control character behind.
pub proof fn lemma_strip_controls_printable(s: Seq<char>)
    ensures
        forall|i: int|
            0 <= i < strip_controls(s).len() ==> !is_control(#[trigger] strip_controls(s)[i]),
{
    broadcast use Seq::lemma_filter_pred;

}

/// Text without control characters is left unchanged by cleaning.
pub proof fn lemma_strip_controls_keeps_printable(s: Seq<char>)
    requires
        forall|i: int| 0 <= i < s.len() ==> !is_control(#[trigger] s[i]),
    ensures
        strip_controls(s) == s,
    decreases s.len(),
{
    reveal(Seq::filter);
    if s.len() > 0 {
        lemma_strip_controls_keeps_printable(s.drop_last());
        assert(s.drop_last().push(s.last()) == s);
    }
}

/// Cleaning twice is the same as cleaning once, so a retry on cleaned text
/// sees exactly the text that the first cleaning produced.
pub proof fn lemma_strip_controls_idempotent(s: Seq<char>)
    ensures
        strip_controls(strip_controls(s)) == strip_controls(s),
{
    lemma_strip_controls_printable(s);
    lemma_strip_controls_keeps_printable(strip_controls(s));
}

/// The text contains `header` and ends with `.json`, ignoring ASCII case.
pub open spec fn header_json_like(s: Seq<char>) -> bool {
    contains_seq(lower_seq(s), "header"@) && ends_with_seq(lower_seq(s), ".json"@)
}

/// Checks whether `s` contains `header` and ends with `.json`, ignoring ASCII case.
pub fn contains_header_json(s: &str) -> (r: bool)
    ensures
        r == header_json_like(s@),
{
    let cs = chars_of(s);
    let l = lower_chars(&cs);
    let header = chars_of("header");
    let json = chars_of(".json");
    proof {
        reveal_strlit("header");
        reveal_strlit(".json");
    }
    let has_header = match chars_find_from(&l, &header, 0) {
        Some(_) => true,
        None => false,
    };
    if !has_header {
        assert(!contains_seq(l@, "header"@));
        return false;
    }
    if json.len() > l.len() {
        return false;
    }
    crate::text::chars_occur_at(&l, &json, l.len() - json.len())
}

/// A quote, an apostrophe or white space: what delimits a URL in raw text.
pub open spec fn is_delim(c: char) -> bool {
    c == '"' || c == '\'' || is_white(c)
}

/// Index of the last delimiter in `l[..g]`, or -1 when there is none.
pub open spec fn last_delim(l: Seq<char>, g: int) -> int
    decreases g,
{
    if g <= 0 {
        -1
    } else if is_delim(l[g - 1]) {
        g - 1
    } else {
        last_delim(l, g - 1)
    }
}

/// Where a span found at `g` starts: just after the nearest delimiter before
/// `g`, or at `g` itself when no delimiter precedes it.
pub open spec fn span_start(l: Seq<char>, g: int) -> int {
    let d = last_delim(l, g);
    if d >= 0 {
        d + 1
    } else {
        g
    }
}

/// `pat` first occurs in `s` at or after `from` at index `i`.
pub open spec fn first_occurrence_from(s: Seq<char>, pat: Seq<char>, from: int, i: int) -> bool {
    from <= i && occurs_at(s, pat, i) && forall|k: int| from <= k < i ==> !occurs_at(s, pat, k)
}

/// `(st, en)` is the span of a `*header*.json` reference in the text `s`:
/// `g` is the first `header` (ignoring ASCII case), `j` the first `.json` at or
/// after it, the span ends after that `.json` and starts after the nearest
/// quote or white space before `g` (at `g` when there is none).
pub open spec fn header_json_span(s: Seq<char>, g: int, j: int, st: int, en: int) -> bool {
    let l = lower_seq(s);
    &&& first_occurrence_from(l, "header"@, 0, g)
    &&& first_occurrence_from(l, ".json"@, g, j)
    &&& en == j + 5
    &&& st == span_start(l, g)
}

/// Finds the span of a substring like `*header*.json` in raw text, in
/// character indices.
pub fn find_header_json_in_text(s: &Vec<char>) -> (r: Option<(usize, usize)>)
    ensures
        r is Some ==> exists|g: int, j: int| #[trigger]
            header_json_span(s@, g, j, (r->0).0 as int, (r->0).1 as int),
        r is None ==> forall|g: int, j: int|
            first_occurrence_from(lower_seq(s@), "header"@, 0, g) ==> !occurs_at(
                lower_seq(s@),
                ".json"@,
                j,
            ) || j < g,
{
    let l = lower_chars(s);
    let header = chars_of("header");
    let json = chars_of(".json");
    proof {
        reveal_strlit("header");
        reveal_strlit(".json");
    }
    let g = match chars_find_from(&l, &header, 0) {
        Some(g) => g,
        None => {
            return None;
        },
    };
    let j = match chars_find_from(&l, &json, g) {
        Some(j) => j,
        None => {
            assert forall|g2: int, j2: int|
                first_occurrence_from(l@, "header"@, 0, g2) implies !occurs_at(
                l@,
                ".json"@,
                j2,
            ) || j2 < g2 by {
                if g2 < g {
                } else if g2 > g {
                }
            }
            return None;
        },
    };
    let mut d: usize = g;
    let mut found = false;
    while d > 0 && !found
        invariant
            d <= g,
            l@.len() == s@.len(),
            g <= l@.len(),
            found ==> d > 0 && last_delim(l@, g as int) == d - 1,
            !found ==> last_delim(l@, g as int) == last_delim(l@, d as int),
        decreases d + (if found { 0int } else { 1int }),
    {
        let c = l[d - 1];
        let w = char_is_whitespace(c);
        if c == '"' || c == '\'' || w {
            found = true;
        } else {
            d = d - 1;
        }
    }
    let st = if found {
        d
    } else {
        g
    };
    assert(j + 5 <= l.len());
    assert(span_start(l@, g as int) == st);
    let en = j + 5;
    let r = Some((st, en));
    assert(header_json_span(s@, g as int, j as int, (r->0).0 as int, (r->0).1 as int));
    r
}

/// Errors of the fetch helpers.
#[derive(Debug)]
pub enum FetchError {
    /// A network error while fetching.
    Network(reqwest::Error),
    /// A response could not be parsed as JSON; `context` holds the parser's message.
    Parse { context: String },
    /// A URL could not be resolved.
    UrlResolve { field: &'static str, msg: String },
    /// An HTML selector could not be parsed.
    InvalidSelector(String),
    /// No reference to the header JSON was found in the HTML.
    HtmlExtraction,
    /// A required field is missing.
    MissingField(&'static str),
    /// The header reference `header_url` found on the page at `web_url` led to
    /// another HTML page instead of the header JSON.
    CyclicHeader { web_url: String, header_url: String },
}

/// An attribute of an HTML element: the namespace of its name (empty for
/// ordinary HTML attributes), its local name and its value.
#[derive(Debug)]
pub struct HtmlAttr {
    pub namespace: String,
    pub local: String,
    pub value: String,
}

impl View for HtmlAttr {
    type V = (Seq<char>, Seq<char>, Seq<char>);

    open spec fn view(&self) -> (Seq<char>, Seq<char>, Seq<char>) {
        (self.namespace@, self.local@, self.value@)
    }
}

/// An HTML element as the extraction reads it: its attributes.
#[derive(Debug)]
pub struct HtmlElement {
    pub attrs: Vec<HtmlAttr>,
}

impl View for HtmlElement {
    type V = Seq<(Seq<char>, Seq<char>, Seq<char>)>;

    open spec fn view(&self) -> Seq<(Seq<char>, Seq<char>, Seq<char>)> {
        self.attrs@.map_values(|a: HtmlAttr| a@)
    }
}

pub open spec fn elements_view(v: Seq<HtmlElement>) -> Seq<Seq<(Seq<char>, Seq<char>, Seq<char>)>> {
    v.map_values(|e: HtmlElement| e@)
}

pub open spec fn selection_view(r: Result<Vec<HtmlElement>, String>) -> Result<
    Seq<Seq<(Seq<char>, Seq<char>, Seq<char>)>>,
    Seq<char>,
> {
    match r {
        Ok(v) => Ok(elements_view(v@)),
        Err(e) => Err(e@),
    }
}

/// `s` holds no `&`, carriage return or NUL: the characters on which the
/// HTML parser changes what an attribute value says (character references,
/// line-break normalisation, NUL replacement).
pub open spec fn plain_markup(s: Seq<char>) -> bool {
    forall|k: int| 0 <= k < s.len() ==> #[trigger] s[k] != '&' && s[k] != '\r' && s[k] != '\u{0}'
}

/// Every attribute value of the element `el` occurs in `s` as it stands.
pub open spec fn element_values_in(el: Seq<(Seq<char>, Seq<char>, Seq<char>)>, s: Seq<char>) -> bool {
    forall|j: int| 0 <= j < el.len() ==> contains_seq(s, (#[trigger] el[j]).2)
}

/// Every attribute value of the elements `els` occurs in `s` as it stands.
pub open spec fn attr_values_in(els: Seq<Seq<(Seq<char>, Seq<char>, Seq<char>)>>, s: Seq<char>) -> bool {
    forall|i: int| 0 <= i < els.len() ==> element_values_in(#[trigger] els[i], s)
}

/// The elements, in `scraper`'s selection order, that the CSS `selector`
/// selects in the document parsed from `html` (or the selector's parse error).
pub uninterp spec fn html_select(html: Seq<char>, selector: Seq<char>) -> Result<
    Seq<Seq<(Seq<char>, Seq<char>, Seq<char>)>>,
    Seq<char>,
>;

/// Parses `html` with `scraper::Html::parse_document` and returns the elements
/// that `scraper::Selector::parse(selector)` selects, each with its attributes;
/// the contract ties the result to the inputs through [`html_select`]. The
/// parser takes an attribute value from the characters of the page as they
/// stand, except that it decodes character references (`&`), turns carriage
/// returns into line feeds and replaces NUL; on a page without those
/// characters every attribute value occurs in the page.
#[verifier::external_body]
fn select_elements(html: &str, selector: &str) -> (r: Result<Vec<HtmlElement>, String>)
    ensures
        selection_view(r) == html_select(html@, selector@),
        plain_markup(html@) && r is Ok ==> attr_values_in(elements_view(r->Ok_0@), html@),
{
    let sel = scraper::Selector::parse(selector).map_err(|e| e.to_string())?;
    let doc = scraper::Html::parse_document(html);
    Ok(doc.select(&sel).map(|el| HtmlElement {
        attrs: el.value().attrs.iter().map(|(q, v)| HtmlAttr {
            namespace: q.ns.to_string(),
            local: q.local.to_string(),
            value: v.to_string(),
        }).collect(),
    }).collect())
}

/// The value of the attribute `name` (without namespace) of an element.
pub open spec fn attr_of(el: Seq<(Seq<char>, Seq<char>, Seq<char>)>, name: Seq<char>) -> Option<Seq<char>>
    decreases el.len(),
{
    if el.len() == 0 {
        None
    } else if el[0].0.len() == 0 && el[0].1 == name {
        Some(el[0].2)
    } else {
        attr_of(el.drop_first(), name)
    }
}

/// Looks up the attribute `name` (without namespace) of an element.
pub fn attr_value(el: &HtmlElement, name: &Vec<char>) -> (r: Option<String>)
    ensures
        opt_view(r) == attr_of(el@, name@),
{
    let mut i: usize = 0;
    assert(el@.skip(0) == el@);
    while i < el.attrs.len()
        invariant
            i <= el.attrs.len(),
            attr_of(el@, name@) == attr_of(el@.skip(i as int), name@),
        decreases el.attrs.len() - i,
    {
        let a = &el.attrs[i];
        assert(el@.skip(i as int)[0] == a@);
        assert(el@.skip(i as int).drop_first() == el@.skip(i + 1));
        if a.namespace.as_str().is_empty() {
            let l = chars_of(a.local.as_str());
            if crate::text::chars_eq(&l, name) {
                return Some(a.value.clone());
            }
        }
        i = i + 1;
    }
    None
}

/// What is looked for in one element.
#[derive(Clone, Copy, Debug)]
pub enum Probe {
    /// `<meta>` with `name` or `property` equal to `bmstable` and a non-empty `content`.
    MetaBmstable,
    /// `<link>` with `rel` equal to `bmstable` and a non-empty `href`.
    BmstableLink,
    /// An `href` that looks like `*header*.json`.
    HeaderJsonHref,
    /// A `src` that looks like `*header*.json`.
    HeaderJsonSrc,
    /// A `content` that looks like `*header*.json`.
    HeaderJsonContent,
}

pub open spec fn is_bmstable_value(v: Option<Seq<char>>) -> bool {
    v matches Some(s) && eq_ignore_case(s, "bmstable"@)
}

pub open spec fn non_empty(v: Option<Seq<char>>) -> Option<Seq<char>> {
    match v {
        Some(s) => if s.len() > 0 { Some(s) } else { None },
        None => None,
    }
}

pub open spec fn header_json_value(v: Option<Seq<char>>) -> Option<Seq<char>> {
    match v {
        Some(s) => if header_json_like(s) { Some(s) } else { None },
        None => None,
    }
}

/// What a probe finds in one element.
pub open spec fn probe_hit(p: Probe, el: Seq<(Seq<char>, Seq<char>, Seq<char>)>) -> Option<Seq<char>> {
    match p {
        Probe::MetaBmstable => if is_bmstable_value(attr_of(el, "name"@)) || is_bmstable_value(
            attr_of(el, "property"@),
        ) {
            non_empty(attr_of(el, "content"@))
        } else {
            None
        },
        Probe::BmstableLink => if is_bmstable_value(attr_of(el, "rel"@)) {
            non_empty(attr_of(el, "href"@))
        } else {
            None
        },
        Probe::HeaderJsonHref => header_json_value(attr_of(el, "href"@)),
        Probe::HeaderJsonSrc => header_json_value(attr_of(el, "src"@)),
        Probe::HeaderJsonContent => header_json_value(attr_of(el, "content"@)),
    }
}

/// What a probe finds in the first element where it finds something.
pub open spec fn first_probe_hit(els: Seq<Seq<(Seq<char>, Seq<char>, Seq<char>)>>, p: Probe) -> Option<
    Seq<char>,
>
    decreases els.len(),
{
    if els.len() == 0 {
        None
    } else {
        match probe_hit(p, els[0]) {
            Some(v) => Some(v),
            None => first_probe_hit(els.drop_first(), p),
        }
    }
}

fn is_bmstable_attr(v: &Option<String>) -> (r: bool)
    ensures
        r == is_bmstable_value(opt_view(*v)),
{
    match v {
        Some(s) => {
            let cs = chars_of(s.as_str());
            let b = chars_of("bmstable");
            chars_eq_ignore_case(&cs, &b)
        },
        None => false,
    }
}

/// Applies a probe to one element.
pub fn probe_element(p: Probe, el: &HtmlElement) -> (r: Option<String>)
    ensures
        opt_view(r) == probe_hit(p, el@),
{
    match p {
        Probe::MetaBmstable => {
            let name = attr_value(el, &chars_of("name"));
            let property = attr_value(el, &chars_of("property"));
            if is_bmstable_attr(&name) || is_bmstable_attr(&property) {
                match attr_value(el, &chars_of("content")) {
                    Some(c) => if !c.as_str().is_empty() {
                        Some(c)
                    } else {
                        None
                    },
                    None => None,
                }
            } else {
                None
            }
        },
        Probe::BmstableLink => {
            let rel = attr_value(el, &chars_of("rel"));
            if is_bmstable_attr(&rel) {
                match attr_value(el, &chars_of("href")) {
                    Some(h) => if !h.as_str().is_empty() {
                        Some(h)
                    } else {
                        None
                    },
                    None => None,
                }
            } else {
                None
            }
        },
        _ => {
            let a = match p {
                Probe::HeaderJsonHref => attr_value(el, &chars_of("href")),
                Probe::HeaderJsonSrc => attr_value(el, &chars_of("src")),
                _ => attr_value(el, &chars_of("content")),
            };
            match a {
                Some(v) => if contains_header_json(v.as_str()) {
                    Some(v)
                } else {
                    None
                },
                None => None,
            }
        },
    }
}

/// Applies a probe to each element in turn and returns the first finding.
pub fn first_probe_element(els: &Vec<HtmlElement>, p: Probe) -> (r: Option<String>)
    ensures
        opt_view(r) == first_probe_hit(elements_view(els@), p),
{
    let mut i: usize = 0;
    assert(elements_view(els@).skip(0) == elements_view(els@));
    while i < els.len()
        invariant
            i <= els.len(),
            first_probe_hit(elements_view(els@), p) == first_probe_hit(
                elements_view(els@).skip(i as int),
                p,
            ),
        decreases els.len() - i,
    {
        assert(elements_view(els@).skip(i as int)[0] == els@[i as int]@);
        assert(elements_view(els@).skip(i as int).drop_first() == elements_view(els@).skip(i + 1));
        let hit = probe_element(p, &els[i]);
        if hit.is_some() {
            return hit;
        }
        i = i + 1;
    }
    None
}

/// The `*header*.json` reference found in raw text, if any.
pub open spec fn text_candidate(text: Seq<char>) -> Option<Seq<char>> {
    let l = lower_seq(text);
    if exists|g: int, j: int|
        first_occurrence_from(l, "header"@, 0, g) && first_occurrence_from(l, ".json"@, g, j) {
        let (g, j) = choose|g: int, j: int|
            first_occurrence_from(l, "header"@, 0, g) && first_occurrence_from(l, ".json"@, g, j);
        Some(text.subrange(span_start(l, g), j + 5))
    } else {
        None
    }
}

/// The header JSON reference of a page, tried in order: a `bmstable` `<meta>`,
/// a `rel="bmstable"` `<link>`, an `<a href>`, a `<link href>`, a `<script src>`
/// and a `<meta content>` that look like `*header*.json`, and finally such a
/// reference anywhere in the raw text.
pub open spec fn bmstable_candidate(
    metas: Seq<Seq<(Seq<char>, Seq<char>, Seq<char>)>>,
    links: Seq<Seq<(Seq<char>, Seq<char>, Seq<char>)>>,
    anchors: Seq<Seq<(Seq<char>, Seq<char>, Seq<char>)>>,
    scripts: Seq<Seq<(Seq<char>, Seq<char>, Seq<char>)>>,
    text: Seq<char>,
) -> Option<Seq<char>> {
    let c1 = first_probe_hit(metas, Probe::MetaBmstable);
    let c2 = first_probe_hit(links, Probe::BmstableLink);
    let c3 = first_probe_hit(anchors, Probe::HeaderJsonHref);
    let c4 = first_probe_hit(links, Probe::HeaderJsonHref);
    let c5 = first_probe_hit(scripts, Probe::HeaderJsonSrc);
    let c6 = first_probe_hit(metas, Probe::HeaderJsonContent);
    if c1 is Some {
        c1
    } else if c2 is Some {
        c2
    } else if c3 is Some {
        c3
    } else if c4 is Some {
        c4
    } else if c5 is Some {
        c5
    } else if c6 is Some {
        c6
    } else {
        text_candidate(text)
    }
}

/// The elements of a selection, none when the selector was refused.
pub open spec fn selected_or_none(r: Result<Seq<Seq<(Seq<char>, Seq<char>, Seq<char>)>>, Seq<char>>) -> Seq<
    Seq<(Seq<char>, Seq<char>, Seq<char>)>,
> {
    match r {
        Ok(v) => v,
        Err(_) => Seq::empty(),
    }
}

/// Copies `v[a..b]`.
fn chars_sub(v: &Vec<char>, a: usize, b: usize) -> (r: Vec<char>)
    requires
        a <= b <= v.len(),
    ensures
        r@ == v@.subrange(a as int, b as int),
{
    let mut out: Vec<char> = Vec::new();
    let mut i: usize = a;
    while i < b
        invariant
            a <= i <= b <= v.len(),
            out@ == v@.subrange(a as int, i as int),
        decreases b - i,
    {
        out.push(v[i]);
        assert(v@.subrange(a as int, i + 1) == v@.subrange(a as int, i as int).push(v@[i as int]));
        i = i + 1;
    }
    out
}

/// The `*header*.json` reference found in raw text, if any.
pub fn text_reference(text: &str) -> (r: Option<String>)
    ensures
        opt_view(r) == text_candidate(text@),
{
    let cs = chars_of(text);
    let ghost l = lower_seq(text@);
    match find_header_json_in_text(&cs) {
        Some((st, en)) => {
            let ghost (g0, j0) = choose|g: int, j: int| #[trigger]
                header_json_span(cs@, g, j, st as int, en as int);
            assert(first_occurrence_from(l, "header"@, 0, g0) && first_occurrence_from(
                l,
                ".json"@,
                g0,
                j0,
            ));
            let ghost (g, j) = choose|g: int, j: int|
                first_occurrence_from(l, "header"@, 0, g) && first_occurrence_from(
                    l,
                    ".json"@,
                    g,
                    j,
                );
            assert(g == g0) by {
                if g < g0 {
                    assert(!occurs_at(l, "header"@, g));
                } else if g > g0 {
                    assert(!occurs_at(l, "header"@, g0));
                }
            }
            assert(j == j0) by {
                if j < j0 {
                    assert(!occurs_at(l, ".json"@, j));
                } else if j > j0 {
                    assert(!occurs_at(l, ".json"@, j0));
                }
            }
            assert(header_json_span(cs@, g, j, st as int, en as int));
            assert(st <= en <= cs.len()) by {
                lemma_last_delim_below(l, g);
                assert(span_start(l, g) <= g);
                assert(st as int == span_start(l, g));
                assert(en as int == j + 5);
                assert(l.len() == cs@.len());
                assert(occurs_at(l, ".json"@, j));
                reveal_strlit(".json");
                assert(g <= j);
            }
            let sub = chars_sub(&cs, st, en);
            Some(string_from_chars(sub.as_slice()))
        },
        None => {
            assert(!exists|g: int, j: int|
                first_occurrence_from(l, "header"@, 0, g) && first_occurrence_from(
                    l,
                    ".json"@,
                    g,
                    j,
                ));
            None
        },
    }
}

proof fn lemma_last_delim_below(l: Seq<char>, g: int)
    requires
        g >= 0,
    ensures
        last_delim(l, g) < g,
        last_delim(l, g) >= -1,
    decreases g,
{
    if g > 0 && !is_delim(l[g - 1]) {
        lemma_last_delim_below(l, g - 1);
    }
}

/// Picks the header JSON reference from the selected elements of a page and its raw text.
pub fn bmstable_from_elements(
    metas: &Vec<HtmlElement>,
    links: &Vec<HtmlElement>,
    anchors: &Vec<HtmlElement>,
    scripts: &Vec<HtmlElement>,
    text: &str,
) -> (r: Option<String>)
    ensures
        opt_view(r) == bmstable_candidate(
            elements_view(metas@),
            elements_view(links@),
            elements_view(anchors@),
            elements_view(scripts@),
            text@,
        ),
{
    let c = first_probe_element(metas, Probe::MetaBmstable);
    if c.is_some() {
        return c;
    }
    let c = first_probe_element(links, Probe::BmstableLink);
    if c.is_some() {
        return c;
    }
    let c = first_probe_element(anchors, Probe::HeaderJsonHref);
    if c.is_some() {
        return c;
    }
    let c = first_probe_element(links, Probe::HeaderJsonHref);
    if c.is_some() {
        return c;
    }
    let c = first_probe_element(scripts, Probe::HeaderJsonSrc);
    if c.is_some() {
        return c;
    }
    let c = first_probe_element(metas, Probe::HeaderJsonContent);
    if c.is_some() {
        return c;
    }
    text_reference(text)
}

/// The header JSON reference of an HTML page: `Ok(url)`, or `Err(Some(msg))`
/// when the `meta` selector is refused, or `Err(None)` when nothing is found.
pub open spec fn html_header_reference(html: Seq<char>) -> Result<Seq<char>, Option<Seq<char>>> {
    match html_select(html, "meta"@) {
        Err(m) => Err(Some(m)),
        Ok(metas) => match bmstable_candidate(
            metas,
            selected_or_none(html_select(html, "link"@)),
            selected_or_none(html_select(html, "a"@)),
            selected_or_none(html_select(html, "script"@)),
            html,
        ) {
            Some(u) => Ok(u),
            None => Err(None),
        },
    }
}

/// `r` is the outcome of extracting the header reference from `html`.
pub open spec fn extraction_matches(html: Seq<char>, r: Result<String, FetchError>) -> bool {
    match html_header_reference(html) {
        Ok(u) => r matches Ok(s) && s@ == u,
        Err(Some(m)) => r matches Err(FetchError::InvalidSelector(e)) && e@ == m,
        Err(None) => r matches Err(FetchError::HtmlExtraction),
    }
}

proof fn lemma_attr_of_in(el: Seq<(Seq<char>, Seq<char>, Seq<char>)>, name: Seq<char>, s: Seq<char>)
    requires
        element_values_in(el, s),
    ensures
        attr_of(el, name) matches Some(x) ==> contains_seq(s, x),
    decreases el.len(),
{
    if el.len() > 0 {
        assert(contains_seq(s, el[0].2));
        let rest = el.drop_first();
        assert forall|j: int| 0 <= j < rest.len() implies contains_seq(s, (#[trigger] rest[j]).2) by {
            assert(rest[j] == el[j + 1]);
        }
        lemma_attr_of_in(rest, name, s);
    }
}

proof fn lemma_first_probe_hit_in(els: Seq<Seq<(Seq<char>, Seq<char>, Seq<char>)>>, p: Probe, s: Seq<char>)
    requires
        attr_values_in(els, s),
    ensures
        first_probe_hit(els, p) matches Some(x) ==> contains_seq(s, x),
    decreases els.len(),
{
    if els.len() > 0 {
        let el = els[0];
        assert(element_values_in(el, s));
        lemma_attr_of_in(el, "content"@, s);
        lemma_attr_of_in(el, "href"@, s);
        lemma_attr_of_in(el, "src"@, s);
        let rest = els.drop_first();
        assert forall|i: int| 0 <= i < rest.len() implies element_values_in(#[trigger] rest[i], s) by {
            assert(rest[i] == els[i + 1]);
        }
        lemma_first_probe_hit_in(rest, p, s);
    }
}

proof fn lemma_text_candidate_in(text: Seq<char>)
    ensures
        text_candidate(text) matches Some(x) ==> contains_seq(text, x),
{
    let l = lower_seq(text);
    if exists|g: int, j: int|
        first_occurrence_from(l, "header"@, 0, g) && first_occurrence_from(l, ".json"@, g, j) {
        let (g, j) = choose|g: int, j: int|
            first_occurrence_from(l, "header"@, 0, g) && first_occurrence_from(l, ".json"@, g, j);
        reveal_strlit(".json");
        lemma_last_delim_below(l, g);
        let a = span_start(l, g);
        let x = text.subrange(a, j + 5);
        assert(occurs_at(text, x, a));
    }
}

/// On a page without `&`, carriage returns or NUL, the header reference that
/// the extraction picks occurs in the page as it stands: it is an attribute
/// value of a selected element or a span of the raw text, never rewritten.
pub proof fn lemma_candidate_occurs_in_page(
    metas: Seq<Seq<(Seq<char>, Seq<char>, Seq<char>)>>,
    links: Seq<Seq<(Seq<char>, Seq<char>, Seq<char>)>>,
    anchors: Seq<Seq<(Seq<char>, Seq<char>, Seq<char>)>>,
    scripts: Seq<Seq<(Seq<char>, Seq<char>, Seq<char>)>>,
    text: Seq<char>,
)
    requires
        attr_values_in(metas, text),
        attr_values_in(links, text),
        attr_values_in(anchors, text),
        attr_values_in(scripts, text),
    ensures
        bmstable_candidate(metas, links, anchors, scripts, text) matches Some(x) ==> contains_seq(
            text,
            x,
        ),
{
    lemma_first_probe_hit_in(metas, Probe::MetaBmstable, text);
    lemma_first_probe_hit_in(links, Probe::BmstableLink, text);
    lemma_first_probe_hit_in(anchors, Probe::HeaderJsonHref, text);
    lemma_first_probe_hit_in(links, Probe::HeaderJsonHref, text);
    lemma_first_probe_hit_in(scripts, Probe::HeaderJsonSrc, text);
    lemma_first_probe_hit_in(metas, Probe::HeaderJsonContent, text);
    lemma_text_candidate_in(text);
}

/// Extracts the header JSON URL that an HTML page points to.
///
/// Parses the page with `scraper`, then tries, in order: a `<meta>` with
/// `name`/`property` `bmstable` and a non-empty `content`; a `<link rel="bmstable">`
/// with a non-empty `href`; `<a href>`, `<link href>`, `<script src>` and
/// `<meta content>` values that look like `*header*.json`; and last a
/// `*header*.json` reference in the raw text.
pub fn try_extract_bmstable_from_html(html_content: &str) -> (r: Result<String, FetchError>)
    ensures
        extraction_matches(html_content@, r),
        plain_markup(html_content@) && r is Ok ==> contains_seq(html_content@, r->Ok_0@),
{
    let metas = match select_elements(html_content, "meta") {
        Ok(m) => m,
        Err(e) => {
            return Err(FetchError::InvalidSelector(e));
        },
    };
    let links = match select_elements(html_content, "link") {
        Ok(v) => v,
        Err(_) => Vec::new(),
    };
    let anchors = match select_elements(html_content, "a") {
        Ok(v) => v,
        Err(_) => Vec::new(),
    };
    let scripts = match select_elements(html_content, "script") {
        Ok(v) => v,
        Err(_) => Vec::new(),
    };
    assert(elements_view(links@) == selected_or_none(html_select(html_content@, "link"@)));
    assert(elements_view(anchors@) == selected_or_none(html_select(html_content@, "a"@)));
    assert(elements_view(scripts@) == selected_or_none(html_select(html_content@, "script"@)));
    let found = bmstable_from_elements(&metas, &links, &anchors, &scripts, html_content);
    proof {
        if plain_markup(html_content@) {
            lemma_candidate_occurs_in_page(
                elements_view(metas@),
                elements_view(links@),
                elements_view(anchors@),
                elements_view(scripts@),
                html_content@,
            );
        }
    }
    match found {
        Some(u) => Ok(u),
        None => Err(FetchError::HtmlExtraction),
    }
}

/// What a response yields: the URL of the header JSON (when the response is
/// HTML) or the parsed header JSON.
pub enum HeaderQueryContent<T> {
    /// Extracted header JSON URL; may be relative or absolute.
    Url(String),
    /// Parsed header JSON content.
    Value(T),
}

/// `parse` may return `res` on some text whose characters are `text`.
pub open spec fn parses_to<T, F: Fn(&str) -> Result<T, String>>(
    parse: F,
    text: Seq<char>,
    res: Result<T, String>,
) -> bool {
    exists|s: &str| s@ == text && #[trigger] parse.ensures((s,), res)
}

/// `parse` failed on some text whose characters are `text`.
pub open spec fn parse_fails<T, F: Fn(&str) -> Result<T, String>>(parse: F, text: Seq<char>) -> bool {
    exists|m: String| #[trigger] parses_to(parse, text, Err::<T, String>(m))
}

/// `r` is what [`parse_json_str_with_fallback`] may return on `raw`: the value
/// `parse` gave on `raw` itself, or, when that failed, what it gave on the
/// cleaned text; the error carries the second failure's message.
pub open spec fn json_fallback_outcome<T, F: Fn(&str) -> Result<T, String>>(
    parse: F,
    raw: Seq<char>,
    r: Result<(T, String), FetchError>,
) -> bool {
    match r {
        Ok((v, used)) => {
            ||| used@ == raw && parses_to(parse, raw, Ok(v))
            ||| used@ == strip_controls(raw) && parse_fails(parse, raw) && parses_to(
                parse,
                strip_controls(raw),
                Ok(v),
            )
        },
        Err(FetchError::Parse { context }) => parse_fails(parse, raw) && parses_to(
            parse,
            strip_controls(raw),
            Err(context),
        ),
        Err(_) => false,
    }
}

/// Parses JSON from a raw string with a cleaning fallback.
///
/// `parse` is tried on `raw` first; if it fails, control characters are
/// removed with [`replace_control_chars`] and `parse` is tried again. Returns
/// the value and the text that was parsed successfully; when both attempts
/// fail, the error carries the second attempt's message.
pub fn parse_json_str_with_fallback<T, F: Fn(&str) -> Result<T, String>>(raw: &str, parse: &F) -> (r:
    Result<(T, String), FetchError>)
    requires
        forall|s: &str| #[trigger] parse.requires((s,)),
    ensures
        json_fallback_outcome(*parse, raw@, r),
{
    match parse(raw) {
        Ok(v) => {
            assert(parses_to(*parse, raw@, Ok::<T, String>(v)));
            Ok((v, raw.to_owned()))
        },
        Err(e0) => {
            let ghost g0 = e0;
            assert(parses_to(*parse, raw@, Err::<T, String>(g0)));
            let cleaned = replace_control_chars(raw);
            let cs = cleaned.as_str();
            match parse(cs) {
                Ok(v) => {
                    assert(parses_to(*parse, strip_controls(raw@), Ok::<T, String>(v)));
                    Ok((v, cleaned))
                },
                Err(e) => {
                    let ghost ee = e;
                    assert(parses_to(*parse, strip_controls(raw@), Err::<T, String>(ee)));
                    Err(FetchError::Parse { context: e })
                },
            }
        },
    }
}

/// `r` is what [`get_web_header_json_value`] may return for a response whose
/// characters are `text`: the value that `parse` produced on the cleaned text,
/// or, when `parse` failed there, the outcome of extracting the header
/// reference from the HTML `text`.
pub open spec fn header_query_outcome<T, F: Fn(&str) -> Result<T, String>>(
    parse: F,
    text: Seq<char>,
    r: Result<HeaderQueryContent<T>, FetchError>,
) -> bool {
    match r {
        Ok(HeaderQueryContent::Value(v)) => parses_to(parse, strip_controls(text), Ok(v)),
        Ok(HeaderQueryContent::Url(u)) => parse_fails(parse, strip_controls(text))
            && html_header_reference(text) == Ok::<Seq<char>, Option<Seq<char>>>(u@),
        Err(e) => parse_fails(parse, strip_controls(text)) && match html_header_reference(text) {
            Ok(_) => false,
            Err(Some(m)) => e matches FetchError::InvalidSelector(x) && x@ == m,
            Err(None) => e matches FetchError::HtmlExtraction,
        },
    }
}

/// Parses a response string into the header JSON or its URL.
///
/// First tries `parse` on the response with control characters removed; if
/// that fails, treats the response as HTML and extracts the bmstable URL with
/// [`try_extract_bmstable_from_html`].
pub fn get_web_header_json_value<T, F: Fn(&str) -> Result<T, String>>(
    response_str: &str,
    parse: &F,
) -> (r: Result<HeaderQueryContent<T>, FetchError>)
    requires
        forall|s: &str| #[trigger] parse.requires((s,)),
    ensures
        header_query_outcome(*parse, response_str@, r),
{
    let cleaned = replace_control_chars(response_str);
    let cs = cleaned.as_str();
    match parse(cs) {
        Ok(header_json) => {
            assert(parses_to(*parse, strip_controls(response_str@), Ok::<T, String>(header_json)));
            Ok(HeaderQueryContent::Value(header_json))
        },
        Err(e) => {
            let ghost ee = e;
            assert(parses_to(*parse, strip_controls(response_str@), Err::<T, String>(ee)));
            match try_extract_bmstable_from_html(response_str) {
                Ok(u) => Ok(HeaderQueryContent::Url(u)),
                Err(x) => Err(x),
            }
        },
    }
}

/// `r` is what [`header_query_with_fallback`] may return on `raw`: the first
/// attempt's content with `raw` itself, or, when that attempt failed, the
/// second attempt's outcome on the cleaned text.
pub open spec fn fallback_outcome<T, F: Fn(&str) -> Result<T, String>>(
    parse: F,
    raw: Seq<char>,
    r: Result<(HeaderQueryContent<T>, String), FetchError>,
) -> bool {
    match r {
        Ok((q, used)) => {
            ||| used@ == raw && header_query_outcome(parse, raw, Ok(q))
            ||| used@ == strip_controls(raw) && (exists|e: FetchError|
                #[trigger] header_query_outcome(parse, raw, Err(e))) && header_query_outcome(
                parse,
                strip_controls(raw),
                Ok(q),
            )
        },
        Err(e) => (exists|e1: FetchError| #[trigger] header_query_outcome(parse, raw, Err(e1)))
            && header_query_outcome(parse, strip_controls(raw), Err(e)),
    }
}

/// Extracts the header query content from a response with a cleaning fallback.
///
/// Tries [`get_web_header_json_value`] on `raw`; on failure, retries on the text
/// with control characters removed. Returns the content and the text used for
/// the successful attempt; when both fail, the second attempt's error.
pub fn header_query_with_fallback<T, F: Fn(&str) -> Result<T, String>>(raw: &str, parse: &F) -> (r:
    Result<(HeaderQueryContent<T>, String), FetchError>)
    requires
        forall|s: &str| #[trigger] parse.requires((s,)),
    ensures
        fallback_outcome(*parse, raw@, r),
{
    match get_web_header_json_value(raw, parse) {
        Ok(v) => Ok((v, raw.to_owned())),
        Err(e1) => {
            let ghost g1 = e1;
            assert(header_query_outcome(*parse, raw@, Err::<HeaderQueryContent<T>, FetchError>(g1)));
            let cleaned = replace_control_chars(raw);
            match get_web_header_json_value(cleaned.as_str(), parse) {
                Ok(v) => Ok((v, cleaned)),
                Err(e) => Err(e),
            }
        },
    }
}

} // verus!
