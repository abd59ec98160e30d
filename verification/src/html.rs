//! Extraction of the header JSON URL from `<meta name="bmstable" content="...">`,
//! driven by the token stream of the `htmlparser` tokenizer.

use vstd::prelude::*;

use crate::error::BmsTableError;
use crate::text::{
    chars_eq_ignore_case, chars_find_from, chars_occur_at, chars_of, contains_seq, eq_ignore_case,
    lower_seq, occurs_at,
};
use htmlparser::{Token, Tokenizer};

verus! {

/// One token of the HTML tokenizer, reduced to what the extraction reads.
#[derive(Debug)]
pub enum HtmlToken {
    /// Start of an element, with its local name.
    ElementStart(String),
    /// An attribute with its local name and optional value.
    Attribute(String, Option<String>),
    /// End of an element (`>`, `/>` or a closing tag).
    ElementEnd,
    /// Any other token (text, comment, declaration, ...).
    Other,
    /// The tokenizer failed with this message; nothing follows it.
    Error(String),
}

/// Mathematical view of an [`HtmlToken`].
pub enum TokenView {
    ElementStart(Seq<char>),
    Attribute(Seq<char>, Option<Seq<char>>),
    ElementEnd,
    Other,
    Error(Seq<char>),
}

pub open spec fn opt_view(o: Option<String>) -> Option<Seq<char>> {
    match o {
        Some(s) => Some(s@),
        None => None,
    }
}

impl View for HtmlToken {
    type V = TokenView;

    open spec fn view(&self) -> TokenView {
        match self {
            HtmlToken::ElementStart(l) => TokenView::ElementStart(l@),
            HtmlToken::Attribute(l, v) => TokenView::Attribute(l@, opt_view(*v)),
            HtmlToken::ElementEnd => TokenView::ElementEnd,
            HtmlToken::Other => TokenView::Other,
            HtmlToken::Error(m) => TokenView::Error(m@),
        }
    }
}

pub open spec fn tokens_view(v: Seq<HtmlToken>) -> Seq<TokenView> {
    v.map_values(|t: HtmlToken| t@)
}

/// Number of bytes of `c` in UTF-8.
pub open spec fn utf8_len(c: char) -> int {
    let u = c as u32;
    if u < 0x80 {
        1
    } else if u < 0x800 {
        2
    } else if u < 0x10000 {
        3
    } else {
        4
    }
}

/// Number of characters right before index `k` that are neither `<` nor `>`.
pub open spec fn run_before(s: Seq<char>, k: int) -> int
    decreases k,
{
    if k <= 0 {
        0
    } else if s[k - 1] == '<' || s[k - 1] == '>' {
        0
    } else {
        1 + run_before(s, k - 1)
    }
}

proof fn lemma_run_before_bound(s: Seq<char>, k: int)
    requires
        k >= 0,
    ensures
        0 <= run_before(s, k) <= k,
    decreases k,
{
    if k > 0 && !(s[k - 1] == '<' || s[k - 1] == '>') {
        lemma_run_before_bound(s, k - 1);
    }
}

/// The run of characters before index `k` follows a `<`, so it lies inside a tag.
pub open spec fn run_follows_lt(s: Seq<char>, k: int) -> bool {
    let r = run_before(s, k);
    r < k && s[k - r - 1] == '<'
}

/// The `>` at `k` follows a run of characters that does not start in a tag,
/// and the byte two positions before it lies inside a multi-byte character.
/// On the first `>` of a text node, `htmlparser`'s tokenizer slices the text
/// two bytes before that `>` (its `]]>` check), which panics when the slice
/// point is not a character boundary. A text node starts right after a `>`
/// and holds no `<`, so its first `>` is never preceded by a run that
/// follows a `<`.
pub open spec fn gt_splits_char(s: Seq<char>, k: int) -> bool {
    let r = run_before(s, k);
    &&& 0 <= k < s.len()
    &&& s[k] == '>'
    &&& !run_follows_lt(s, k)
    &&& {
        ||| r >= 1 && utf8_len(s[k - 1]) >= 3
        ||| r >= 2 && utf8_len(s[k - 1]) == 1 && utf8_len(s[k - 2]) >= 2
    }
}

/// `s` holds at `p` the start of a conditional comment, as `htmlparser`
/// recognises one.
pub open spec fn opens_cond_comment(s: Seq<char>, p: int) -> bool {
    ||| occurs_at(s, "<!--[if"@, p)
    ||| occurs_at(s, "<![if"@, p)
    ||| occurs_at(s, "<![endif"@, p)
    ||| occurs_at(s, "<!--<![endif"@, p)
}

/// The conditional comment that starts at `p` has the shape that
/// `htmlparser`'s tokenizer needs to finish it: a `<![endif` goes on with `]`,
/// and the first `]` after `p` is followed by `>` or `-->`. On any other shape
/// the tokenizer panics (or steps past the end of its input).
pub open spec fn cond_comment_closes(s: Seq<char>, p: int) -> bool {
    &&& occurs_at(s, "<![endif"@, p) ==> occurs_at(s, "<![endif]"@, p)
    &&& exists|q: int|
        p < q < s.len() && #[trigger] s[q] == ']' && (forall|m: int| p < m < q ==> s[m] != ']')
            && (occurs_at(s, ">"@, q + 1) || occurs_at(s, "-->"@, q + 1))
}

/// Where a scan of the input stands, following the token boundaries of
/// `htmlparser`'s tokenizer.
pub enum ScanState {
    /// In text; `true` until the text's first `>` has been passed.
    Text(bool),
    /// In an element's start or end tag, outside attribute values.
    Tag,
    /// In an attribute value opened by this quote.
    Quote(char),
    /// In a `<!DOCTYPE` declaration, outside quoted literals.
    Doctype,
    /// In a quoted literal of a `<!DOCTYPE` declaration.
    DoctypeQuote(char),
    /// In the body of a comment.
    Comment,
    /// In the body of a CDATA section.
    CData,
    /// In a processing instruction.
    Pi,
    /// In a conditional comment, before its first `]`.
    CondBody,
    /// This many characters of a delimiter are still to pass, then the scan
    /// goes on in the given state.
    Skip(usize, ScanResume),
    /// In a construct that the scan does not follow (a DTD's internal subset
    /// or an unknown `<!`); from here on every `>` counts as possibly the first
    /// of a text node.
    Lost,
}

/// The state a [`ScanState::Skip`] goes on in.
pub enum ScanResume {
    Text,
    Comment,
    CData,
    Pi,
}

pub open spec fn resume_state(r: ScanResume) -> ScanState {
    match r {
        ScanResume::Text => ScanState::Text(true),
        ScanResume::Comment => ScanState::Comment,
        ScanResume::CData => ScanState::CData,
        ScanResume::Pi => ScanState::Pi,
    }
}

/// The state after the `<` at `k`, by what it opens.
pub open spec fn markup_state(s: Seq<char>, k: int) -> ScanState {
    if opens_cond_comment(s, k) {
        ScanState::CondBody
    } else if occurs_at(s, "<!--"@, k) {
        ScanState::Skip(3, ScanResume::Comment)
    } else if occurs_at(s, "<![CDATA["@, k) {
        ScanState::Skip(8, ScanResume::CData)
    } else if occurs_at(s, "<?"@, k) {
        ScanState::Skip(1, ScanResume::Pi)
    } else if occurs_at(s, "<!DOCTYPE"@, k) || occurs_at(s, "<!doctype"@, k) {
        ScanState::Doctype
    } else if occurs_at(s, "<!"@, k) {
        ScanState::Lost
    } else {
        ScanState::Tag
    }
}

/// The state after the `]` at `k` that ends a conditional comment's condition.
pub open spec fn cond_close_state(s: Seq<char>, k: int) -> ScanState {
    if occurs_at(s, ">-->"@, k + 1) {
        ScanState::Skip(4, ScanResume::Text)
    } else if occurs_at(s, "><!-->"@, k + 1) {
        ScanState::Skip(6, ScanResume::Text)
    } else if occurs_at(s, "-->"@, k + 1) {
        ScanState::Skip(3, ScanResume::Text)
    } else if occurs_at(s, ">"@, k + 1) {
        ScanState::Skip(1, ScanResume::Text)
    } else {
        ScanState::Lost
    }
}

/// The state after the character at `k`, from the state before it.
pub open spec fn scan_step(s: Seq<char>, k: int, st: ScanState) -> ScanState {
    let c = s[k];
    match st {
        ScanState::Text(fresh) => if c == '<' {
            markup_state(s, k)
        } else if c == '>' {
            ScanState::Text(false)
        } else {
            ScanState::Text(fresh)
        },
        ScanState::Tag => if c == '"' || c == '\'' {
            ScanState::Quote(c)
        } else if c == '>' {
            ScanState::Text(true)
        } else {
            ScanState::Tag
        },
        ScanState::Quote(q) => if c == q {
            ScanState::Tag
        } else {
            ScanState::Quote(q)
        },
        ScanState::Doctype => if c == '"' || c == '\'' {
            ScanState::DoctypeQuote(c)
        } else if c == '>' {
            ScanState::Text(true)
        } else if c == '[' {
            ScanState::Lost
        } else {
            ScanState::Doctype
        },
        ScanState::DoctypeQuote(q) => if c == q {
            ScanState::Doctype
        } else {
            ScanState::DoctypeQuote(q)
        },
        ScanState::Comment => if occurs_at(s, "-->"@, k) {
            ScanState::Skip(2, ScanResume::Text)
        } else {
            ScanState::Comment
        },
        ScanState::CData => if occurs_at(s, "]]>"@, k) {
            ScanState::Skip(2, ScanResume::Text)
        } else {
            ScanState::CData
        },
        ScanState::Pi => if occurs_at(s, "?>"@, k) {
            ScanState::Skip(1, ScanResume::Text)
        } else {
            ScanState::Pi
        },
        ScanState::CondBody => if c == ']' {
            cond_close_state(s, k)
        } else {
            ScanState::CondBody
        },
        ScanState::Skip(n, r) => if n <= 1 {
            resume_state(r)
        } else {
            ScanState::Skip((n - 1) as usize, r)
        },
        ScanState::Lost => ScanState::Lost,
    }
}

/// The scan's state before the character at `k`.
pub open spec fn scan_state(s: Seq<char>, k: int) -> ScanState
    decreases k,
{
    if k <= 0 {
        ScanState::Text(true)
    } else {
        scan_step(s, k - 1, scan_state(s, k - 1))
    }
}

/// A `>` met in this state may be the first `>` of a text node.
pub open spec fn may_start_text_gt(st: ScanState) -> bool {
    st matches ScanState::Text(true) || st is Lost
}

/// `htmlparser`'s tokenizer runs over `s` without a panic: no first `>` of a
/// text node makes it slice inside a character, and every conditional comment
/// is well closed.
pub open spec fn tokenizable(s: Seq<char>) -> bool {
    &&& forall|k: int| #[trigger] gt_splits_char(s, k) ==> !may_start_text_gt(scan_state(s, k))
    &&& forall|p: int| opens_cond_comment(s, p) ==> cond_comment_closes(s, p)
}

fn char_utf8_len(c: char) -> (r: usize)
    ensures
        r == utf8_len(c),
{
    let u = c as u32;
    if u < 0x80 {
        1
    } else if u < 0x800 {
        2
    } else if u < 0x10000 {
        3
    } else {
        4
    }
}

fn markup_state_at(s: &Vec<char>, k: usize) -> (r: ScanState)
    ensures
        r == markup_state(s@, k as int),
{
    if opens_cond_comment_at(s, k) {
        ScanState::CondBody
    } else if chars_occur_at(s, &chars_of("<!--"), k) {
        ScanState::Skip(3, ScanResume::Comment)
    } else if chars_occur_at(s, &chars_of("<![CDATA["), k) {
        ScanState::Skip(8, ScanResume::CData)
    } else if chars_occur_at(s, &chars_of("<?"), k) {
        ScanState::Skip(1, ScanResume::Pi)
    } else if chars_occur_at(s, &chars_of("<!DOCTYPE"), k) || chars_occur_at(
        s,
        &chars_of("<!doctype"),
        k,
    ) {
        ScanState::Doctype
    } else if chars_occur_at(s, &chars_of("<!"), k) {
        ScanState::Lost
    } else {
        ScanState::Tag
    }
}

fn cond_close_state_at(s: &Vec<char>, k: usize) -> (r: ScanState)
    requires
        k < s.len(),
    ensures
        r == cond_close_state(s@, k as int),
{
    if chars_occur_at(s, &chars_of(">-->"), k + 1) {
        ScanState::Skip(4, ScanResume::Text)
    } else if chars_occur_at(s, &chars_of("><!-->"), k + 1) {
        ScanState::Skip(6, ScanResume::Text)
    } else if chars_occur_at(s, &chars_of("-->"), k + 1) {
        ScanState::Skip(3, ScanResume::Text)
    } else if chars_occur_at(s, &chars_of(">"), k + 1) {
        ScanState::Skip(1, ScanResume::Text)
    } else {
        ScanState::Lost
    }
}

fn scan_step_at(s: &Vec<char>, k: usize, st: ScanState) -> (r: ScanState)
    requires
        k < s.len(),
    ensures
        r == scan_step(s@, k as int, st),
{
    let c = s[k];
    match st {
        ScanState::Text(fresh) => if c == '<' {
            markup_state_at(s, k)
        } else if c == '>' {
            ScanState::Text(false)
        } else {
            ScanState::Text(fresh)
        },
        ScanState::Tag => if c == '"' || c == '\'' {
            ScanState::Quote(c)
        } else if c == '>' {
            ScanState::Text(true)
        } else {
            ScanState::Tag
        },
        ScanState::Quote(q) => if c == q {
            ScanState::Tag
        } else {
            ScanState::Quote(q)
        },
        ScanState::Doctype => if c == '"' || c == '\'' {
            ScanState::DoctypeQuote(c)
        } else if c == '>' {
            ScanState::Text(true)
        } else if c == '[' {
            ScanState::Lost
        } else {
            ScanState::Doctype
        },
        ScanState::DoctypeQuote(q) => if c == q {
            ScanState::Doctype
        } else {
            ScanState::DoctypeQuote(q)
        },
        ScanState::Comment => if chars_occur_at(s, &chars_of("-->"), k) {
            ScanState::Skip(2, ScanResume::Text)
        } else {
            ScanState::Comment
        },
        ScanState::CData => if chars_occur_at(s, &chars_of("]]>"), k) {
            ScanState::Skip(2, ScanResume::Text)
        } else {
            ScanState::CData
        },
        ScanState::Pi => if chars_occur_at(s, &chars_of("?>"), k) {
            ScanState::Skip(1, ScanResume::Text)
        } else {
            ScanState::Pi
        },
        ScanState::CondBody => if c == ']' {
            cond_close_state_at(s, k)
        } else {
            ScanState::CondBody
        },
        ScanState::Skip(n, r) => if n <= 1 {
            match r {
                ScanResume::Text => ScanState::Text(true),
                ScanResume::Comment => ScanState::Comment,
                ScanResume::CData => ScanState::CData,
                ScanResume::Pi => ScanState::Pi,
            }
        } else {
            ScanState::Skip(n - 1, r)
        },
        ScanState::Lost => ScanState::Lost,
    }
}

fn no_gt_splits_char(s: &Vec<char>) -> (r: bool)
    ensures
        r == forall|k: int| #[trigger] gt_splits_char(s@, k) ==> !may_start_text_gt(scan_state(s@, k)),
{
    let mut run: usize = 0;
    let mut after_lt = false;
    let mut st = ScanState::Text(true);
    let mut k: usize = 0;
    while k < s.len()
        invariant
            k <= s.len(),
            run == run_before(s@, k as int),
            after_lt == run_follows_lt(s@, k as int),
            st == scan_state(s@, k as int),
            forall|m: int| 0 <= m < k && #[trigger] gt_splits_char(s@, m) ==> !may_start_text_gt(scan_state(s@, m)),
        decreases s.len() - k,
    {
        let c = s[k];
        proof {
            lemma_run_before_bound(s@, k as int);
        }
        let watch = match st {
            ScanState::Text(fresh) => fresh,
            ScanState::Lost => true,
            _ => false,
        };
        if c == '>' {
            if !after_lt && watch {
                let risky = (run >= 1 && char_utf8_len(s[k - 1]) >= 3) || (run >= 2
                    && char_utf8_len(s[k - 1]) == 1 && char_utf8_len(s[k - 2]) >= 2);
                if risky {
                    assert(gt_splits_char(s@, k as int));
                    return false;
                }
            }
            run = 0;
            after_lt = false;
        } else if c == '<' {
            run = 0;
            after_lt = true;
        } else {
            assert(run <= k);
            run = run + 1;
        }
        assert(run_before(s@, k + 1) == run);
        st = scan_step_at(s, k, st);
        k = k + 1;
    }
    assert forall|m: int| #[trigger] gt_splits_char(s@, m) implies !may_start_text_gt(scan_state(s@, m)) by {
        assert(0 <= m < s.len());
    }
    true
}

fn opens_cond_comment_at(s: &Vec<char>, p: usize) -> (r: bool)
    ensures
        r == opens_cond_comment(s@, p as int),
{
    chars_occur_at(s, &chars_of("<!--[if"), p) || chars_occur_at(s, &chars_of("<![if"), p)
        || chars_occur_at(s, &chars_of("<![endif"), p) || chars_occur_at(
        s,
        &chars_of("<!--<![endif"),
        p,
    )
}

proof fn lemma_single_char_occurs(s: Seq<char>, c: char, m: int)
    requires
        0 <= m < s.len(),
    ensures
        occurs_at(s, seq![c], m) == (s[m] == c),
{
    if s[m] == c {
        assert(s.subrange(m, m + 1) =~= seq![c]);
    } else {
        assert(s.subrange(m, m + 1)[0] == s[m]);
    }
}

fn cond_comment_closes_at(s: &Vec<char>, p: usize) -> (r: bool)
    requires
        p < s.len(),
    ensures
        r == cond_comment_closes(s@, p as int),
{
    if chars_occur_at(s, &chars_of("<![endif"), p) && !chars_occur_at(s, &chars_of("<![endif]"), p) {
        return false;
    }
    let close = chars_of("]");
    proof {
        reveal_strlit("]");
        assert(close@ =~= seq![']']);
    }
    match chars_find_from(s, &close, p + 1) {
        Some(q) => {
            proof {
                lemma_single_char_occurs(s@, ']', q as int);
                assert forall|m: int| p < m < q implies s@[m] != ']' by {
                    lemma_single_char_occurs(s@, ']', m);
                }
            }
            let ok = chars_occur_at(s, &chars_of(">"), q + 1) || chars_occur_at(
                s,
                &chars_of("-->"),
                q + 1,
            );
            if !ok {
                assert forall|q2: int|
                    p < q2 < s.len() && #[trigger] s@[q2] == ']' && (forall|m: int|
                        p < m < q2 ==> s@[m] != ']') implies q2 == q by {
                    if q2 < q {
                        lemma_single_char_occurs(s@, ']', q2);
                    }
                }
            }
            ok
        },
        None => {
            assert forall|q2: int| p < q2 < s.len() implies #[trigger] s@[q2] != ']' by {
                lemma_single_char_occurs(s@, ']', q2);
            }
            false
        },
    }
}

fn cond_comments_close(s: &Vec<char>) -> (r: bool)
    ensures
        r == forall|p: int| opens_cond_comment(s@, p) ==> cond_comment_closes(s@, p),
{
    let mut p: usize = 0;
    while p < s.len()
        invariant
            p <= s.len(),
            forall|m: int| 0 <= m < p && opens_cond_comment(s@, m) ==> cond_comment_closes(s@, m),
        decreases s.len() - p,
    {
        if opens_cond_comment_at(s, p) && !cond_comment_closes_at(s, p) {
            return false;
        }
        p = p + 1;
    }
    assert forall|m: int| opens_cond_comment(s@, m) implies cond_comment_closes(s@, m) by {
        reveal_strlit("<!--[if");
        reveal_strlit("<![if");
        reveal_strlit("<![endif");
        reveal_strlit("<!--<![endif");
    }
    true
}

/// Whether `htmlparser`'s tokenizer can run over `html` without a panic (see
/// [`tokenizable`]).
pub fn is_tokenizable(html: &str) -> (r: bool)
    ensures
        r == tokenizable(html@),
{
    let s = chars_of(html);
    no_gt_splits_char(&s) && cond_comments_close(&s)
}

/// The token stream that `htmlparser::Tokenizer` yields for an input text.
pub uninterp spec fn html_token_stream(html: Seq<char>) -> Seq<TokenView>;

/// Every attribute value in `t` occurs in `s` as it stands.
pub open spec fn values_occur_in(t: Seq<TokenView>, s: Seq<char>) -> bool {
    forall|i: int|
        0 <= i < t.len() ==> match #[trigger] t[i] {
            TokenView::Attribute(_, Some(v)) => contains_seq(s, v),
            _ => true,
        }
}

/// Runs `htmlparser::Tokenizer` over `html` and converts each item one for one;
/// the contract only ties the result to the input through [`html_token_stream`].
/// The tokenizer panics on some text nodes (see [`gt_splits_char`]) and on
/// badly closed conditional comments (see [`cond_comment_closes`]); those
/// inputs are left out by [`tokenizable`]. An attribute's value is the slice
/// of the input between its quotes, undecoded, so it occurs in `html` as it
/// stands.
#[verifier::external_body]
fn tokenize(html: &str) -> (r: Vec<HtmlToken>)
    requires
        tokenizable(html@),
    ensures
        tokens_view(r@) == html_token_stream(html@),
        values_occur_in(tokens_view(r@), html@),
{
    Tokenizer::from(html).map(|t| match t {
        Ok(Token::ElementStart { local, .. }) => HtmlToken::ElementStart(local.as_str().to_string()),
        Ok(Token::Attribute { local, value, .. }) => HtmlToken::Attribute(
            local.as_str().to_string(), value.map(|v| v.as_str().to_string())),
        Ok(Token::ElementEnd { .. }) => HtmlToken::ElementEnd,
        Ok(_) => HtmlToken::Other,
        Err(e) => HtmlToken::Error(e.to_string()),
    }).collect()
}

/// Starts a `<meta>` element (tag name compared case-insensitively).
pub open spec fn is_meta_start(t: TokenView) -> bool {
    t matches TokenView::ElementStart(l) && eq_ignore_case(l, "meta"@)
}

/// Starts or ends an element.
pub open spec fn is_boundary(t: TokenView) -> bool {
    t is ElementStart || t is ElementEnd
}

/// A `name` or `property` attribute.
pub open spec fn is_selector_attr(t: TokenView) -> bool {
    t matches TokenView::Attribute(n, _) && (eq_ignore_case(n, "name"@) || eq_ignore_case(
        n,
        "property"@,
    ))
}

/// A `content` attribute.
pub open spec fn is_content_attr(t: TokenView) -> bool {
    t matches TokenView::Attribute(n, _) && eq_ignore_case(n, "content"@)
}

/// A `name` or `property` attribute whose value is `bmstable` (any case).
pub open spec fn is_bmstable_attr(t: TokenView) -> bool {
    &&& is_selector_attr(t)
    &&& t matches TokenView::Attribute(_, Some(v))
    &&& eq_ignore_case(v, "bmstable"@)
}

/// Index of the last `content` attribute in `t[a..b]`, or `a - 1` when there is none.
pub open spec fn last_content(t: Seq<TokenView>, a: int, b: int) -> int
    decreases b - a,
{
    if b <= a {
        a - 1
    } else if is_content_attr(t[b - 1]) {
        b - 1
    } else {
        last_content(t, a, b - 1)
    }
}

/// Some `name` or `property` attribute of `t[a..b]` has the value `bmstable` (any case).
pub open spec fn marks_bmstable(t: Seq<TokenView>, a: int, b: int) -> bool
    decreases b - a,
{
    if b <= a {
        false
    } else {
        is_bmstable_attr(t[b - 1]) || marks_bmstable(t, a, b - 1)
    }
}

/// The value of the last `content` attribute of `t[a..b]`.
pub open spec fn content_in(t: Seq<TokenView>, a: int, b: int) -> Option<Seq<char>> {
    let k = last_content(t, a, b);
    if k >= a {
        t[k]->Attribute_1
    } else {
        None
    }
}

/// No element starts or ends in `t[a..b]`.
pub open spec fn clear_between(t: Seq<TokenView>, a: int, b: int) -> bool {
    forall|k: int| a <= k < b ==> !is_boundary(#[trigger] t[k])
}

/// `t[i]` starts a `<meta>` element that `t[j]` ends, it is marked `bmstable`,
/// and its `content` is present and non-empty.
pub open spec fn meta_match(t: Seq<TokenView>, i: int, j: int) -> bool {
    &&& 0 <= i < j < t.len()
    &&& is_meta_start(t[i])
    &&& t[j] is ElementEnd
    &&& clear_between(t, i + 1, j)
    &&& marks_bmstable(t, i + 1, j)
    &&& content_in(t, i + 1, j) matches Some(c) && c.len() > 0
}

/// No `<meta>` element of `t` matches.
pub open spec fn no_meta_match(t: Seq<TokenView>) -> bool {
    forall|i: int, j: int| !meta_match(t, i, j)
}

/// What the extraction yields on a token stream.
pub open spec fn url_result(t: Seq<TokenView>, r: Result<String, BmsTableError>) -> bool {
    match r {
        Ok(u) => exists|i: int, j: int|
            #[trigger] meta_match(t, i, j) && content_in(t, i + 1, j) == Some(u@) && forall|
                i2: int,
                j2: int,
            | #[trigger] meta_match(t, i2, j2) ==> j <= j2,
        Err(BmsTableError::MetaTagNotFound) => no_meta_match(t),
        Err(BmsTableError::SelectorParse(_)) => false,
    }
}


/// Two tokens that differ at most in the ASCII case of element and attribute names.
pub open spec fn same_but_name_case(a: TokenView, b: TokenView) -> bool {
    match (a, b) {
        (TokenView::ElementStart(x), TokenView::ElementStart(y)) => lower_seq(x) == lower_seq(y),
        (TokenView::Attribute(n1, v1), TokenView::Attribute(n2, v2)) => lower_seq(n1) == lower_seq(
            n2,
        ) && v1 == v2,
        _ => a == b,
    }
}

/// Two token streams that differ at most in the ASCII case of element and attribute names.
pub open spec fn streams_same_but_name_case(t1: Seq<TokenView>, t2: Seq<TokenView>) -> bool {
    t1.len() == t2.len() && forall|i: int|
        0 <= i < t1.len() ==> same_but_name_case(#[trigger] t1[i], t2[i])
}

proof fn lemma_last_attrs_same_but_name_case(t1: Seq<TokenView>, t2: Seq<TokenView>, a: int, b: int)
    requires
        streams_same_but_name_case(t1, t2),
        0 <= a,
        b <= t1.len(),
    ensures
        marks_bmstable(t1, a, b) == marks_bmstable(t2, a, b),
        last_content(t1, a, b) == last_content(t2, a, b),
    decreases b - a,
{
    if b > a {
        assert(same_but_name_case(t1[b - 1], t2[b - 1]));
        assert(is_bmstable_attr(t1[b - 1]) == is_bmstable_attr(t2[b - 1]));
        lemma_last_attrs_same_but_name_case(t1, t2, a, b - 1);
    }
}

proof fn lemma_match_same_but_name_case(t1: Seq<TokenView>, t2: Seq<TokenView>, i: int, j: int)
    requires
        streams_same_but_name_case(t1, t2),
        0 <= i < j < t1.len(),
    ensures
        meta_match(t1, i, j) == meta_match(t2, i, j),
        content_in(t1, i + 1, j) == content_in(t2, i + 1, j),
{
    assert(same_but_name_case(t1[i], t2[i]));
    assert(same_but_name_case(t1[j], t2[j]));
    assert(is_meta_start(t1[i]) == is_meta_start(t2[i]));
    assert((t1[j] is ElementEnd) == (t2[j] is ElementEnd));
    lemma_last_attrs_same_but_name_case(t1, t2, i + 1, j);
    lemma_clear_between_same_but_name_case(t1, t2, i + 1, j);
    let c = last_content(t1, i + 1, j);
    lemma_last_content_range(t1, i + 1, j);
    if c >= i + 1 {
        assert(same_but_name_case(t1[c], t2[c]));
        assert(is_content_attr(t1[c]));
        assert(t1[c]->Attribute_1 == t2[c]->Attribute_1);
    }
    assert(content_in(t1, i + 1, j) == content_in(t2, i + 1, j));
}

/// Tag and attribute names are matched case-insensitively: streams that differ
/// only in the ASCII case of element and attribute names give the same result.
pub proof fn lemma_extraction_ignores_name_case(
    t1: Seq<TokenView>,
    t2: Seq<TokenView>,
    r: Result<String, BmsTableError>,
)
    requires
        streams_same_but_name_case(t1, t2),
    ensures
        url_result(t1, r) == url_result(t2, r),
{
    assert forall|i: int, j: int|
        #![trigger meta_match(t1, i, j)]
        #![trigger meta_match(t2, i, j)]
        meta_match(t1, i, j) == meta_match(t2, i, j) by {
        if 0 <= i < j < t1.len() {
            lemma_match_same_but_name_case(t1, t2, i, j);
        }
    }
    assert forall|i: int, j: int|
        #![trigger meta_match(t1, i, j)]
        #![trigger meta_match(t2, i, j)]
        meta_match(t1, i, j) implies content_in(t1, i + 1, j) == content_in(t2, i + 1, j) by {
        lemma_match_same_but_name_case(t1, t2, i, j);
    }
    assert(no_meta_match(t1) == no_meta_match(t2));
}

proof fn lemma_clear_between_same_but_name_case(
    t1: Seq<TokenView>,
    t2: Seq<TokenView>,
    a: int,
    b: int,
)
    requires
        streams_same_but_name_case(t1, t2),
        0 <= a,
        b <= t1.len(),
    ensures
        clear_between(t1, a, b) == clear_between(t2, a, b),
{
    if clear_between(t1, a, b) {
        assert forall|k: int| a <= k < b implies !is_boundary(#[trigger] t2[k]) by {
            assert(same_but_name_case(t1[k], t2[k]));
            assert(!is_boundary(t1[k]));
        }
    }
    if clear_between(t2, a, b) {
        assert forall|k: int| a <= k < b implies !is_boundary(#[trigger] t1[k]) by {
            assert(same_but_name_case(t1[k], t2[k]));
            assert(!is_boundary(t2[k]));
        }
    }
}

proof fn lemma_last_content_range(t: Seq<TokenView>, a: int, b: int)
    ensures
        a - 1 <= last_content(t, a, b),
        last_content(t, a, b) < b || b < a,
        last_content(t, a, b) >= a ==> is_content_attr(t[last_content(t, a, b)]),
    decreases b - a,
{
    if b > a && !is_content_attr(t[b - 1]) {
        lemma_last_content_range(t, a, b - 1);
    }
}

/// Scans a token stream for the first `<meta>` element with a `name` or
/// `property` attribute equal to `bmstable` and a non-empty `content`, and
/// returns that `content`. Tag and attribute names and the `bmstable` value
/// are compared case-insensitively; when an element repeats `content`, the
/// last one counts. Tokens after a tokenizer error are never produced, so a
/// stream cut short by an error is scanned as far as it goes; when nothing
/// matches, the result is `MetaTagNotFound`.
pub fn url_from_tokens(tokens: &Vec<HtmlToken>) -> (r: Result<String, BmsTableError>)
    ensures
        url_result(tokens_view(tokens@), r),
{
    let ghost t = tokens_view(tokens@);
    let meta = chars_of("meta");
    let name_lit = chars_of("name");
    let property_lit = chars_of("property");
    let content_lit = chars_of("content");
    let bmstable_lit = chars_of("bmstable");
    proof {
        reveal_strlit("meta");
        reveal_strlit("name");
        reveal_strlit("property");
        reveal_strlit("content");
        reveal_strlit("bmstable");
    }
    let mut in_meta = false;
    let mut is_bmstable = false;
    let mut content: Option<String> = None;
    let ghost mut ms: int = 0;
    let mut n: usize = 0;
    while n < tokens.len()
        invariant
            t == tokens_view(tokens@),
            n <= tokens.len(),
            meta@ == "meta"@,
            name_lit@ == "name"@,
            property_lit@ == "property"@,
            content_lit@ == "content"@,
            bmstable_lit@ == "bmstable"@,
            in_meta ==> {
                &&& 0 <= ms < n
                &&& is_meta_start(t[ms])
                &&& clear_between(t, ms + 1, n as int)
                &&& is_bmstable == marks_bmstable(t, ms + 1, n as int)
                &&& opt_view(content) == content_in(t, ms + 1, n as int)
            },
            !in_meta ==> forall|i: int|
                0 <= i < n && is_meta_start(#[trigger] t[i]) ==> !clear_between(t, i + 1, n as int),
            forall|i: int, j: int| j < n ==> !#[trigger] meta_match(t, i, j),
        decreases tokens.len() - n,
    {
        let ghost before_in_meta = in_meta;
        let ghost nn = n as int;
        assert(t[nn] == tokens@[nn]@);
        match &tokens[n] {
            HtmlToken::Error(_) => {},
            HtmlToken::ElementStart(local) => {
                let l = chars_of(local.as_str());
                in_meta = chars_eq_ignore_case(&l, &meta);
                if in_meta {
                    is_bmstable = false;
                    content = None;
                    proof {
                        ms = nn;
                    }
                }
                assert(is_boundary(t[nn]));
            },
            HtmlToken::Attribute(local, value) => {
                if in_meta {
                    let l = chars_of(local.as_str());
                    if chars_eq_ignore_case(&l, &name_lit) || chars_eq_ignore_case(&l, &property_lit) {
                        assert(lower_seq(l@).len() == l@.len());
                        assert(lower_seq(content_lit@).len() == content_lit@.len());
                        assert(lower_seq(name_lit@).len() == name_lit@.len());
                        assert(lower_seq(property_lit@).len() == property_lit@.len());
                        proof {
                            reveal_strlit("content");
                            reveal_strlit("name");
                            reveal_strlit("property");
                        }
                        assert("content"@.len() == 7);
                        assert("name"@.len() == 4);
                        assert("property"@.len() == 8);
                        assert(eq_ignore_case(l@, "name"@) || eq_ignore_case(l@, "property"@));
                        assert(l@.len() == 4 || l@.len() == 8);
                        assert(!eq_ignore_case(l@, "content"@));
                        assert(!is_content_attr(t[nn]));
                        let marks = match value {
                            Some(v) => {
                                let vc = chars_of(v.as_str());
                                chars_eq_ignore_case(&vc, &bmstable_lit)
                            },
                            None => false,
                        };
                        if marks {
                            is_bmstable = true;
                        }
                    } else if chars_eq_ignore_case(&l, &content_lit) {
                        content = value.clone();
                    }
                }
            },
            HtmlToken::ElementEnd => {
                assert(is_boundary(t[nn]));
                if in_meta && is_bmstable {
                    match &content {
                        Some(c) => {
                            if !c.as_str().is_empty() {
                                assert(meta_match(t, ms, nn));
                                return Ok(c.clone());
                            }
                        },
                        None => {},
                    }
                }
                proof {
                    assert forall|i: int| !meta_match(t, i, nn) by {
                        if meta_match(t, i, nn) {
                            if before_in_meta {
                                if i < ms {
                                    assert(is_boundary(t[ms]));
                                } else if i > ms {
                                    assert(is_boundary(t[i]));
                                }
                            } else {
                                assert(!clear_between(t, i + 1, nn));
                            }
                        }
                    }
                }
                in_meta = false;
            },
            HtmlToken::Other => {},
        }
        proof {
            if !is_boundary(t[nn]) {
                assert forall|i: int|
                    0 <= i < nn + 1 && is_meta_start(#[trigger] t[i]) && !in_meta implies !clear_between(
                    t,
                    i + 1,
                    nn + 1,
                ) by {
                    if i < nn {
                        assert(!clear_between(t, i + 1, nn));
                    }
                }
            } else {
                assert forall|i: int|
                    0 <= i < nn + 1 && is_meta_start(#[trigger] t[i]) && i != ms implies !clear_between(
                    t,
                    i + 1,
                    nn + 1,
                ) by {
                    if i < nn {
                        assert(!is_boundary(t[nn]) || i + 1 <= nn);
                    }
                }
            }
        }
        n = n + 1;
    }
    Err(BmsTableError::MetaTagNotFound)
}

/// The URL found in a token stream is the value of one of its attributes.
pub proof fn lemma_found_url_is_attr_value(t: Seq<TokenView>, u: String)
    requires
        url_result(t, Ok(u)),
    ensures
        exists|k: int|
            0 <= k < t.len() && #[trigger] t[k] is Attribute && t[k]->Attribute_1 == Some(u@),
{
    let (i, j) = choose|i: int, j: int|
        #[trigger] meta_match(t, i, j) && content_in(t, i + 1, j) == Some(u@) && forall|
            i2: int,
            j2: int,
        | #[trigger] meta_match(t, i2, j2) ==> j <= j2;
    let k = last_content(t, i + 1, j);
    lemma_last_content_range(t, i + 1, j);
    assert(k >= i + 1);
    assert(t[k] is Attribute && t[k]->Attribute_1 == Some(u@));
}

/// HTML helpers for BMS difficulty table pages.
pub struct BmsTableHtml;

impl BmsTableHtml {
    /// Extracts the header JSON URL from `<meta name="bmstable" content="...">`
    /// (or `property="bmstable"`) in an HTML page, by running the `htmlparser`
    /// tokenizer and scanning its tokens with [`url_from_tokens`]. Inputs on
    /// which the tokenizer would panic are left out; [`is_tokenizable`] tells
    /// them apart.
    pub fn extract_url(html_content: &str) -> (r: Result<String, BmsTableError>)
        requires
            tokenizable(html_content@),
        ensures
            url_result(html_token_stream(html_content@), r),
            r matches Ok(u) ==> contains_seq(html_content@, u@),
    {
        let tokens = tokenize(html_content);
        let r = url_from_tokens(&tokens);
        proof {
            if r is Ok {
                lemma_found_url_is_attr_value(tokens_view(tokens@), r->Ok_0);
            }
        }
        r
    }
}

} // verus!
