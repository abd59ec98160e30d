//! The HTTP fetcher handle and the decisions of fetching a complete table:
//! which URL to fetch next given the text that came back.

use vstd::prelude::*;

use crate::de::result_view;
use crate::fetch::{
    fallback_outcome, header_query_with_fallback, json_fallback_outcome,
    parse_json_str_with_fallback, FetchError, HeaderQueryContent,
};
use crate::model::{BmsTable, BmsTableData, BmsTableHeader};
use reqwest::Error as ReqwestError;

verus! {

/// `reqwest::Error`, carried opaquely in [`FetchError::Network`].
#[verifier::external_type_specification]
#[verifier::external_body]
pub struct ExReqwestError(ReqwestError);

/// `reqwest::Client`, held opaquely by [`Fetcher`].
#[verifier::external_type_specification]
#[verifier::external_body]
pub struct ExReqwestClient(reqwest::Client);

/// `reqwest::Client::clone` (derived over an `Arc`): the copy is the same handle.
pub assume_specification[ <reqwest::Client as Clone>::clone ](c: &reqwest::Client) -> (r:
    reqwest::Client)
    ensures
        r == *c,
;

/// Fetcher wrapper around a reusable `reqwest::Client`.
#[derive(Clone)]
pub struct Fetcher {
    client: reqwest::Client,
}

impl Fetcher {
    /// The client this fetcher uses.
    pub closed spec fn held_client(&self) -> reqwest::Client {
        self.client
    }

    /// Creates a fetcher from an existing client.
    pub fn new(client: reqwest::Client) -> (r: Fetcher)
        ensures
            r.held_client() == client,
    {
        Fetcher { client }
    }

    /// Borrows the underlying client.
    pub fn client(&self) -> (r: &reqwest::Client)
        ensures
            *r == self.held_client(),
    {
        &self.client
    }
}

/// The serialization of `reference` resolved against the URL that `base`
/// parses to, or the URL parser's error message.
pub uninterp spec fn url_resolution(base: Seq<char>, reference: Seq<char>) -> Result<
    Seq<char>,
    Seq<char>,
>;

/// Resolves `reference` against `base` with `url::Url::parse` and `Url::join`;
/// the contract only ties the result to the inputs through [`url_resolution`].
#[verifier::external_body]
fn resolve_url(base: &str, reference: &str) -> (r: Result<String, String>)
    ensures
        result_view(r) == url_resolution(base@, reference@),
{
    url::Url::parse(base).and_then(|b| b.join(reference)).map(String::from).map_err(|e| e.to_string())
}

/// A fetched table with the texts it was parsed from and their URLs.
pub struct FetchedTableText {
    /// Parsed table.
    pub table: BmsTable,
    /// URL of the header JSON.
    pub header_json_url: String,
    /// Header JSON text that was parsed.
    pub header_raw: String,
    /// URL of the chart data JSON.
    pub data_json_url: String,
    /// Chart data JSON text that was parsed.
    pub data_raw: String,
}

/// Where the fetch of a table stands: what the text that is being fetched is.
pub enum TableFetchState {
    /// The web page of the table (HTML or header JSON).
    WebPage { web_url: String },
    /// The header JSON that the web page at `web_url` pointed to with the
    /// reference `header_url`, resolved to `header_json_url`.
    HeaderJson { web_url: String, header_url: String, header_json_url: String },
    /// The chart data that the header names.
    DataJson {
        header_json_url: String,
        header: BmsTableHeader,
        header_raw: String,
        data_json_url: String,
    },
}

/// What to do next.
pub enum TableFetchNext {
    /// Fetch `url` as text and hand the text to [`table_fetch_step`] with `state`.
    Fetch { url: String, state: TableFetchState },
    /// The table is complete.
    Done(FetchedTableText),
}

/// The first request of a table fetch: the web page itself.
pub fn start_table_fetch(web_url: String) -> (r: TableFetchNext)
    ensures
        r matches TableFetchNext::Fetch { url, state: TableFetchState::WebPage { web_url: w } }
            && url@ == web_url@ && w@ == web_url@,
{
    let url = web_url.clone();
    TableFetchNext::Fetch { url, state: TableFetchState::WebPage { web_url } }
}

/// `r` is the step taken once the header is known: resolve its `data_url`
/// against the header's own URL and fetch the chart data there.
pub open spec fn after_header(
    header_json_url: Seq<char>,
    header: BmsTableHeader,
    header_raw: Seq<char>,
    r: Result<TableFetchNext, FetchError>,
) -> bool {
    match url_resolution(header_json_url, header.data_url@) {
        Ok(d) => r matches Ok(
            TableFetchNext::Fetch {
                url,
                state: TableFetchState::DataJson { header_json_url: h, header: hd, header_raw: raw, data_json_url: du },
            },
        ) && url@ == d && du@ == d && h@ == header_json_url && hd == header && raw@ == header_raw,
        Err(m) => r matches Err(FetchError::UrlResolve { field, msg }) && field@ == "data_url"@
            && msg@ == m,
    }
}

fn header_known(header_json_url: String, header: BmsTableHeader, header_raw: String) -> (r: Result<
    TableFetchNext,
    FetchError,
>)
    ensures
        after_header(header_json_url@, header, header_raw@, r),
{
    match resolve_url(header_json_url.as_str(), header.data_url.as_str()) {
        Ok(data_json_url) => {
            let url = data_json_url.clone();
            Ok(
                TableFetchNext::Fetch {
                    url,
                    state: TableFetchState::DataJson {
                        header_json_url,
                        header,
                        header_raw,
                        data_json_url,
                    },
                },
            )
        },
        Err(msg) => Err(FetchError::UrlResolve { field: "data_url", msg }),
    }
}

/// `r` is the step taken on the text of the web page: a header JSON found in
/// the page itself is used with the page's URL; a header URL found in the
/// HTML is resolved against the page's URL and fetched.
pub open spec fn after_web_page(
    web_url: Seq<char>,
    q: Result<(HeaderQueryContent<BmsTableHeader>, String), FetchError>,
    r: Result<TableFetchNext, FetchError>,
) -> bool {
    match q {
        Err(e) => r == Err::<TableFetchNext, FetchError>(e),
        Ok((HeaderQueryContent::Value(h), used)) => after_header(web_url, h, used@, r),
        Ok((HeaderQueryContent::Url(s), _)) => match url_resolution(web_url, s@) {
            Ok(u) => r matches Ok(
                TableFetchNext::Fetch {
                    url,
                    state: TableFetchState::HeaderJson { web_url: w, header_url: hr, header_json_url: h },
                },
            ) && url@ == u && h@ == u && w@ == web_url && hr@ == s@,
            Err(m) => r matches Err(FetchError::UrlResolve { field, msg }) && field@
                == "header_url"@ && msg@ == m,
        },
    }
}

/// `r` is the step taken on the text of the header JSON: the header is used
/// with its own URL; pointing to yet another HTML page is refused with an
/// error naming the web page and the header reference it gave.
pub open spec fn after_header_json(
    web_url: Seq<char>,
    header_url: Seq<char>,
    header_json_url: Seq<char>,
    q: Result<(HeaderQueryContent<BmsTableHeader>, String), FetchError>,
    r: Result<TableFetchNext, FetchError>,
) -> bool {
    match q {
        Err(e) => r == Err::<TableFetchNext, FetchError>(e),
        Ok((HeaderQueryContent::Value(h), used)) => after_header(header_json_url, h, used@, r),
        Ok((HeaderQueryContent::Url(_), _)) => r matches Err(
            FetchError::CyclicHeader { web_url: w, header_url: h },
        ) && w@ == web_url && h@ == header_url,
    }
}

/// When the header JSON was reached through a reference on a web page, the
/// chart data is fetched from the header's `data_url` resolved against the URL
/// the header JSON was fetched from, whatever the web page's URL is; when that
/// resolution fails, the step fails with a `data_url` resolution error.
pub proof fn lemma_data_url_against_header_json_url(
    web_url: Seq<char>,
    header_url: Seq<char>,
    header_json_url: Seq<char>,
    header: BmsTableHeader,
    used: String,
    r: Result<TableFetchNext, FetchError>,
)
    requires
        after_header_json(
            web_url,
            header_url,
            header_json_url,
            Ok((HeaderQueryContent::Value(header), used)),
            r,
        ),
    ensures
        match url_resolution(header_json_url, header.data_url@) {
            Ok(d) => r matches Ok(
                TableFetchNext::Fetch {
                    url,
                    state: TableFetchState::DataJson { header_json_url: h, header: hd, header_raw: raw, data_json_url: du },
                },
            ) && url@ == d && du@ == d && h@ == header_json_url && hd == header && raw@ == used@,
            Err(m) => r matches Err(FetchError::UrlResolve { field, msg }) && field@ == "data_url"@
                && msg@ == m,
        },
{
}

/// When the web page itself is the header JSON, the chart data is fetched from
/// the header's `data_url` resolved against the web page's URL, which then
/// also stands as the header JSON's URL.
pub proof fn lemma_data_url_against_web_url(
    web_url: Seq<char>,
    header: BmsTableHeader,
    used: String,
    r: Result<TableFetchNext, FetchError>,
)
    requires
        after_web_page(web_url, Ok((HeaderQueryContent::Value(header), used)), r),
    ensures
        match url_resolution(web_url, header.data_url@) {
            Ok(d) => r matches Ok(
                TableFetchNext::Fetch {
                    url,
                    state: TableFetchState::DataJson { header_json_url: h, header: hd, header_raw: raw, data_json_url: du },
                },
            ) && url@ == d && du@ == d && h@ == web_url && hd == header && raw@ == used@,
            Err(m) => r matches Err(FetchError::UrlResolve { field, msg }) && field@ == "data_url"@
                && msg@ == m,
        },
{
}

/// `r` is the step taken on the text of the chart data: the table is complete.
pub open spec fn after_data(
    header_json_url: Seq<char>,
    header: BmsTableHeader,
    header_raw: Seq<char>,
    data_json_url: Seq<char>,
    q: Result<(BmsTableData, String), FetchError>,
    r: Result<TableFetchNext, FetchError>,
) -> bool {
    match q {
        Err(e) => r == Err::<TableFetchNext, FetchError>(e),
        Ok((data, used)) => r matches Ok(TableFetchNext::Done(t)) && t.table.header == header
            && t.table.data == data && t.header_json_url@ == header_json_url && t.header_raw@
            == header_raw && t.data_json_url@ == data_json_url && t.data_raw@ == used@,
    }
}

/// Takes the text fetched for `state` and decides what comes next.
///
/// The header is read with [`header_query_with_fallback`] and the chart data
/// with [`parse_json_str_with_fallback`], using the given parsers.
pub fn table_fetch_step<F: Fn(&str) -> Result<BmsTableHeader, String>, G: Fn(&str) -> Result<
    BmsTableData,
    String,
>>(state: TableFetchState, text: &str, parse_header: &F, parse_data: &G) -> (r: Result<
    TableFetchNext,
    FetchError,
>)
    requires
        forall|s: &str| #[trigger] parse_header.requires((s,)),
        forall|s: &str| #[trigger] parse_data.requires((s,)),
    ensures
        match state {
            TableFetchState::WebPage { web_url } => exists|q| #[trigger]
                fallback_outcome(*parse_header, text@, q) && after_web_page(web_url@, q, r),
            TableFetchState::HeaderJson { web_url, header_url, header_json_url } => exists|q| #[trigger]
                fallback_outcome(*parse_header, text@, q) && after_header_json(
                    web_url@,
                    header_url@,
                    header_json_url@,
                    q,
                    r,
                ),
            TableFetchState::DataJson { header_json_url, header, header_raw, data_json_url } => exists|q| #[trigger]
                json_fallback_outcome(*parse_data, text@, q) && after_data(
                    header_json_url@,
                    header,
                    header_raw@,
                    data_json_url@,
                    q,
                    r,
                ),
        },
{
    match state {
        TableFetchState::WebPage { web_url } => {
            let q = header_query_with_fallback(text, parse_header);
            let ghost gq = q;
            let r = match q {
                Err(e) => Err(e),
                Ok((HeaderQueryContent::Value(header), used)) => header_known(web_url, header, used),
                Ok((HeaderQueryContent::Url(s), _)) => match resolve_url(web_url.as_str(), s.as_str()) {
                    Ok(u) => {
                        let url = u.clone();
                        Ok(
                            TableFetchNext::Fetch {
                                url,
                                state: TableFetchState::HeaderJson {
                                    web_url: web_url.clone(),
                                    header_url: s,
                                    header_json_url: u,
                                },
                            },
                        )
                    },
                    Err(msg) => Err(FetchError::UrlResolve { field: "header_url", msg }),
                },
            };
            proof {
                reveal_strlit("header_url");
            }
            assert(fallback_outcome(*parse_header, text@, gq) && after_web_page(web_url@, gq, r));
            r
        },
        TableFetchState::HeaderJson { web_url, header_url, header_json_url } => {
            let q = header_query_with_fallback(text, parse_header);
            let ghost gq = q;
            let r = match q {
                Err(e) => Err(e),
                Ok((HeaderQueryContent::Value(header), used)) => header_known(header_json_url, header, used),
                Ok((HeaderQueryContent::Url(_), _)) => Err(FetchError::CyclicHeader { web_url, header_url }),
            };
            assert(fallback_outcome(*parse_header, text@, gq) && after_header_json(web_url@, header_url@, header_json_url@, gq, r));
            r
        },
        TableFetchState::DataJson { header_json_url, header, header_raw, data_json_url } => {
            let q = parse_json_str_with_fallback(text, parse_data);
            let ghost gq = q;
            let r = match q {
                Err(e) => Err(e),
                Ok((data, used)) => Ok(TableFetchNext::Done(FetchedTableText {
                    table: BmsTable { header, data },
                    header_json_url,
                    header_raw,
                    data_json_url,
                    data_raw: used,
                })),
            };
            assert(json_fallback_outcome(*parse_data, text@, gq) && after_data(header_json_url@, header, header_raw@, data_json_url@, gq, r));
            r
        },
    }
}

} // verus!
