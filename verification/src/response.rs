//! The browser service's HTTP interface: the request that asks it for a page
//! and the reply it gives.

use crate::error::{text_result_view, ScrapeError, ScrapeFailure};
use vstd::prelude::*;
use vstd::string::*;

verus! {

/// The browser service's reply to a fetch request.
#[derive(Debug, Clone, PartialEq, Eq)]
pub struct FetchResponse {
    pub success: bool,
    pub title: Option<String>,
    pub html: Option<String>,
    pub txtnav_text: Option<String>,
    pub error: Option<String>,
}

/// Whether the browser service should also extract the `.txtnav` text.
#[derive(Debug, Clone, Copy, PartialEq, Eq)]
pub enum TxtNavMode {
    Include,
    Exclude,
}

impl TxtNavMode {
    /// The `txtnav` flag of a fetch request in this mode.
    pub fn includes_txtnav(&self) -> (r: bool)
        ensures
            r == (*self == TxtNavMode::Include),
    {
        match self {
            TxtNavMode::Include => true,
            TxtNavMode::Exclude => false,
        }
    }
}

/// The body of a fetch request: the page to load and whether to extract
/// its `.txtnav` text.
#[derive(Debug, PartialEq, Eq)]
pub struct FetchRequest {
    pub url: String,
    pub txtnav: bool,
}

impl FetchRequest {
    /// The request for page `url` in mode `mode`.
    pub fn new(url: &str, mode: TxtNavMode) -> (r: FetchRequest)
        ensures
            r.url@ == url@,
            r.txtnav == (mode == TxtNavMode::Include),
    {
        FetchRequest { url: String::from_str(url), txtnav: mode.includes_txtnav() }
    }
}

/// The endpoint path that fetches pages.
pub const FETCH_ENDPOINT: &'static str = "/fetch";

/// The URL of `endpoint` on the service at `base`.
pub fn endpoint_url(base: &str, endpoint: &str) -> (r: String)
    ensures
        r@ == base@ + endpoint@,
{
    let mut r = String::from_str(base);
    r.append(endpoint);
    r
}

/// The message of a failed reply that gives none.
pub const UNKNOWN_ERROR: &'static str = "Unknown error";

/// What a reply gives: a failed reply its error message (or "Unknown
/// error"), a successful one its HTML, or `MissingHtml` when it has none.
pub open spec fn response_outcome(resp: FetchResponse) -> Result<Seq<char>, ScrapeFailure> {
    if !resp.success {
        Err(
            ScrapeFailure::BrowserApi(
                match resp.error {
                    Some(e) => e@,
                    None => UNKNOWN_ERROR@,
                },
            ),
        )
    } else {
        match resp.html {
            Some(h) => Ok(h@),
            None => Err(ScrapeFailure::MissingHtml),
        }
    }
}

/// The HTML of a reply of the browser service.
pub fn response_html(resp: &FetchResponse) -> (r: Result<String, ScrapeError>)
    ensures
        text_result_view(r) == response_outcome(*resp),
{
    if !resp.success {
        let message = match &resp.error {
            Some(e) => e.clone(),
            None => String::from_str(UNKNOWN_ERROR),
        };
        return Err(ScrapeError::BrowserApi(message));
    }
    match &resp.html {
        Some(h) => Ok(h.clone()),
        None => Err(ScrapeError::MissingHtml),
    }
}

} // verus!
