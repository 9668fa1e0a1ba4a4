//! The errors of the scraping logic.

use vstd::prelude::*;
use vstd::string::*;

verus! {

/// Why a scraping step failed.
#[derive(Debug, PartialEq, Eq)]
pub enum ScrapeError {
    /// The downloader's book URL is not a 69shuba book URL; it carries the
    /// URL.
    InvalidBookUrl(String),
    /// The browser scraper's book URL is not a 69shuba book URL; it carries
    /// the URL.
    InvalidScraperUrl(String),
    /// A regular expression did not compile; it carries the error's message.
    InvalidPattern(String),
    /// A CSS selector did not parse; it carries the error's message.
    InvalidSelector(String),
    /// The browser service reported a failure; it carries the service's
    /// message, or "Unknown error" when it gave none.
    BrowserApi(String),
    /// The browser service's reply for a chapter page carried no HTML.
    MissingHtml,
    /// The browser service's reply for a book's index page carried no HTML.
    MissingIndexHtml,
    /// A page lists more chapter links than chapter numbers can count.
    TooManyLinks,
}


/// The view of a `ScrapeError`: the same failure, its texts as character
/// sequences.
pub enum ScrapeFailure {
    InvalidBookUrl(Seq<char>),
    InvalidScraperUrl(Seq<char>),
    InvalidPattern(Seq<char>),
    InvalidSelector(Seq<char>),
    BrowserApi(Seq<char>),
    MissingHtml,
    MissingIndexHtml,
    TooManyLinks,
}

impl View for ScrapeError {
    type V = ScrapeFailure;

    open spec fn view(&self) -> ScrapeFailure {
        match self {
            ScrapeError::InvalidBookUrl(u) => ScrapeFailure::InvalidBookUrl(u@),
            ScrapeError::InvalidScraperUrl(u) => ScrapeFailure::InvalidScraperUrl(u@),
            ScrapeError::InvalidPattern(m) => ScrapeFailure::InvalidPattern(m@),
            ScrapeError::InvalidSelector(m) => ScrapeFailure::InvalidSelector(m@),
            ScrapeError::BrowserApi(m) => ScrapeFailure::BrowserApi(m@),
            ScrapeError::MissingHtml => ScrapeFailure::MissingHtml,
            ScrapeError::MissingIndexHtml => ScrapeFailure::MissingIndexHtml,
            ScrapeError::TooManyLinks => ScrapeFailure::TooManyLinks,
        }
    }
}

/// The view of a textual result.
pub open spec fn text_result_view(r: Result<String, ScrapeError>) -> Result<Seq<char>, ScrapeFailure> {
    match r {
        Ok(s) => Ok(s@),
        Err(e) => Err(e@),
    }
}


/// The start of the message of a book URL that the downloader rejects.
pub const INVALID_URL_MESSAGE: &'static str = "Invalid 69shuba URL (how?): ";

/// The start of the message of a book URL that the browser scraper rejects.
pub const INVALID_SCRAPER_URL_MESSAGE: &'static str = "Invalid 69shuba URL: ";

/// The start of the message of a failure of the browser service.
pub const BROWSER_API_MESSAGE: &'static str = "Browser API failed: ";

/// The message of a chapter page reply without HTML.
pub const MISSING_HTML_MESSAGE: &'static str = "Missing html field";

/// The message of an index page reply without HTML.
pub const MISSING_INDEX_HTML_MESSAGE: &'static str = "Missing html field -> Internal Browser error";

/// The message of a page with more chapter links than numbers.
pub const TOO_MANY_LINKS_MESSAGE: &'static str = "too many chapter links";

/// The message that describes failure `f`.
pub open spec fn failure_message(f: ScrapeFailure) -> Seq<char> {
    match f {
        ScrapeFailure::InvalidBookUrl(u) => INVALID_URL_MESSAGE@ + u,
        ScrapeFailure::InvalidScraperUrl(u) => INVALID_SCRAPER_URL_MESSAGE@ + u,
        ScrapeFailure::InvalidPattern(m) => m,
        ScrapeFailure::InvalidSelector(m) => m,
        ScrapeFailure::BrowserApi(m) => BROWSER_API_MESSAGE@ + m,
        ScrapeFailure::MissingHtml => MISSING_HTML_MESSAGE@,
        ScrapeFailure::MissingIndexHtml => MISSING_INDEX_HTML_MESSAGE@,
        ScrapeFailure::TooManyLinks => TOO_MANY_LINKS_MESSAGE@,
    }
}

impl ScrapeError {
    /// The message that describes this error.
    pub fn message(&self) -> (r: String)
        ensures
            r@ == failure_message(self@),
    {
        match self {
            ScrapeError::InvalidBookUrl(u) => {
                let mut m = String::from_str(INVALID_URL_MESSAGE);
                m.append(u.as_str());
                m
            },
            ScrapeError::InvalidScraperUrl(u) => {
                let mut m = String::from_str(INVALID_SCRAPER_URL_MESSAGE);
                m.append(u.as_str());
                m
            },
            ScrapeError::InvalidPattern(m) => m.clone(),
            ScrapeError::InvalidSelector(m) => m.clone(),
            ScrapeError::BrowserApi(e) => {
                let mut m = String::from_str(BROWSER_API_MESSAGE);
                m.append(e.as_str());
                m
            },
            ScrapeError::MissingHtml => String::from_str(MISSING_HTML_MESSAGE),
            ScrapeError::MissingIndexHtml => String::from_str(MISSING_INDEX_HTML_MESSAGE),
            ScrapeError::TooManyLinks => String::from_str(TOO_MANY_LINKS_MESSAGE),
        }
    }
}

} // verus!
