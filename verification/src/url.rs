//! Recognising 69shuba book URLs and building the patterns that chapter URLs
//! of a book match.

use crate::error::{text_result_view, ScrapeError, ScrapeFailure};
use crate::pattern::{
    regex_accepts, regex_capture_groups, regex_compile_error, regex_captures, regex_check, regex_escape, regex_escaped,
    regex_finds, regex_is_match,
};
use vstd::prelude::*;
use vstd::string::*;

verus! {

/// A book URL, with the book's id as group 1; the trailing slash is optional.
pub const BOOK_URL_PATTERN: &'static str = "^https?://(?:www\\.)?69shuba\\.com/book/(\\d+)/?$";

/// The book URL form that the command line accepts: the trailing slash is
/// required.
pub const SHUBA_URL_PATTERN: &'static str = "^https?://(?:www\\.)?69shuba\\.com/book/\\d+/$";

/// The book id among captured groups: group 1, when the pattern matched and
/// that group took part.
pub open spec fn captured_book_id(groups: Option<Seq<Option<Seq<char>>>>) -> Option<Seq<char>> {
    match groups {
        Some(g) => if g.len() > 1 {
            g[1]
        } else {
            None
        },
        None => None,
    }
}

/// What looking up the book id of `url` gives.
pub open spec fn book_id_outcome(url: Seq<char>) -> Result<Seq<char>, ScrapeFailure> {
    if let Some(m) = regex_compile_error(BOOK_URL_PATTERN@) {
        Err(ScrapeFailure::InvalidPattern(m))
    } else {
        match captured_book_id(regex_capture_groups(BOOK_URL_PATTERN@, url)) {
            Some(id) => Ok(id),
            None => Err(ScrapeFailure::InvalidBookUrl(url)),
        }
    }
}

/// The view of captured groups.
pub open spec fn groups_view(groups: Option<Vec<Option<String>>>) -> Option<Seq<Option<Seq<char>>>> {
    groups.deep_view()
}

/// Group 1 of captured groups, when the pattern matched and that group took
/// part.
fn group_one(groups: Option<Vec<Option<String>>>) -> (r: Option<String>)
    ensures
        match r {
            Some(id) => captured_book_id(groups_view(groups)) == Some(id@),
            None => captured_book_id(groups_view(groups)) is None,
        },
{
    match groups {
        Some(g) => {
            if g.len() > 1 {
                match &g[1] {
                    Some(id) => Some(id.clone()),
                    None => None,
                }
            } else {
                None
            }
        },
        None => None,
    }
}

/// The book id that the groups captured in `url` give: group 1, or
/// `InvalidBookUrl` when the URL did not match or the group is missing.
pub fn book_id_from_captures(url: &str, groups: Option<Vec<Option<String>>>) -> (res: Result<
    String,
    ScrapeError,
>)
    ensures
        text_result_view(res) == match captured_book_id(groups_view(groups)) {
            Some(id) => Ok(id),
            None => Err(ScrapeFailure::InvalidBookUrl(url@)),
        },
{
    match group_one(groups) {
        Some(id) => Ok(id),
        None => Err(ScrapeError::InvalidBookUrl(String::from_str(url))),
    }
}

/// The id of the book that `url` names: the digits that the book URL
/// pattern captures.
pub fn get_book_id(url: &str) -> (res: Result<String, ScrapeError>)
    ensures
        text_result_view(res) == book_id_outcome(url@),
{
    if let Err(m) = regex_check(BOOK_URL_PATTERN) {
        return Err(ScrapeError::InvalidPattern(m));
    }
    book_id_from_captures(url, regex_captures(BOOK_URL_PATTERN, url))
}

/// The book URL pattern of the browser scraper, with the book's id as group
/// 1; the trailing slash is optional.
pub const SCRAPER_BOOK_URL_PATTERN: &'static str = "^https?://(?:www\\.)?69shuba\\.com/book/(\\d+)(?:/)?$";

/// What the browser scraper's lookup of the book id of `url` gives.
pub open spec fn scraper_book_id_outcome(url: Seq<char>) -> Result<Seq<char>, ScrapeFailure> {
    if let Some(m) = regex_compile_error(SCRAPER_BOOK_URL_PATTERN@) {
        Err(ScrapeFailure::InvalidPattern(m))
    } else {
        match captured_book_id(regex_capture_groups(SCRAPER_BOOK_URL_PATTERN@, url)) {
            Some(id) => Ok(id),
            None => Err(ScrapeFailure::InvalidScraperUrl(url)),
        }
    }
}

/// The id of the book that `url` names, as the browser scraper reads it:
/// the digits that its book URL pattern captures.
pub fn scraper_book_id(url: &str) -> (res: Result<String, ScrapeError>)
    ensures
        text_result_view(res) == scraper_book_id_outcome(url@),
{
    if let Err(m) = regex_check(SCRAPER_BOOK_URL_PATTERN) {
        return Err(ScrapeError::InvalidPattern(m));
    }
    match group_one(regex_captures(SCRAPER_BOOK_URL_PATTERN, url)) {
        Some(id) => Ok(id),
        None => Err(ScrapeError::InvalidScraperUrl(String::from_str(url))),
    }
}

/// The message that rejects a URL of the wrong form.
pub const SHUBA_URL_HINT: &'static str = "URL must look like: https://www.69shuba.com/book/12345/";

/// Accepts `value` as the novel URL of the command line when it has the form
/// `https://www.69shuba.com/book/<digits>/`, giving it back; otherwise gives
/// the message to show.
pub fn validate_shuba_url(value: &str) -> (res: Result<String, String>)
    ensures
        regex_compile_error(SHUBA_URL_PATTERN@) matches Some(m) ==> (res matches Err(e) && e@ == m),
        regex_accepts(SHUBA_URL_PATTERN@) && regex_finds(SHUBA_URL_PATTERN@, value@) ==> (res matches Ok(
            v,
        ) && v@ == value@),
        regex_accepts(SHUBA_URL_PATTERN@) && !regex_finds(SHUBA_URL_PATTERN@, value@) ==> (res matches Err(
            m,
        ) && m@ == SHUBA_URL_HINT@),
{
    match regex_check(SHUBA_URL_PATTERN) {
        Err(m) => {
            return Err(m);
        },
        Ok(()) => {},
    }
    if regex_is_match(SHUBA_URL_PATTERN, value) {
        Ok(String::from_str(value))
    } else {
        Err(String::from_str(SHUBA_URL_HINT))
    }
}

/// The start of every chapter URL pattern.
pub const CHAPTER_URL_PREFIX: &'static str = "^https://www\\.69shuba\\.com/txt/";

/// The end of every chapter URL pattern: a chapter number.
pub const CHAPTER_URL_SUFFIX: &'static str = "/\\d+$";

/// The pattern of the chapter URLs of the book with id `book_id`; the id is
/// escaped, so that it stands for itself.
pub open spec fn chapter_url_pattern(book_id: Seq<char>) -> Seq<char> {
    CHAPTER_URL_PREFIX@ + regex_escaped(book_id) + CHAPTER_URL_SUFFIX@
}

/// What building the chapter URL pattern of book `book_id` gives.
pub open spec fn chapter_pattern_outcome(book_id: Seq<char>) -> Result<Seq<char>, ScrapeFailure> {
    match regex_compile_error(chapter_url_pattern(book_id)) {
        None => Ok(chapter_url_pattern(book_id)),
        Some(m) => Err(ScrapeFailure::InvalidPattern(m)),
    }
}

/// The pattern that the chapter URLs of book `book_id` match, once it is
/// known to compile.
pub fn create_chapter_regex(book_id: &str) -> (res: Result<String, ScrapeError>)
    ensures
        text_result_view(res) == chapter_pattern_outcome(book_id@),
{
    let mut pattern = String::from_str(CHAPTER_URL_PREFIX);
    let escaped = regex_escape(book_id);
    pattern.append(escaped.as_str());
    pattern.append(CHAPTER_URL_SUFFIX);
    assert(pattern@ =~= chapter_url_pattern(book_id@));
    match regex_check(pattern.as_str()) {
        Ok(()) => Ok(pattern),
        Err(m) => Err(ScrapeError::InvalidPattern(m)),
    }
}

} // verus!
