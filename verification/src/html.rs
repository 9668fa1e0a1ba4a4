//! HTML pages, through the `scraper` crate: the elements that a CSS selector
//! picks out of a parsed document, each reduced to what the scraping logic
//! reads of it.

use vstd::prelude::*;

verus! {

/// What the scraping logic reads of one element of a page.
#[derive(Debug, PartialEq, Eq)]
pub struct PageElement {
    /// The element's `href` attribute, if it has one.
    pub href: Option<String>,
    /// The element's descendant text nodes, in tree order.
    pub texts: Vec<String>,
}

/// The view of a page element: its `href` and its text nodes.
pub open spec fn element_view(e: PageElement) -> (Option<Seq<char>>, Seq<Seq<char>>) {
    (
        match e.href {
            Some(h) => Some(h@),
            None => None,
        },
        e.texts@.map_values(|t: String| t@),
    )
}

/// The views of a sequence of page elements.
pub open spec fn elements_view(es: Seq<PageElement>) -> Seq<(Option<Seq<char>>, Seq<Seq<char>>)> {
    es.map_values(|e: PageElement| element_view(e))
}

/// What `scraper::Selector::parse` reports for `selector`: `None` when it
/// parses, otherwise the message (`Display`) of its error.
pub uninterp spec fn selector_error(selector: Seq<char>) -> Option<Seq<char>>;

/// Whether `scraper::Selector::parse` accepts `selector`.
pub open spec fn selector_parses(selector: Seq<char>) -> bool {
    selector_error(selector) is None
}

/// The elements of the document that `scraper::Html::parse_document` builds
/// from `html` which `selector` matches, in the order in which the parser
/// created them (the order of `scraper::Html::select`), each as its `href`
/// attribute and its descendant text nodes.
pub uninterp spec fn selected_elements(html: Seq<char>, selector: Seq<char>) -> Seq<
    (Option<Seq<char>>, Seq<Seq<char>>),
>;

/// `scraper::Selector::parse`: parses `selector`; the parsed selector is
/// dropped, an error is given as its message.
#[verifier::external_body]
pub(crate) fn selector_check(selector: &str) -> (r: Result<(), String>)
    ensures
        r is Ok <==> selector_error(selector@) is None,
        r matches Err(m) ==> selector_error(selector@) == Some(m@),
{
    scraper::Selector::parse(selector).map(|_| ()).map_err(|e| e.to_string())
}

/// `scraper::Html::select` on the document parsed from `html`: the matching
/// elements, each with its `href` attribute and its text nodes copied out.
#[verifier::external_body]
pub(crate) fn select_elements(html: &str, selector: &str) -> (r: Vec<PageElement>)
    requires
        selector_parses(selector@),
    ensures
        elements_view(r@) == selected_elements(html@, selector@),
{
    match scraper::Selector::parse(selector) {
        Ok(sel) => scraper::Html::parse_document(html).select(&sel).map(
            |el| PageElement {
                href: el.value().attr("href").map(|h| h.to_string()),
                texts: el.text().map(|t| t.to_string()).collect(),
            },
        ).collect(),
        Err(_) => Vec::new(),
    }
}

} // verus!
