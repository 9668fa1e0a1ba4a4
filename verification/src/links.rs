//! Collecting the chapter links of a book's index page: the anchors before
//! the advertisement block whose target is a chapter URL of the book,
//! numbered from 1 in the order they were parsed and kept within the
//! requested range.

use crate::chapter_map::{
    chapter_entries, chapter_map_insert, chapter_map_new, has_key, key_slot, keys_distinct,
};
use crate::error::{ScrapeError, ScrapeFailure};
use crate::html::{
    element_view, elements_view, select_elements, selected_elements, selector_check,
    selector_error, selector_parses, PageElement,
};
use crate::pattern::{regex_accepts, regex_finds, regex_is_match};
use crate::response::{response_html, response_outcome, FetchResponse};
use crate::text::{chars_before, chars_of, string_of, text_before};
use crate::url::{book_id_outcome, chapter_pattern_outcome, create_chapter_regex, get_book_id};
use indexmap::IndexMap;
use vstd::prelude::*;
use vstd::string::*;

verus! {

/// Where the chapter list of an index page ends.
pub const CONTENT_ADV_MARKER: &'static str = "<div class=\"contentadv\">";

/// The selector of anchors.
pub const ANCHOR_SELECTOR: &'static str = "a";

/// The links numbered from 1 in order, as `(number, link)`.
pub open spec fn enumerated_links(links: Seq<Seq<char>>) -> Seq<(u32, Seq<char>)> {
    Seq::new(links.len(), |i: int| ((i + 1) as u32, links[i]))
}

/// The numbered links whose number lies in `start..=end`, in order.
pub open spec fn numbered_links(links: Seq<Seq<char>>, start: u32, end: u32) -> Seq<
    (u32, Seq<char>),
> {
    enumerated_links(links).filter(|e: (u32, Seq<char>)| start <= e.0 && e.0 <= end)
}

/// Numbers `links` from 1 in order and keeps those numbered within
/// `start..=end`.
pub fn number_links(links: &Vec<String>, start: u32, end: u32) -> (m: IndexMap<u32, String>)
    requires
        links.len() <= u32::MAX,
    ensures
        chapter_entries(m) == numbered_links(links@.map_values(|l: String| l@), start, end),
        keys_distinct(chapter_entries(m)),
{
    let ghost views = links@.map_values(|l: String| l@);
    let ghost keep = |e: (u32, Seq<char>)| start <= e.0 && e.0 <= end;
    let mut m = chapter_map_new();
    let mut i: usize = 0;
    assert(enumerated_links(views).take(0) =~= Seq::<(u32, Seq<char>)>::empty());
    while i < links.len()
        invariant
            links.len() <= u32::MAX,
            i <= links.len(),
            views == links@.map_values(|l: String| l@),
            keep == (|e: (u32, Seq<char>)| start <= e.0 && e.0 <= end),
            chapter_entries(m) == enumerated_links(views).take(i as int).filter(keep),
            forall|j: int|
                0 <= j < chapter_entries(m).len() ==> #[trigger] chapter_entries(m)[j].0 <= i,
        decreases links.len() - i,
    {
        reveal_with_fuel(Seq::<_>::filter, 1);
        let number = (i + 1) as u32;
        let ghost before = chapter_entries(m);
        assert(enumerated_links(views).take(i + 1).drop_last() =~= enumerated_links(views).take(
            i as int,
        ));
        assert(enumerated_links(views).take(i + 1).last() == (number, links@[i as int]@));
        if start <= number && number <= end {
            assert(!has_key(before, number)) by {
                if has_key(before, number) {
                    let k = choose|k: int| key_slot(before, number, k);
                    assert(before[k].0 <= i);
                }
            }
            chapter_map_insert(&mut m, number, links[i].clone());
        }
        i += 1;
    }
    assert(enumerated_links(views).take(links.len() as int) =~= enumerated_links(views));
    proof {
        lemma_numbered_links_distinct(views, start, end);
    }
    m
}


/// The `href` targets of `elems`, in order, that the regex of `pattern`
/// matches; elements without an `href` are passed over.
pub open spec fn matching_hrefs(
    elems: Seq<(Option<Seq<char>>, Seq<Seq<char>>)>,
    pattern: Seq<char>,
) -> Seq<Seq<char>>
    decreases elems.len(),
{
    if elems.len() == 0 {
        seq![]
    } else {
        let rest = matching_hrefs(elems.drop_last(), pattern);
        match elems.last().0 {
            Some(h) => if regex_finds(pattern, h) {
                rest.push(h)
            } else {
                rest
            },
            None => rest,
        }
    }
}

/// The `href` targets of `elems` that the regex of `pattern` matches.
pub fn chapter_hrefs(elems: &Vec<PageElement>, pattern: &str) -> (r: Vec<String>)
    requires
        regex_accepts(pattern@),
    ensures
        r@.map_values(|l: String| l@) == matching_hrefs(elements_view(elems@), pattern@),
{
    let mut r: Vec<String> = Vec::new();
    let mut i: usize = 0;
    while i < elems.len()
        invariant
            regex_accepts(pattern@),
            i <= elems.len(),
            r@.map_values(|l: String| l@) == matching_hrefs(
                elements_view(elems@).take(i as int),
                pattern@,
            ),
        decreases elems.len() - i,
    {
        let ghost before = r@;
        assert(elements_view(elems@).take(i + 1).drop_last() =~= elements_view(elems@).take(
            i as int,
        ));
        assert(elements_view(elems@).take(i + 1).last() == element_view(elems@[i as int]));
        match &elems[i].href {
            Some(h) => {
                if regex_is_match(pattern, h.as_str()) {
                    r.push(h.clone());
                    assert(r@.map_values(|l: String| l@) =~= before.map_values(|l: String| l@).push(
                        h@,
                    ));
                }
            },
            None => {},
        }
        i += 1;
    }
    assert(elements_view(elems@).take(elems.len() as int) =~= elements_view(elems@));
    r
}

/// What collecting the chapter links from index page `html` of the book at
/// `url` gives, keeping the chapters numbered within `start..=end`.
pub open spec fn links_outcome(html: Seq<char>, url: Seq<char>, start: u32, end: u32) -> Result<
    Seq<(u32, Seq<char>)>,
    ScrapeFailure,
> {
    if let Some(m) = selector_error(ANCHOR_SELECTOR@) {
        Err(ScrapeFailure::InvalidSelector(m))
    } else {
        match book_id_outcome(url) {
            Err(f) => Err(f),
            Ok(id) => match chapter_pattern_outcome(id) {
                Err(f) => Err(f),
                Ok(pattern) => {
                    let anchors = selected_elements(
                        text_before(html, CONTENT_ADV_MARKER@),
                        ANCHOR_SELECTOR@,
                    );
                    let hrefs = matching_hrefs(anchors, pattern);
                    if hrefs.len() > u32::MAX {
                        Err(ScrapeFailure::TooManyLinks)
                    } else {
                        Ok(numbered_links(hrefs, start, end))
                    }
                },
            },
        }
    }
}

/// The view of a result that holds a chapter map.
pub open spec fn map_result_view(r: Result<IndexMap<u32, String>, ScrapeError>) -> Result<
    Seq<(u32, Seq<char>)>,
    ScrapeFailure,
> {
    match r {
        Ok(m) => Ok(chapter_entries(m)),
        Err(e) => Err(e@),
    }
}

/// The chapter links of index page `html` of the book at `url`: the anchors
/// before the advertisement block whose `href` is a chapter URL of that
/// book, numbered from 1 in the order they were parsed, those numbered
/// within `start..=end`.
pub fn chapter_links_from_html(html: &str, url: &str, start: u32, end: u32) -> (r: Result<
    IndexMap<u32, String>,
    ScrapeError,
>)
    ensures
        map_result_view(r) == links_outcome(html@, url@, start, end),
        r matches Ok(m) ==> keys_distinct(chapter_entries(m)),
{
    let html_chars = chars_of(html);
    let marker = chars_of(CONTENT_ADV_MARKER);
    let truncated = string_of(&chars_before(&html_chars, &marker));
    if let Err(m) = selector_check(ANCHOR_SELECTOR) {
        return Err(ScrapeError::InvalidSelector(m));
    }
    let anchors = select_elements(truncated.as_str(), ANCHOR_SELECTOR);
    let book_id = match get_book_id(url) {
        Ok(id) => id,
        Err(e) => {
            return Err(e);
        },
    };
    let pattern = match create_chapter_regex(book_id.as_str()) {
        Ok(p) => p,
        Err(e) => {
            return Err(e);
        },
    };
    let hrefs = chapter_hrefs(&anchors, pattern.as_str());
    if hrefs.len() > 0xffff_ffffusize {
        return Err(ScrapeError::TooManyLinks);
    }
    Ok(number_links(&hrefs, start, end))
}

/// What collecting the chapter links from a reply of the browser service
/// gives.
pub open spec fn response_links_outcome(resp: FetchResponse, url: Seq<char>, start: u32, end: u32) -> Result<
    Seq<(u32, Seq<char>)>,
    ScrapeFailure,
> {
    match response_outcome(resp) {
        Err(ScrapeFailure::MissingHtml) => Err(ScrapeFailure::MissingIndexHtml),
        Err(f) => Err(f),
        Ok(html) => links_outcome(html, url, start, end),
    }
}

/// The chapter links of the index page that the browser service returned
/// for the book at `url`; a successful reply without HTML gives
/// `MissingIndexHtml`.
pub fn chapter_links_from_response(resp: &FetchResponse, url: &str, start: u32, end: u32) -> (r: Result<
    IndexMap<u32, String>,
    ScrapeError,
>)
    ensures
        map_result_view(r) == response_links_outcome(*resp, url@, start, end),
        r matches Ok(m) ==> keys_distinct(chapter_entries(m)),
{
    match response_html(resp) {
        Ok(html) => chapter_links_from_html(html.as_str(), url, start, end),
        Err(ScrapeError::MissingHtml) => Err(ScrapeError::MissingIndexHtml),
        Err(e) => Err(e),
    }
}


/// The position of the first link that `start` keeps.
pub open spec fn window_start(start: u32) -> int {
    if start >= 1 {
        start - 1
    } else {
        0
    }
}

/// The position after the last link that `end` keeps, among `len` links.
pub open spec fn window_end(len: int, end: u32) -> int {
    if end < len {
        end as int
    } else {
        len
    }
}

/// The links at positions `window_start(start)..window_end(len, end)`,
/// each numbered by its position plus one.
pub open spec fn link_window(links: Seq<Seq<char>>, start: u32, end: u32) -> Seq<(u32, Seq<char>)> {
    let lo = window_start(start);
    let hi = window_end(links.len() as int, end);
    if lo < hi {
        Seq::new((hi - lo) as nat, |k: int| ((lo + k + 1) as u32, links[lo + k]))
    } else {
        seq![]
    }
}

/// The chapters kept for `start..=end` are exactly the links numbered
/// `start` to `end` that exist, each under its number, in parsed order: a
/// contiguous run of the links.
pub proof fn lemma_numbered_links_window(links: Seq<Seq<char>>, start: u32, end: u32)
    requires
        links.len() <= u32::MAX,
    ensures
        numbered_links(links, start, end) == link_window(links, start, end),
    decreases links.len(),
{
    if links.len() == 0 {
        assert(enumerated_links(links) =~= Seq::<(u32, Seq<char>)>::empty());
        assert(link_window(links, start, end) =~= Seq::<(u32, Seq<char>)>::empty());
    } else {
        let shorter = links.drop_last();
        lemma_numbered_links_window(shorter, start, end);
        let l = links.len() as int;
        assert(enumerated_links(links).drop_last() =~= enumerated_links(shorter));
        assert(enumerated_links(links).last() == ((l as u32), links[l - 1]));
        reveal_with_fuel(Seq::<_>::filter, 1);
        assert(numbered_links(links, start, end) == if start <= l && l <= end {
            numbered_links(shorter, start, end).push(((l as u32), links[l - 1]))
        } else {
            numbered_links(shorter, start, end)
        });
        let lo = window_start(start);
        let hi = window_end(l, end);
        if start <= l && l <= end {
            assert(link_window(links, start, end) =~= link_window(shorter, start, end).push(
                ((l as u32), links[l - 1]),
            ));
        } else if l > end {
            assert(link_window(links, start, end) =~= link_window(shorter, start, end));
        } else {
            assert(link_window(links, start, end) =~= Seq::<(u32, Seq<char>)>::empty());
            assert(link_window(shorter, start, end) =~= Seq::<(u32, Seq<char>)>::empty());
        }
    }
}


/// The kept links carry distinct numbers.
pub proof fn lemma_numbered_links_distinct(links: Seq<Seq<char>>, start: u32, end: u32)
    requires
        links.len() <= u32::MAX,
    ensures
        keys_distinct(numbered_links(links, start, end)),
{
    lemma_numbered_links_window(links, start, end);
    let w = link_window(links, start, end);
    let lo = window_start(start);
    assert forall|i: int, j: int| 0 <= i < w.len() && 0 <= j < w.len() && i != j implies w[i].0
        != w[j].0 by {
        assert(w[i].0 == (lo + i + 1) as u32);
        assert(w[j].0 == (lo + j + 1) as u32);
    }
}


/// The chapter links of two runs of anchors one after the other are those
/// of the first run followed by those of the second.
pub proof fn lemma_matching_hrefs_concat(
    a: Seq<(Option<Seq<char>>, Seq<Seq<char>>)>,
    b: Seq<(Option<Seq<char>>, Seq<Seq<char>>)>,
    pattern: Seq<char>,
)
    ensures
        matching_hrefs(a + b, pattern) == matching_hrefs(a, pattern) + matching_hrefs(b, pattern),
    decreases b.len(),
{
    if b.len() == 0 {
        assert(a + b =~= a);
        assert(matching_hrefs(a, pattern) + matching_hrefs(b, pattern) =~= matching_hrefs(
            a,
            pattern,
        ));
    } else {
        lemma_matching_hrefs_concat(a, b.drop_last(), pattern);
        assert((a + b).drop_last() =~= a + b.drop_last());
        assert((a + b).last() == b.last());
        match b.last().0 {
            Some(h) => {
                if regex_finds(pattern, h) {
                    assert(matching_hrefs(a, pattern) + matching_hrefs(b, pattern) =~= (
                    matching_hrefs(a, pattern) + matching_hrefs(b.drop_last(), pattern)).push(h));
                }
            },
            None => {},
        }
    }
}

/// An anchor without a target, or whose target is not a chapter URL of the
/// book, put anywhere among the anchors, changes nothing of the chapter
/// links found.
pub proof fn lemma_other_anchor_ignored(
    elems: Seq<(Option<Seq<char>>, Seq<Seq<char>>)>,
    i: int,
    e: (Option<Seq<char>>, Seq<Seq<char>>),
    pattern: Seq<char>,
)
    requires
        0 <= i <= elems.len(),
        match e.0 {
            Some(h) => !regex_finds(pattern, h),
            None => true,
        },
    ensures
        matching_hrefs(elems.insert(i, e), pattern) == matching_hrefs(elems, pattern),
{
    let a = elems.take(i);
    let b = elems.skip(i);
    let one = seq![e];
    assert(elems.insert(i, e) =~= (a + one) + b);
    assert(elems =~= a + b);
    lemma_matching_hrefs_concat(a + one, b, pattern);
    lemma_matching_hrefs_concat(a, one, pattern);
    lemma_matching_hrefs_concat(a, b, pattern);
    assert(one.drop_last() =~= Seq::<(Option<Seq<char>>, Seq<Seq<char>>)>::empty());
    assert(matching_hrefs(one.drop_last(), pattern) == Seq::<Seq<char>>::empty());
    assert(one.last() == e);
    assert(matching_hrefs(one, pattern) =~= Seq::<Seq<char>>::empty());
    assert(matching_hrefs(a, pattern) + matching_hrefs(one, pattern) =~= matching_hrefs(
        a,
        pattern,
    ));
}

/// An anchor whose target is a chapter URL of the book, put anywhere among
/// the anchors, is found at its place among the chapter links.
pub proof fn lemma_chapter_anchor_found(
    elems: Seq<(Option<Seq<char>>, Seq<Seq<char>>)>,
    i: int,
    e: (Option<Seq<char>>, Seq<Seq<char>>),
    h: Seq<char>,
    pattern: Seq<char>,
)
    requires
        0 <= i <= elems.len(),
        e.0 == Some(h),
        regex_finds(pattern, h),
    ensures
        matching_hrefs(elems.insert(i, e), pattern) == matching_hrefs(elems.take(i), pattern)
            + seq![h] + matching_hrefs(elems.skip(i), pattern),
{
    let a = elems.take(i);
    let b = elems.skip(i);
    let one = seq![e];
    assert(elems.insert(i, e) =~= (a + one) + b);
    lemma_matching_hrefs_concat(a + one, b, pattern);
    lemma_matching_hrefs_concat(a, one, pattern);
    assert(one.drop_last() =~= Seq::<(Option<Seq<char>>, Seq<Seq<char>>)>::empty());
    assert(matching_hrefs(one.drop_last(), pattern) == Seq::<Seq<char>>::empty());
    assert(one.last() == e);
    assert(matching_hrefs(one, pattern) =~= seq![h]);
}

/// Every chapter link found is the target of one of the anchors, and the
/// chapter pattern matches it.
pub proof fn lemma_found_links_match(
    elems: Seq<(Option<Seq<char>>, Seq<Seq<char>>)>,
    pattern: Seq<char>,
)
    ensures
        forall|j: int|
            0 <= j < matching_hrefs(elems, pattern).len() ==> regex_finds(
                pattern,
                #[trigger] matching_hrefs(elems, pattern)[j],
            ) && exists|k: int|
                0 <= k < elems.len() && elems[k].0 == Some(matching_hrefs(elems, pattern)[j]),
    decreases elems.len(),
{
    if elems.len() > 0 {
        let rest = elems.drop_last();
        lemma_found_links_match(rest, pattern);
        assert forall|j: int| 0 <= j < matching_hrefs(elems, pattern).len() implies regex_finds(
            pattern,
            #[trigger] matching_hrefs(elems, pattern)[j],
        ) && exists|k: int|
            0 <= k < elems.len() && elems[k].0 == Some(matching_hrefs(elems, pattern)[j]) by {
            if j < matching_hrefs(rest, pattern).len() {
                assert(matching_hrefs(elems, pattern)[j] == matching_hrefs(rest, pattern)[j]);
                let k = choose|k: int|
                    0 <= k < rest.len() && rest[k].0 == Some(matching_hrefs(rest, pattern)[j]);
                assert(elems[k] == rest[k]);
            } else {
                assert(elems[elems.len() - 1] == elems.last());
            }
        }
    }
}

} // verus!
