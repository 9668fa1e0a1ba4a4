//! Turning a chapter page into the saved chapter text: the title, a blank
//! line, then the chapter's lines without the page furniture around them.

use crate::error::{text_result_view, ScrapeError, ScrapeFailure};
use crate::html::{
    elements_view, select_elements, selected_elements, selector_check, selector_error, PageElement,
};
use crate::response::{response_html, response_outcome, FetchResponse};
use crate::text::{
    chars_of, contains_chars, contains_text, extend_chars, join_rows, joined, lines_of, rows_view,
    string_of, text_lines, trim_chars, trimmed,
};
use vstd::prelude::*;

verus! {

/// The selector of the chapter title.
pub const TITLE_SELECTOR: &'static str = ".txtnav h1";

/// The selector of the chapter body.
pub const CONTENT_SELECTOR: &'static str = ".txtnav";

/// Text nodes that hold these are scripts, not chapter text.
pub const NOISE_MARKERS: [&'static str; 6] = [
    "loadAdv",
    "window.",
    "_taboola",
    "tb_loader_script",
    "performance.mark",
    "flush: true",
];

/// A trimmed text node that is dropped: empty, or holding a script marker.
pub open spec fn is_noise(t: Seq<char>) -> bool {
    ||| t.len() == 0
    ||| contains_text(t, NOISE_MARKERS[0]@)
    ||| contains_text(t, NOISE_MARKERS[1]@)
    ||| contains_text(t, NOISE_MARKERS[2]@)
    ||| contains_text(t, NOISE_MARKERS[3]@)
    ||| contains_text(t, NOISE_MARKERS[4]@)
    ||| contains_text(t, NOISE_MARKERS[5]@)
}

/// The text nodes of the chapter body, trimmed, without the dropped ones.
pub open spec fn kept_texts(texts: Seq<Seq<char>>) -> Seq<Seq<char>> {
    texts.map_values(|t: Seq<char>| trimmed(t)).filter(|t: Seq<char>| !is_noise(t))
}

/// The lines that remain of a chapter body of `lines`: the first four and
/// the last two go, and a body of fewer than seven lines leaves none.
pub open spec fn body_lines(lines: Seq<Seq<char>>) -> Seq<Seq<char>> {
    if lines.len() >= 6 {
        lines.subrange(4, lines.len() - 2)
    } else {
        seq![]
    }
}

/// The chapter title: the text of the first title element, or nothing.
pub open spec fn title_text(title_elems: Seq<(Option<Seq<char>>, Seq<Seq<char>>)>) -> Seq<char> {
    if title_elems.len() > 0 {
        joined(title_elems[0].1, seq![])
    } else {
        seq![]
    }
}

/// The chapter body: the kept text nodes of the first body element, one per
/// line, or nothing.
pub open spec fn content_text(content_elems: Seq<(Option<Seq<char>>, Seq<Seq<char>>)>) -> Seq<
    char,
> {
    if content_elems.len() > 0 {
        joined(kept_texts(content_elems[0].1), seq!['\n'])
    } else {
        seq![]
    }
}

/// The saved chapter: title, a blank line, and the remaining body lines.
pub open spec fn chapter_text(
    title_elems: Seq<(Option<Seq<char>>, Seq<Seq<char>>)>,
    content_elems: Seq<(Option<Seq<char>>, Seq<Seq<char>>)>,
) -> Seq<char> {
    title_text(title_elems) + seq!['\n', '\n'] + joined(
        body_lines(text_lines(content_text(content_elems))),
        seq!['\n'],
    )
}

fn rows_of(texts: &Vec<String>) -> (r: Vec<Vec<char>>)
    ensures
        rows_view(r@) == texts@.map_values(|t: String| t@),
{
    let mut r: Vec<Vec<char>> = Vec::new();
    let mut i: usize = 0;
    while i < texts.len()
        invariant
            i <= texts.len(),
            rows_view(r@) == texts@.take(i as int).map_values(|t: String| t@),
        decreases texts.len() - i,
    {
        let row = chars_of(texts[i].as_str());
        let ghost before = r@;
        let ghost rv = row@;
        r.push(row);
        assert(rows_view(r@) =~= rows_view(before).push(rv));
        assert(texts@.take(i + 1).map_values(|t: String| t@) =~= texts@.take(i as int).map_values(
            |t: String| t@,
        ).push(rv));
        i += 1;
    }
    assert(texts@.take(texts.len() as int) =~= texts@);
    r
}

fn is_noise_exec(t: &Vec<char>, markers: &Vec<Vec<char>>) -> (r: bool)
    requires
        markers.len() == 6,
        forall|k: int| 0 <= k < 6 ==> #[trigger] markers@[k]@ == NOISE_MARKERS[k]@,
    ensures
        r == is_noise(t@),
{
    if t.len() == 0 {
        return true;
    }
    let mut k: usize = 0;
    while k < 6
        invariant
            markers.len() == 6,
            forall|k: int| 0 <= k < 6 ==> #[trigger] markers@[k]@ == NOISE_MARKERS[k]@,
            t.len() > 0,
            k <= 6,
            forall|j: int| 0 <= j < k ==> !contains_text(t@, #[trigger] NOISE_MARKERS[j]@),
        decreases 6 - k,
    {
        if contains_chars(t, &markers[k]) {
            return true;
        }
        k += 1;
    }
    assert(!contains_text(t@, NOISE_MARKERS[0]@));
    assert(!contains_text(t@, NOISE_MARKERS[1]@));
    assert(!contains_text(t@, NOISE_MARKERS[2]@));
    assert(!contains_text(t@, NOISE_MARKERS[3]@));
    assert(!contains_text(t@, NOISE_MARKERS[4]@));
    assert(!contains_text(t@, NOISE_MARKERS[5]@));
    false
}

/// The trimmed text nodes of a chapter body, without the dropped ones.
fn keep_texts(texts: &Vec<Vec<char>>) -> (r: Vec<Vec<char>>)
    ensures
        rows_view(r@) == kept_texts(rows_view(texts@)),
{
    let mut markers: Vec<Vec<char>> = Vec::new();
    let mut k: usize = 0;
    while k < 6
        invariant
            k <= 6,
            markers.len() == k,
            forall|j: int| 0 <= j < k ==> #[trigger] markers@[j]@ == NOISE_MARKERS[j]@,
        decreases 6 - k,
    {
        markers.push(chars_of(NOISE_MARKERS[k]));
        k += 1;
    }
    let ghost trims = rows_view(texts@).map_values(|t: Seq<char>| trimmed(t));
    let ghost keep = |t: Seq<char>| !is_noise(t);
    let mut r: Vec<Vec<char>> = Vec::new();
    let mut i: usize = 0;
    assert(trims.take(0) =~= Seq::<Seq<char>>::empty());
    while i < texts.len()
        invariant
            i <= texts.len(),
            markers.len() == 6,
            forall|j: int| 0 <= j < 6 ==> #[trigger] markers@[j]@ == NOISE_MARKERS[j]@,
            trims == rows_view(texts@).map_values(|t: Seq<char>| trimmed(t)),
            keep == (|t: Seq<char>| !is_noise(t)),
            rows_view(r@) == trims.take(i as int).filter(keep),
        decreases texts.len() - i,
    {
        reveal_with_fuel(Seq::<_>::filter, 1);
        assert(trims.take(i + 1).drop_last() =~= trims.take(i as int));
        let t = trim_chars(&texts[i]);
        assert(trims.take(i + 1).last() == t@);
        if !is_noise_exec(&t, &markers) {
            let ghost before = r@;
            let ghost tv = t@;
            r.push(t);
            assert(rows_view(r@) =~= rows_view(before).push(tv));
        }
        i += 1;
    }
    assert(trims.take(texts.len() as int) =~= trims);
    r
}

/// The lines of `lines` that `body_lines` keeps.
fn body_rows(lines: Vec<Vec<char>>) -> (r: Vec<Vec<char>>)
    ensures
        rows_view(r@) == body_lines(rows_view(lines@)),
{
    let n = lines.len();
    let mut r: Vec<Vec<char>> = Vec::new();
    if n < 6 {
        assert(rows_view(r@) =~= Seq::<Seq<char>>::empty());
        return r;
    }
    let mut i: usize = 4;
    while i < n - 2
        invariant
            n == lines.len(),
            n >= 6,
            4 <= i <= n - 2,
            rows_view(r@) == rows_view(lines@).subrange(4, i as int),
        decreases n - 2 - i,
    {
        let ghost before = r@;
        let mut row: Vec<char> = Vec::new();
        extend_chars(&mut row, &lines[i]);
        let ghost rv = row@;
        r.push(row);
        assert(rows_view(r@) =~= rows_view(before).push(rv));
        assert(rows_view(lines@).subrange(4, i + 1) =~= rows_view(lines@).subrange(
            4,
            i as int,
        ).push(rv));
        i += 1;
    }
    r
}

/// What turning chapter page `html` into the saved chapter gives.
pub open spec fn chapter_outcome(html: Seq<char>) -> Result<Seq<char>, ScrapeFailure> {
    if let Some(m) = selector_error(TITLE_SELECTOR@) {
        Err(ScrapeFailure::InvalidSelector(m))
    } else if let Some(m) = selector_error(CONTENT_SELECTOR@) {
        Err(ScrapeFailure::InvalidSelector(m))
    } else {
        Ok(
            chapter_text(
                selected_elements(html, TITLE_SELECTOR@),
                selected_elements(html, CONTENT_SELECTOR@),
            ),
        )
    }
}

/// The saved text of chapter page `html`: its title, a blank line, then the
/// lines of its body without the first four and the last two.
pub fn chapter_from_html(html: &str) -> (r: Result<String, ScrapeError>)
    ensures
        text_result_view(r) == chapter_outcome(html@),
{
    if let Err(m) = selector_check(TITLE_SELECTOR) {
        return Err(ScrapeError::InvalidSelector(m));
    }
    if let Err(m) = selector_check(CONTENT_SELECTOR) {
        return Err(ScrapeError::InvalidSelector(m));
    }
    let titles = select_elements(html, TITLE_SELECTOR);
    let contents = select_elements(html, CONTENT_SELECTOR);
    Ok(chapter_from_elements(&titles, &contents))
}

/// The saved chapter, from the title elements and the body elements of its
/// page: the first title's text, a blank line, then the first body's kept
/// text nodes, one per line, without the first four lines and the last two.
pub fn chapter_from_elements(titles: &Vec<PageElement>, contents: &Vec<PageElement>) -> (r: String)
    ensures
        r@ == chapter_text(elements_view(titles@), elements_view(contents@)),
{
    let ghost title_view = elements_view(titles@);
    let ghost content_view = elements_view(contents@);
    let mut out: Vec<char> = Vec::new();
    if titles.len() > 0 {
        let parts = rows_of(&titles[0].texts);
        let empty: Vec<char> = Vec::new();
        out = join_rows(&parts, &empty);
        assert(empty@ =~= Seq::<char>::empty());
    }
    assert(out@ == title_text(title_view));
    out.push('\n');
    out.push('\n');
    let newline: Vec<char> = vec!['\n'];
    assert(newline@ =~= seq!['\n']);
    let mut content: Vec<char> = Vec::new();
    if contents.len() > 0 {
        let parts = rows_of(&contents[0].texts);
        let kept = keep_texts(&parts);
        content = join_rows(&kept, &newline);
    }
    assert(content@ == content_text(content_view));
    let lines = lines_of(&content);
    let body = body_rows(lines);
    let cleaned = join_rows(&body, &newline);
    extend_chars(&mut out, &cleaned);
    assert(out@ =~= chapter_text(title_view, content_view));
    string_of(&out)
}

/// What turning the browser service's reply for a chapter page into the
/// saved chapter gives.
pub open spec fn response_chapter_outcome(resp: FetchResponse) -> Result<Seq<char>, ScrapeFailure> {
    match response_outcome(resp) {
        Err(f) => Err(f),
        Ok(html) => chapter_outcome(html),
    }
}

/// The saved text of the chapter page that the browser service returned.
pub fn chapter_from_response(resp: &FetchResponse) -> (r: Result<String, ScrapeError>)
    ensures
        text_result_view(r) == response_chapter_outcome(*resp),
{
    match response_html(resp) {
        Ok(html) => chapter_from_html(html.as_str()),
        Err(e) => Err(e),
    }
}


/// A text node that trims to noise, put anywhere among a body's text nodes,
/// leaves the kept text nodes as they were.
pub proof fn lemma_noise_text_ignored(texts: Seq<Seq<char>>, i: int, t: Seq<char>)
    requires
        0 <= i <= texts.len(),
        is_noise(trimmed(t)),
    ensures
        kept_texts(texts.insert(i, t)) == kept_texts(texts),
{
    let f = |x: Seq<char>| trimmed(x);
    let keep = |x: Seq<char>| !is_noise(x);
    let a = texts.take(i).map_values(f);
    let b = texts.skip(i).map_values(f);
    let one = seq![trimmed(t)];
    assert(texts.insert(i, t).map_values(f) =~= (a + one) + b);
    assert(texts.map_values(f) =~= a + b);
    Seq::filter_distributes_over_add(a + one, b, keep);
    Seq::filter_distributes_over_add(a, one, keep);
    Seq::filter_distributes_over_add(a, b, keep);
    reveal_with_fuel(Seq::<_>::filter, 2);
    assert(one.drop_last() =~= Seq::<Seq<char>>::empty());
    assert(one.filter(keep) =~= Seq::<Seq<char>>::empty());
    assert(a.filter(keep) + one.filter(keep) =~= a.filter(keep));
}

/// Adding to the chapter body a text node that is blank or a script leaves
/// the saved chapter as it was.
pub proof fn lemma_noise_node_ignored(
    titles: Seq<(Option<Seq<char>>, Seq<Seq<char>>)>,
    contents: Seq<(Option<Seq<char>>, Seq<Seq<char>>)>,
    i: int,
    t: Seq<char>,
)
    requires
        contents.len() > 0,
        0 <= i <= contents[0].1.len(),
        is_noise(trimmed(t)),
    ensures
        chapter_text(titles, contents.update(0, (contents[0].0, contents[0].1.insert(i, t))))
            == chapter_text(titles, contents),
{
    lemma_noise_text_ignored(contents[0].1, i, t);
}


/// Every kept text node of a chapter body is non-empty and holds none of
/// the six script markers anywhere.
pub proof fn lemma_kept_texts_hold_no_marker(texts: Seq<Seq<char>>)
    ensures
        forall|j: int|
            0 <= j < kept_texts(texts).len() ==> {
                &&& #[trigger] kept_texts(texts)[j].len() > 0
                &&& forall|k: int|
                    0 <= k < 6 ==> !contains_text(kept_texts(texts)[j], #[trigger] NOISE_MARKERS[k]@)
            },
{
    let keep = |t: Seq<char>| !is_noise(t);
    let trims = texts.map_values(|t: Seq<char>| trimmed(t));
    assert forall|j: int| 0 <= j < kept_texts(texts).len() implies {
        &&& #[trigger] kept_texts(texts)[j].len() > 0
        &&& forall|k: int|
            0 <= k < 6 ==> !contains_text(kept_texts(texts)[j], #[trigger] NOISE_MARKERS[k]@)
    } by {
        let t = kept_texts(texts)[j];
        trims.lemma_filter_pred(keep, j);
        assert(keep(t));
        assert forall|k: int| 0 <= k < 6 implies !contains_text(t, #[trigger] NOISE_MARKERS[k]@) by {
            if k == 0 {
            } else if k == 1 {
            } else if k == 2 {
            } else if k == 3 {
            } else if k == 4 {
            } else {
            }
        }
    }
}

/// A trimmed text that holds one of the six markers is noise.
proof fn lemma_marker_is_noise(t: Seq<char>, k: int)
    requires
        0 <= k < 6,
        contains_text(t, NOISE_MARKERS[k]@),
    ensures
        is_noise(t),
{
    if k == 0 {
    } else if k == 1 {
    } else if k == 2 {
    } else if k == 3 {
    } else if k == 4 {
    } else {
    }
}

/// A text node whose trimmed text holds one of the six markers at any
/// position, put anywhere among a body's text nodes, changes nothing of what
/// is kept.
pub proof fn lemma_marker_text_dropped(texts: Seq<Seq<char>>, i: int, t: Seq<char>, k: int)
    requires
        0 <= i <= texts.len(),
        0 <= k < 6,
        contains_text(trimmed(t), NOISE_MARKERS[k]@),
    ensures
        kept_texts(texts.insert(i, t)) == kept_texts(texts),
{
    lemma_marker_is_noise(trimmed(t), k);
    lemma_noise_text_ignored(texts, i, t);
}

/// A text node that is blank once trimmed, put anywhere among a body's text
/// nodes, changes nothing of what is kept.
pub proof fn lemma_blank_text_dropped(texts: Seq<Seq<char>>, i: int, t: Seq<char>)
    requires
        0 <= i <= texts.len(),
        trimmed(t).len() == 0,
    ensures
        kept_texts(texts.insert(i, t)) == kept_texts(texts),
{
    lemma_noise_text_ignored(texts, i, t);
}

/// A text node whose trimmed text is not blank and holds none of the six
/// markers is kept, trimmed, after those before it.
pub proof fn lemma_clean_text_kept(texts: Seq<Seq<char>>, t: Seq<char>)
    requires
        trimmed(t).len() > 0,
        forall|k: int| 0 <= k < 6 ==> !contains_text(trimmed(t), #[trigger] NOISE_MARKERS[k]@),
    ensures
        kept_texts(texts.push(t)) == kept_texts(texts).push(trimmed(t)),
{
    let f = |x: Seq<char>| trimmed(x);
    assert(texts.push(t).map_values(f) =~= texts.map_values(f).push(trimmed(t)));
    assert(!contains_text(trimmed(t), NOISE_MARKERS[0]@));
    assert(!contains_text(trimmed(t), NOISE_MARKERS[1]@));
    assert(!contains_text(trimmed(t), NOISE_MARKERS[2]@));
    assert(!contains_text(trimmed(t), NOISE_MARKERS[3]@));
    assert(!contains_text(trimmed(t), NOISE_MARKERS[4]@));
    assert(!contains_text(trimmed(t), NOISE_MARKERS[5]@));
    assert(!is_noise(trimmed(t)));
    reveal_with_fuel(Seq::<_>::filter, 1);
    assert(texts.map_values(f).push(trimmed(t)).drop_last() =~= texts.map_values(f));
}

/// The chapter body is read from the first body element alone: pages whose
/// first body elements hold the same text nodes give the same chapter,
/// whatever else they hold.
pub proof fn lemma_chapter_reads_first_body(
    titles: Seq<(Option<Seq<char>>, Seq<Seq<char>>)>,
    c1: Seq<(Option<Seq<char>>, Seq<Seq<char>>)>,
    c2: Seq<(Option<Seq<char>>, Seq<Seq<char>>)>,
)
    requires
        c1.len() > 0,
        c2.len() > 0,
        c1[0].1 == c2[0].1,
    ensures
        chapter_text(titles, c1) == chapter_text(titles, c2),
{
}

/// What a chapter page gives depends only on the elements that the title
/// selector `.txtnav h1` and the body selector `.txtnav` pick out of it:
/// text outside them never changes the result.
pub proof fn lemma_chapter_depends_on_txtnav_only(h1: Seq<char>, h2: Seq<char>)
    requires
        selected_elements(h1, ".txtnav h1"@) == selected_elements(h2, ".txtnav h1"@),
        selected_elements(h1, ".txtnav"@) == selected_elements(h2, ".txtnav"@),
    ensures
        chapter_outcome(h1) == chapter_outcome(h2),
{
    assert(TITLE_SELECTOR@ == ".txtnav h1"@);
    assert(CONTENT_SELECTOR@ == ".txtnav"@);
}

/// Two chapter pages whose titles select alike and whose first `.txtnav`
/// elements hold the same text nodes give the same chapter, once the
/// selectors parse.
pub proof fn lemma_chapter_from_first_txtnav(h1: Seq<char>, h2: Seq<char>)
    requires
        selector_error(".txtnav h1"@) is None,
        selector_error(".txtnav"@) is None,
        selected_elements(h1, ".txtnav h1"@) == selected_elements(h2, ".txtnav h1"@),
        selected_elements(h1, ".txtnav"@).len() > 0,
        selected_elements(h2, ".txtnav"@).len() > 0,
        selected_elements(h1, ".txtnav"@)[0].1 == selected_elements(h2, ".txtnav"@)[0].1,
    ensures
        chapter_outcome(h1) == chapter_outcome(h2),
        chapter_outcome(h1) is Ok,
{
    assert(TITLE_SELECTOR@ == ".txtnav h1"@);
    assert(CONTENT_SELECTOR@ == ".txtnav"@);
    lemma_chapter_reads_first_body(
        selected_elements(h1, ".txtnav h1"@),
        selected_elements(h1, ".txtnav"@),
        selected_elements(h2, ".txtnav"@),
    );
}

} // verus!
