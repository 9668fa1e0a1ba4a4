use indexmap::IndexMap;
use shuba_scraper::error::ScrapeError;
use shuba_scraper::links::{chapter_links_from_html, chapter_links_from_response, number_links};
use shuba_scraper::response::FetchResponse;

const BOOK: &str = "https://www.69shuba.com/book/123/";

fn index_page() -> String {
    let mut html = String::from("<html><body><ul>");
    for i in 1..=5 {
        html.push_str(&format!(
            "<li><a href=\"https://www.69shuba.com/txt/123/{}\">Chapter {}</a></li>",
            1000 + i,
            i
        ));
    }
    html.push_str("<li><a href=\"https://www.69shuba.com/txt/999/1\">other book</a></li>");
    html.push_str("<li><a>no target</a></li>");
    html.push_str("</ul><div class=\"contentadv\"></div>");
    html.push_str("<a href=\"https://www.69shuba.com/txt/123/2000\">after the list</a>");
    html.push_str("</body></html>");
    html
}

fn expected(range: std::ops::RangeInclusive<u32>) -> IndexMap<u32, String> {
    range
        .map(|i| (i, format!("https://www.69shuba.com/txt/123/{}", 1000 + i)))
        .collect()
}

#[test]
fn all_chapter_links_in_order() {
    let links = chapter_links_from_html(&index_page(), BOOK, 1, u32::MAX).unwrap();
    assert_eq!(links, expected(1..=5));
    let keys: Vec<u32> = links.keys().copied().collect();
    assert_eq!(keys, vec![1, 2, 3, 4, 5]);
}

#[test]
fn chapter_range_is_kept() {
    assert_eq!(chapter_links_from_html(&index_page(), BOOK, 2, 4).unwrap(), expected(2..=4));
    assert_eq!(chapter_links_from_html(&index_page(), BOOK, 0, 1).unwrap(), expected(1..=1));
    assert_eq!(chapter_links_from_html(&index_page(), BOOK, 4, 100).unwrap(), expected(4..=5));
    assert!(chapter_links_from_html(&index_page(), BOOK, 6, 9).unwrap().is_empty());
    assert!(chapter_links_from_html(&index_page(), BOOK, 3, 2).unwrap().is_empty());
}

#[test]
fn links_need_a_book_url() {
    assert_eq!(
        chapter_links_from_html(&index_page(), "https://example.com/", 1, 10),
        Err(ScrapeError::InvalidBookUrl("https://example.com/".to_string()))
    );
}

#[test]
fn numbering_of_links() {
    let links: Vec<String> = ["a", "b", "c", "d"].iter().map(|s| s.to_string()).collect();
    let m = number_links(&links, 2, 3);
    let entries: Vec<(u32, String)> = m.into_iter().collect();
    assert_eq!(entries, vec![(2, "b".to_string()), (3, "c".to_string())]);
    assert!(number_links(&Vec::new(), 1, 10).is_empty());
}

#[test]
fn links_from_replies() {
    let ok = FetchResponse {
        success: true,
        title: None,
        html: Some(index_page()),
        txtnav_text: None,
        error: None,
    };
    assert_eq!(chapter_links_from_response(&ok, BOOK, 1, 2).unwrap(), expected(1..=2));
    let failed = FetchResponse { success: false, error: Some("timeout".to_string()), ..ok.clone() };
    assert_eq!(
        chapter_links_from_response(&failed, BOOK, 1, 2),
        Err(ScrapeError::BrowserApi("timeout".to_string()))
    );
    let no_html = FetchResponse { html: None, ..ok.clone() };
    assert_eq!(
        chapter_links_from_response(&no_html, BOOK, 1, 2),
        Err(ScrapeError::MissingIndexHtml)
    );
    assert_eq!(
        ScrapeError::MissingIndexHtml.message(),
        "Missing html field -> Internal Browser error"
    );
}
