use scraper::{Html, Selector};
use shuba_scraper::chapter::{chapter_from_elements, chapter_from_html, chapter_from_response};
use shuba_scraper::html::PageElement;
use shuba_scraper::error::ScrapeError;
use shuba_scraper::response::{response_html, FetchResponse, TxtNavMode, FetchRequest, endpoint_url};

/// The chapter text as the downloader has always computed it.
fn reference(html: &str) -> String {
    let document = Html::parse_document(html);
    let title_selector = Selector::parse(".txtnav h1").unwrap();
    let content_selector = Selector::parse(".txtnav").unwrap();
    let title = document
        .select(&title_selector)
        .next()
        .map(|el| el.text().collect::<String>())
        .unwrap_or_default();
    let content = document
        .select(&content_selector)
        .next()
        .map(|el| {
            el.text()
                .map(str::trim)
                .filter(|text| {
                    !text.is_empty()
                        && !text.contains("loadAdv")
                        && !text.contains("window.")
                        && !text.contains("_taboola")
                        && !text.contains("tb_loader_script")
                        && !text.contains("performance.mark")
                        && !text.contains("flush: true")
                })
                .collect::<Vec<_>>()
                .join("\n")
        })
        .unwrap_or_default();
    let lines: Vec<_> = content.lines().collect();
    let cleaned = lines
        .iter()
        .skip(4)
        .take(lines.len().saturating_sub(6))
        .cloned()
        .collect::<Vec<_>>()
        .join("\n");
    format!("{title}\n\n{cleaned}")
}

fn page(body_lines: &[&str]) -> String {
    let mut html = String::from("<html><body><div class=\"txtnav\"><h1>Chapter 1 <b>Start</b></h1>");
    for line in body_lines {
        html.push_str(line);
        html.push_str("<br>");
    }
    html.push_str("<script>loadAdv(2, 3);</script><p> window.x = 1 </p>\u{3000}</div></body></html>");
    html
}

#[test]
fn chapter_text_of_a_page() {
    let html = page(&["info", "date", "L1", "B1", "B2", "  B3  ", "T1", "T2"]);
    assert_eq!(chapter_from_html(&html), Ok("Chapter 1 Start\n\nL1\nB1\nB2\nB3".to_string()));
}

#[test]
fn chapter_text_matches_reference() {
    let samples: Vec<Vec<&str>> = vec![
        vec![],
        vec!["a"],
        vec!["a", "b", "c", "d", "e"],
        vec!["a", "b", "c", "d", "e", "f", "g"],
        vec!["a\r\nb", "", "   ", "_taboola", "c", "d", "e", "f", "g", "h", "i"],
        vec!["flush: true", "performance.mark", "tb_loader_script", "x", "y", "z", "w", "v", "u"],
    ];
    for sample in samples {
        let html = page(&sample);
        assert_eq!(chapter_from_html(&html).unwrap(), reference(&html), "{:?}", sample);
    }
    let bare = "<html><body><p>nothing here</p></body></html>";
    assert_eq!(chapter_from_html(bare).unwrap(), "\n\n");
    assert_eq!(chapter_from_html(bare).unwrap(), reference(bare));
}

#[test]
fn chapter_from_replies() {
    let html = page(&["a", "b", "c", "d", "e", "f", "g"]);
    let ok = FetchResponse {
        success: true,
        title: Some("t".to_string()),
        html: Some(html.clone()),
        txtnav_text: None,
        error: None,
    };
    assert_eq!(chapter_from_response(&ok).unwrap(), reference(&html));
    let failed = FetchResponse { success: false, error: None, ..ok.clone() };
    assert_eq!(
        chapter_from_response(&failed),
        Err(ScrapeError::BrowserApi("Unknown error".to_string()))
    );
    assert_eq!(
        response_html(&FetchResponse { html: None, ..ok.clone() }),
        Err(ScrapeError::MissingHtml)
    );
    assert_eq!(response_html(&ok), Ok(html));
}

#[test]
fn fetch_requests() {
    let r = FetchRequest::new("https://x/", TxtNavMode::Include);
    assert_eq!(r.url, "https://x/");
    assert!(r.txtnav);
    assert!(!FetchRequest::new("u", TxtNavMode::Exclude).txtnav);
    assert!(TxtNavMode::Include.includes_txtnav());
    assert_eq!(endpoint_url("http://localhost:3000", "/fetch"), "http://localhost:3000/fetch");
}

#[test]
fn error_messages() {
    assert_eq!(
        ScrapeError::InvalidBookUrl("u".to_string()).message(),
        "Invalid 69shuba URL (how?): u"
    );
    assert_eq!(
        ScrapeError::InvalidScraperUrl("u".to_string()).message(),
        "Invalid 69shuba URL: u"
    );
    assert_eq!(ScrapeError::BrowserApi("boom".to_string()).message(), "Browser API failed: boom");
    assert_eq!(ScrapeError::MissingHtml.message(), "Missing html field");
    let regex_error = regex::Regex::new("(").unwrap_err().to_string();
    assert_eq!(ScrapeError::InvalidPattern(regex_error.clone()).message(), regex_error);
    let selector_error = scraper::Selector::parse("<<").unwrap_err().to_string();
    assert_eq!(ScrapeError::InvalidSelector(selector_error.clone()).message(), selector_error);
}

#[test]
fn chapter_from_given_elements() {
    let el = |texts: &[&str]| PageElement {
        href: None,
        texts: texts.iter().map(|t| t.to_string()).collect(),
    };
    let titles = vec![el(&["Chapter ", "9"]), el(&["ignored"])];
    let contents = vec![el(&[
        "Chapter 9", " h2 ", "", "h3", "h4", "window.ad()", "  body 1 ", "body\n2", "t1", "t2",
    ])];
    assert_eq!(chapter_from_elements(&titles, &contents), "Chapter 9\n\nbody 1\nbody\n2");
    assert_eq!(chapter_from_elements(&vec![], &vec![]), "\n\n");
    let short = vec![el(&["a", "b", "c", "d", "e", "f"])];
    assert_eq!(chapter_from_elements(&titles, &short), "Chapter 9\n\n");
}
