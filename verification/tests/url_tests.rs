use shuba_scraper::error::ScrapeError;
use shuba_scraper::url::{book_id_from_captures, scraper_book_id, create_chapter_regex, get_book_id, validate_shuba_url, SHUBA_URL_HINT};

#[test]
fn book_id_of_valid_urls() {
    assert_eq!(get_book_id("https://www.69shuba.com/book/12345/"), Ok("12345".to_string()));
    assert_eq!(get_book_id("https://www.69shuba.com/book/12345"), Ok("12345".to_string()));
    assert_eq!(get_book_id("http://69shuba.com/book/7/"), Ok("7".to_string()));
}

#[test]
fn book_id_of_invalid_urls() {
    for url in [
        "https://www.69shuba.com/book/12345.htm",
        "https://www.69shuba.com/book/",
        "https://example.com/book/1/",
        "https://www.69shuba.com/txt/1/2",
        "",
    ] {
        assert_eq!(get_book_id(url), Err(ScrapeError::InvalidBookUrl(url.to_string())));
    }
}

#[test]
fn shuba_url_validation() {
    assert_eq!(
        validate_shuba_url("https://www.69shuba.com/book/12345/"),
        Ok("https://www.69shuba.com/book/12345/".to_string())
    );
    assert_eq!(
        validate_shuba_url("https://www.69shuba.com/book/12345"),
        Err(SHUBA_URL_HINT.to_string())
    );
    assert_eq!(
        validate_shuba_url("https://www.69shuba.com/book/12345/"),
        Ok("https://www.69shuba.com/book/12345/".to_string())
    );
    assert_eq!(
        SHUBA_URL_HINT,
        "URL must look like: https://www.69shuba.com/book/12345/"
    );
}

#[test]
fn chapter_pattern_of_book() {
    assert_eq!(
        create_chapter_regex("12345"),
        Ok(r"^https://www\.69shuba\.com/txt/12345/\d+$".to_string())
    );
    assert_eq!(
        create_chapter_regex("1.2"),
        Ok(r"^https://www\.69shuba\.com/txt/1\.2/\d+$".to_string())
    );
}

#[test]
fn book_id_from_given_captures() {
    let url = "https://www.69shuba.com/book/9/";
    assert_eq!(
        book_id_from_captures(url, Some(vec![Some(url.to_string()), Some("9".to_string())])),
        Ok("9".to_string())
    );
    assert_eq!(
        book_id_from_captures(url, None),
        Err(ScrapeError::InvalidBookUrl(url.to_string()))
    );
    assert_eq!(
        book_id_from_captures(url, Some(vec![Some(url.to_string()), None])),
        Err(ScrapeError::InvalidBookUrl(url.to_string()))
    );
    assert_eq!(
        book_id_from_captures(url, Some(vec![Some(url.to_string())])),
        Err(ScrapeError::InvalidBookUrl(url.to_string()))
    );
}

#[test]
fn book_id_messages_of_the_two_programs() {
    let bad = "https://www.69shuba.com/book/12a/";
    assert_eq!(
        get_book_id(bad).unwrap_err().message(),
        "Invalid 69shuba URL (how?): https://www.69shuba.com/book/12a/"
    );
    assert_eq!(
        scraper_book_id(bad).unwrap_err().message(),
        "Invalid 69shuba URL: https://www.69shuba.com/book/12a/"
    );
    assert_eq!(scraper_book_id("https://www.69shuba.com/book/88/"), Ok("88".to_string()));
    assert_eq!(scraper_book_id("http://69shuba.com/book/88"), Ok("88".to_string()));
}
