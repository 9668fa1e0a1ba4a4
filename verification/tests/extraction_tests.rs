use indexmap::IndexMap;
use shuba_scraper::delay::{random_delay_ms, retry_cooldown_ms};
use shuba_scraper::error::ScrapeError;
use shuba_scraper::extraction::{chapter_attempt, Action, Event, Extraction, FetchFailure};
use shuba_scraper::response::FetchResponse;

fn links(numbers: &[u32]) -> IndexMap<u32, String> {
    numbers.iter().map(|n| (*n, format!("https://www.69shuba.com/txt/1/{}", n))).collect()
}

fn expect_fetch(a: Action, chapter: u32) {
    match a {
        Action::Fetch { chapter: c, url } => {
            assert_eq!(c, chapter);
            assert_eq!(url, format!("https://www.69shuba.com/txt/1/{}", chapter));
        }
        other => panic!("expected a fetch of {}, got {:?}", chapter, other),
    }
}

fn failed() -> Event {
    Event::Attempted(Err(FetchFailure::Request("connection refused".to_string())))
}

#[test]
fn backoff_values() {
    assert_eq!(retry_cooldown_ms(0), 30000);
    assert_eq!(retry_cooldown_ms(1), 60000);
    assert_eq!(retry_cooldown_ms(2), 120000);
    assert_eq!(retry_cooldown_ms(3), 240000);
    assert_eq!(retry_cooldown_ms(4), 300000);
    assert_eq!(retry_cooldown_ms(59), 300000);
    for r in 0..=59u32 {
        let reference = (30 * 2u64.pow(r)).min(300) * 1000;
        assert_eq!(retry_cooldown_ms(r), reference);
    }
}

#[test]
fn random_delays_stay_in_range() {
    for _ in 0..200 {
        let d = random_delay_ms(2500, 7000);
        assert!((2500..=7000).contains(&d));
    }
    assert_eq!(random_delay_ms(5, 5), 5);
}

#[test]
fn extraction_schedule() {
    let (mut x, a) = Extraction::start_with(links(&[49, 50, 51]), 111);
    expect_fetch(a, 49);
    assert!(!x.accepts_event(&Event::Slept));
    let a = x.advance(Event::Attempted(Ok("t49".to_string())), 1, 3000);
    assert!(matches!(a, Action::Pause { millis: 3000 }));
    let a = x.advance(Event::Slept, 120000, 1);
    assert!(matches!(a, Action::CoolDown { chapter: 50, millis: 120000 }));
    expect_fetch(x.advance(Event::Slept, 1, 1), 50);
    for expected in [60000u64, 120000, 240000, 300000, 300000] {
        match x.advance(failed(), 1, 1) {
            Action::Retry { chapter, failure, millis } => {
                assert_eq!(chapter, 50);
                assert_eq!(millis, expected);
                assert_eq!(failure.message(), "connection refused");
            }
            other => panic!("expected a retry, got {:?}", other),
        }
        expect_fetch(x.advance(Event::Slept, 1, 1), 50);
    }
    assert!(matches!(
        x.advance(Event::Attempted(Ok("t50".to_string())), 1, 2500),
        Action::Pause { millis: 2500 }
    ));
    expect_fetch(x.advance(Event::Slept, 1, 1), 51);
    assert!(matches!(x.advance(Event::Attempted(Ok("t51".to_string())), 1, 7000), Action::Pause { .. }));
    assert!(matches!(x.advance(Event::Slept, 1, 1), Action::Finish));
    assert!(!x.accepts_event(&Event::Slept));
    let chapters: Vec<(u32, String)> = x.into_chapters().into_iter().collect();
    assert_eq!(
        chapters,
        vec![(49, "t49".to_string()), (50, "t50".to_string()), (51, "t51".to_string())]
    );
}

#[test]
fn extraction_of_nothing() {
    let (x, a) = Extraction::start(IndexMap::new());
    assert!(matches!(a, Action::Finish));
    assert!(x.chapters().is_empty());
}

#[test]
fn cooldown_before_first_chapter() {
    let (mut x, a) = Extraction::start(links(&[100]));
    match a {
        Action::CoolDown { chapter, millis } => {
            assert_eq!(chapter, 100);
            assert!((100000..=250000).contains(&millis));
        }
        other => panic!("expected a cooldown, got {:?}", other),
    }
    expect_fetch(x.step(Event::Slept), 100);
    match x.step(Event::Attempted(Ok("text".to_string()))) {
        Action::Pause { millis } => assert!((2500..=7000).contains(&millis)),
        other => panic!("expected a pause, got {:?}", other),
    }
    assert!(matches!(x.step(Event::Slept), Action::Finish));
}

#[test]
fn attempts_from_replies() {
    let reply = FetchResponse {
        success: false,
        title: None,
        html: None,
        txtnav_text: None,
        error: Some("blocked".to_string()),
    };
    match chapter_attempt(Ok(reply)) {
        Err(FetchFailure::Page(e)) => assert_eq!(e, ScrapeError::BrowserApi("blocked".to_string())),
        other => panic!("unexpected {:?}", other),
    }
    match chapter_attempt(Err("refused".to_string())) {
        Err(FetchFailure::Request(m)) => assert_eq!(m, "refused"),
        other => panic!("unexpected {:?}", other),
    }
    let page = FetchResponse {
        success: true,
        title: None,
        html: Some("<div class=\"txtnav\"><h1>T</h1></div>".to_string()),
        txtnav_text: None,
        error: None,
    };
    assert_eq!(chapter_attempt(Ok(page)).unwrap(), "T\n\n");
}

#[test]
fn backoff_limit_of_one_chapter() {
    let (mut x, a) = Extraction::start_with(links(&[1]), 1);
    expect_fetch(a, 1);
    for _ in 0..59 {
        assert!(x.accepts_event(&failed()));
        assert!(matches!(x.advance(failed(), 1, 1), Action::Retry { chapter: 1, .. }));
        expect_fetch(x.advance(Event::Slept, 1, 1), 1);
    }
    assert!(!x.accepts_event(&failed()));
    assert!(x.accepts_event(&Event::Attempted(Ok("late".to_string()))));
    assert!(matches!(x.advance(Event::Attempted(Ok("late".to_string())), 1, 4000), Action::Pause { millis: 4000 }));
    assert!(matches!(x.advance(Event::Slept, 1, 1), Action::Finish));
}
