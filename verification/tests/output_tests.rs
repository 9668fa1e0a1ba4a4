use indexmap::IndexMap;
use shuba_scraper::output::{chapter_files, links_text, single_file_text};

fn chapters() -> IndexMap<u32, String> {
    let mut m = IndexMap::new();
    m.insert(3, "third".to_string());
    m.insert(1, "first".to_string());
    m.insert(12, "twelfth".to_string());
    m
}

#[test]
fn single_file_joins_chapters() {
    assert_eq!(single_file_text(&chapters()), "third\n\n\nfirst\n\n\ntwelfth");
    assert_eq!(single_file_text(&IndexMap::new()), "");
}

#[test]
fn one_file_per_chapter() {
    let files = chapter_files("out", &chapters());
    assert_eq!(
        files,
        vec![
            ("out/3".to_string(), "third".to_string()),
            ("out/1".to_string(), "first".to_string()),
            ("out/12".to_string(), "twelfth".to_string()),
        ]
    );
}

#[test]
fn links_one_per_line() {
    let links = vec!["a".to_string(), "b".to_string()];
    assert_eq!(links_text(&links), "a\nb");
    assert_eq!(links_text(&Vec::new()), "");
}
