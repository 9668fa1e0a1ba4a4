use shuba_scraper::text::{
    chars_of, contains_chars, find_text, is_white_space_char, join_rows, lines_of, push_decimal,
    string_of, trim_chars,
};

fn v(s: &str) -> Vec<char> {
    s.chars().collect()
}

fn s(cs: &[char]) -> String {
    cs.iter().collect()
}

#[test]
fn white_space_matches_std() {
    for n in 0u32..=0x10FFFF {
        if let Some(c) = char::from_u32(n) {
            assert_eq!(is_white_space_char(c), c.is_whitespace(), "char {:x}", n);
        }
    }
}

#[test]
fn trim_matches_std() {
    let samples = [
        "",
        "   ",
        "  abc  ",
        "\u{3000}第一章\u{3000}",
        "\t\r\n x y \n",
        "no-space",
        "\u{a0}\u{2028}mid dle\u{205f}",
    ];
    for sample in samples {
        assert_eq!(s(&trim_chars(&v(sample))), sample.trim());
    }
}

#[test]
fn lines_match_std() {
    let samples = [
        "", "a", "a\n", "\n", "a\nb", "a\r\nb\r\n", "a\rb", "a\n\nb\n\n", "x\r", "\r\n\r\n",
    ];
    for sample in samples {
        let ours: Vec<String> = lines_of(&v(sample)).iter().map(|l| s(l)).collect();
        let std: Vec<String> = sample.lines().map(|l| l.to_string()).collect();
        assert_eq!(ours, std, "sample {:?}", sample);
    }
}

#[test]
fn join_matches_std() {
    let parts = vec![v("a"), v(""), v("bc")];
    assert_eq!(s(&join_rows(&parts, &v("--"))), "a----bc");
    assert_eq!(s(&join_rows(&vec![], &v("--"))), "");
    assert_eq!(s(&join_rows(&vec![v("one")], &v("\n"))), "one");
}

#[test]
fn contains_and_find() {
    assert!(contains_chars(&v("window.foo"), &v("window.")));
    assert!(!contains_chars(&v("windo"), &v("window.")));
    assert_eq!(find_text(&v("abcabc"), &v("ca")), Some(2));
    assert_eq!(find_text(&v("abc"), &v("")), Some(0));
    assert_eq!(find_text(&v("abc"), &v("x")), None);
}

#[test]
fn decimal_matches_display() {
    for n in [0u64, 7, 10, 99, 100, 3000, 65535, 4294967295, u64::MAX] {
        let mut out = v("x");
        push_decimal(&mut out, n);
        assert_eq!(s(&out), format!("x{}", n));
    }
}

#[test]
fn chars_round_trip() {
    let text = "第一章 Abc\n";
    assert_eq!(chars_of(text), v(text));
    assert_eq!(string_of(&v(text)), text);
}
