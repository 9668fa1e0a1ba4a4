use shuba_scraper::browser::{
    challenge_step, chapter_link_filter, link_filter_script, profile_dir, visit_delay_ms,
    ChallengeStep,
};
use shuba_scraper::service::{port_argument, service_url, stderr_line_echo, stdout_line_action};

#[test]
fn link_script_embeds_the_filter_as_json() {
    let filter = r"^https:\/\/www\.69shuba\.com\/txt\/1\/\d+$";
    let expected = format!(
        r#"
        (() => {{
            const regex = new RegExp({}, "i");

            return Array.from(document.querySelectorAll('a'))
                .map(a => a.href)
                .filter(href => regex.test(href));
        }})()
        "#,
        serde_json::to_string(filter).unwrap()
    );
    assert_eq!(link_filter_script(filter), expected);
    let odd = "q\"b\\\n\t\u{1}\u{7f}é";
    assert!(link_filter_script(odd).contains(&serde_json::to_string(odd).unwrap()));
}

#[test]
fn browser_filter_and_profile() {
    assert_eq!(
        chapter_link_filter("42"),
        r"^https:\/\/www\.69shuba\.com\/txt\/42\/\d+$"
    );
    assert_eq!(profile_dir("/home/u"), "/home/u/.config/google-chrome/shuba-scraper");
}

#[test]
fn challenge_wait() {
    assert_eq!(challenge_step(0, "第一章"), ChallengeStep::Proceed);
    assert_eq!(challenge_step(0, "Just a moment..."), ChallengeStep::SleepThenCheck);
    assert_eq!(challenge_step(28, "Just a moment..."), ChallengeStep::SleepThenCheck);
    assert_eq!(challenge_step(29, "Just a moment..."), ChallengeStep::SleepThenProceed);
}

#[test]
fn visit_delays() {
    for _ in 0..100 {
        let d = visit_delay_ms();
        assert!((2000..5000).contains(&d));
    }
}

#[test]
fn service_lines_and_address() {
    assert_eq!(service_url(3000), "http://localhost:3000");
    assert_eq!(port_argument(8080), "8080");
    let a = stdout_line_action("server READY on 3000", false);
    assert_eq!(a.echo, Some("[browser-api] server READY on 3000".to_string()));
    assert!(a.ready);
    let b = stdout_line_action("starting", true);
    assert_eq!(b.echo, None);
    assert!(!b.ready);
    assert_eq!(stderr_line_echo("oops"), "[browser-api stderr] oops");
}
