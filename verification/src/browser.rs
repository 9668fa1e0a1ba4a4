//! The logic of the headless-browser scraper: its Chrome profile and launch
//! flags, the wait for the Cloudflare challenge to pass, the script that
//! lists a page's chapter links, and the pauses between chapter visits.

use crate::delay::{random_between, VISIT_DELAY_MAX_MS, VISIT_DELAY_MIN_MS};
use crate::text::{chars_of, contains_chars, contains_text};
use vstd::prelude::*;
use vstd::string::*;

verus! {

#[verifier::external_type_specification]
#[verifier::external_body]
pub struct ExJsonError(serde_json::Error);

/// A JSON escape sequence: a backslash and `c`.
pub open spec fn json_escape(c: char) -> Seq<char> {
    seq!['\\', c]
}

/// The lowercase hexadecimal digit of `d < 16`.
pub open spec fn hex_digit(d: int) -> char {
    if d < 10 {
        ((d + 48) as u32) as char
    } else {
        ((d + 87) as u32) as char
    }
}

/// How `serde_json` writes character `c` inside a JSON string: quote and
/// backslash escaped, the control characters below U+0020 as short escapes
/// or `\u00XX`, everything else as itself.
pub open spec fn json_char(c: char) -> Seq<char> {
    let n = c as u32;
    if c == '"' {
        json_escape('"')
    } else if c == '\\' {
        json_escape('\\')
    } else if n == 0x8 {
        json_escape('b')
    } else if n == 0x9 {
        json_escape('t')
    } else if n == 0xa {
        json_escape('n')
    } else if n == 0xc {
        json_escape('f')
    } else if n == 0xd {
        json_escape('r')
    } else if n < 0x20 {
        seq!['\\', 'u', '0', '0', hex_digit(n as int / 16), hex_digit(n as int % 16)]
    } else {
        seq![c]
    }
}

/// The characters of `s` as written inside a JSON string.
pub open spec fn json_chars(s: Seq<char>) -> Seq<char>
    decreases s.len(),
{
    if s.len() == 0 {
        seq![]
    } else {
        json_char(s[0]) + json_chars(s.drop_first())
    }
}

/// `s` as a JSON string literal.
pub open spec fn json_string_literal(s: Seq<char>) -> Seq<char> {
    seq!['"'] + json_chars(s) + seq!['"']
}

/// `serde_json::to_string` of a string: the JSON string literal of `s`.
/// Writing a string into memory does not fail.
#[verifier::external_body]
pub(crate) fn json_string(s: &str) -> (r: Result<String, serde_json::Error>)
    ensures
        r is Ok,
        r matches Ok(lit) ==> lit@ == json_string_literal(s@),
{
    serde_json::to_string(s)
}

/// The part of the link script before the filter's JSON literal.
pub const LINK_SCRIPT_HEAD: &'static str = "\n        (() => {\n            const regex = new RegExp(";

/// The part of the link script after the filter's JSON literal.
pub const LINK_SCRIPT_TAIL: &'static str = ", \"i\");\n\n            return Array.from(document.querySelectorAll('a'))\n                .map(a => a.href)\n                .filter(href => regex.test(href));\n        })()\n        ";

/// The script that lists the targets of a page's anchors that the
/// case-insensitive JavaScript regular expression `filter` matches.
pub fn link_filter_script(filter: &str) -> (r: String)
    ensures
        r@ == LINK_SCRIPT_HEAD@ + json_string_literal(filter@) + LINK_SCRIPT_TAIL@,
{
    let mut script = String::from_str(LINK_SCRIPT_HEAD);
    match json_string(filter) {
        Ok(lit) => {
            script.append(lit.as_str());
        },
        Err(_) => {},
    }
    script.append(LINK_SCRIPT_TAIL);
    script
}

/// The start of the chapter link filter of the browser scraper.
pub const BROWSER_FILTER_HEAD: &'static str = "^https:\\/\\/www\\.69shuba\\.com\\/txt\\/";

/// The end of the chapter link filter of the browser scraper.
pub const BROWSER_FILTER_TAIL: &'static str = "\\/\\d+$";

/// The JavaScript pattern of the chapter URLs of book `book_id`.
pub fn chapter_link_filter(book_id: &str) -> (r: String)
    ensures
        r@ == BROWSER_FILTER_HEAD@ + book_id@ + BROWSER_FILTER_TAIL@,
{
    let mut r = String::from_str(BROWSER_FILTER_HEAD);
    r.append(book_id);
    r.append(BROWSER_FILTER_TAIL);
    r
}

/// Where the scraper's Chrome profile lives, under the home directory.
pub const PROFILE_SUFFIX: &'static str = "/.config/google-chrome/shuba-scraper";

/// The scraper's Chrome profile directory under home directory `home`.
pub fn profile_dir(home: &str) -> (r: String)
    ensures
        r@ == home@ + PROFILE_SUFFIX@,
{
    let mut r = String::from_str(home);
    r.append(PROFILE_SUFFIX);
    r
}

/// The browser's user agent and launch flags.
pub const LAUNCH_ARGS: [&'static str; 8] = [
    "--user-agent=Mozilla/5.0 (Windows NT 10.0; Win64; x64) AppleWebKit/537.36 (KHTML, like Gecko) Chrome/120.0.0.0 Safari/537.36",
    "--disable-blink-features=AutomationControlled",
    "--disable-dev-shm-usage",
    "--disable-gpu",
    "--no-sandbox",
    "--disable-setuid-sandbox",
    "--disable-infobars",
    "--window-size=1920,1080",
];

/// The page title while the Cloudflare challenge runs holds this.
pub const CHALLENGE_MARKER: &'static str = "Just a moment";

/// The most checks of the page title while waiting for the challenge.
pub const CHALLENGE_CHECKS: u32 = 30;

/// What to do after a check of the page title.
#[derive(Debug, Clone, Copy, PartialEq, Eq)]
pub enum ChallengeStep {
    /// The page is ready (or waiting is over): go on.
    Proceed,
    /// Sleep a second and check the title again.
    SleepThenCheck,
    /// Sleep a second and go on: that was the last check.
    SleepThenProceed,
}

/// After check number `check` (from 0) found page title `title`: go on once
/// the title no longer shows the challenge; otherwise sleep a second, and
/// check again unless that was the thirtieth check.
pub fn challenge_step(check: u32, title: &str) -> (r: ChallengeStep)
    ensures
        !contains_text(title@, CHALLENGE_MARKER@) ==> r == ChallengeStep::Proceed,
        contains_text(title@, CHALLENGE_MARKER@) && check + 1 < CHALLENGE_CHECKS ==> r
            == ChallengeStep::SleepThenCheck,
        contains_text(title@, CHALLENGE_MARKER@) && check + 1 >= CHALLENGE_CHECKS ==> r
            == ChallengeStep::SleepThenProceed,
{
    if !contains_chars(&chars_of(title), &chars_of(CHALLENGE_MARKER)) {
        ChallengeStep::Proceed
    } else if check < CHALLENGE_CHECKS - 1 {
        ChallengeStep::SleepThenCheck
    } else {
        ChallengeStep::SleepThenProceed
    }
}

/// A random wait before a chapter visit, at least 2 and under 5 seconds.
pub fn visit_delay_ms() -> (r: u64)
    ensures
        VISIT_DELAY_MIN_MS <= r <= VISIT_DELAY_MAX_MS,
{
    random_between(VISIT_DELAY_MIN_MS, VISIT_DELAY_MAX_MS)
}

} // verus!
