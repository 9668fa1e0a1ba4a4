//! Regular expressions, through the `regex` crate: whether a pattern
//! compiles, whether it matches, what its groups capture, and the escaping of
//! literal text.

use vstd::prelude::*;

verus! {

/// What `regex::Regex::new` reports for `pattern`: `None` when it
/// compiles, otherwise the message (`Display`) of its error.
pub uninterp spec fn regex_compile_error(pattern: Seq<char>) -> Option<Seq<char>>;

/// Whether `regex::Regex::new` accepts `pattern`.
pub open spec fn regex_accepts(pattern: Seq<char>) -> bool {
    regex_compile_error(pattern) is None
}

/// Whether the regex compiled from `pattern` matches somewhere in `haystack`.
pub uninterp spec fn regex_finds(pattern: Seq<char>, haystack: Seq<char>) -> bool;

/// The groups of the leftmost-first match of the regex compiled from
/// `pattern` in `haystack` (group 0 being the whole match, a group that took
/// no part being `None`), or `None` when there is no match.
pub uninterp spec fn regex_capture_groups(pattern: Seq<char>, haystack: Seq<char>) -> Option<
    Seq<Option<Seq<char>>>,
>;

/// `regex::Regex::new`: compiles `pattern`; the compiled regex is dropped,
/// an error is given as its message.
#[verifier::external_body]
pub(crate) fn regex_check(pattern: &str) -> (r: Result<(), String>)
    ensures
        r is Ok <==> regex_compile_error(pattern@) is None,
        r matches Err(m) ==> regex_compile_error(pattern@) == Some(m@),
{
    regex::Regex::new(pattern).map(|_| ()).map_err(|e| e.to_string())
}

/// `regex::Regex::is_match` on the regex compiled from `pattern`.
#[verifier::external_body]
pub(crate) fn regex_is_match(pattern: &str, haystack: &str) -> (r: bool)
    requires
        regex_accepts(pattern@),
    ensures
        r == regex_finds(pattern@, haystack@),
{
    match regex::Regex::new(pattern) {
        Ok(re) => re.is_match(haystack),
        Err(_) => false,
    }
}

/// `regex::Regex::captures` on the regex compiled from `pattern`, each group
/// copied out as text.
#[verifier::external_body]
pub(crate) fn regex_captures(pattern: &str, haystack: &str) -> (r: Option<Vec<Option<String>>>)
    requires
        regex_accepts(pattern@),
    ensures
        r.deep_view() == regex_capture_groups(pattern@, haystack@),
{
    match regex::Regex::new(pattern) {
        Ok(re) => re.captures(haystack).map(
            |caps| caps.iter().map(|g| g.map(|m| m.as_str().to_string())).collect(),
        ),
        Err(_) => None,
    }
}

/// The characters that `regex::escape` escapes.
pub open spec fn is_regex_meta(c: char) -> bool {
    ||| c == '\\'
    ||| c == '.'
    ||| c == '+'
    ||| c == '*'
    ||| c == '?'
    ||| c == '('
    ||| c == ')'
    ||| c == '|'
    ||| c == '['
    ||| c == ']'
    ||| c == '{'
    ||| c == '}'
    ||| c == '^'
    ||| c == '$'
    ||| c == '#'
    ||| c == '&'
    ||| c == '-'
    ||| c == '~'
}

/// `s` with a backslash put before each regex meta character.
pub open spec fn regex_escaped(s: Seq<char>) -> Seq<char>
    decreases s.len(),
{
    if s.len() == 0 {
        seq![]
    } else {
        (if is_regex_meta(s[0]) {
            seq!['\\', s[0]]
        } else {
            seq![s[0]]
        }) + regex_escaped(s.drop_first())
    }
}

/// `regex::escape`: the text as a pattern that matches it literally.
#[verifier::external_body]
pub(crate) fn regex_escape(text: &str) -> (r: String)
    ensures
        r@ == regex_escaped(text@),
{
    regex::escape(text)
}

} // verus!
