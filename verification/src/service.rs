//! The local browser service: how it is started and addressed, and what is
//! made of each line it prints.

use crate::text::{chars_of, contains_chars, contains_text, decimal, push_decimal, string_of};
use vstd::prelude::*;
use vstd::string::*;

verus! {

/// The program that runs the browser service.
pub const SERVICE_PROGRAM: &'static str = "node";

/// The service's script.
pub const SERVICE_SCRIPT: &'static str = "service.js";

/// The directory the service runs in.
pub const SERVICE_DIR: &'static str = "../playwright-service";

/// The service prints this once it takes requests.
pub const READY_MARKER: &'static str = "READY";

/// What stands before each echoed line of the service's output.
pub const STDOUT_PREFIX: &'static str = "[browser-api] ";

/// What stands before each echoed line of the service's error output.
pub const STDERR_PREFIX: &'static str = "[browser-api stderr] ";

/// Where the browser service listens.
pub const LOCALHOST_PREFIX: &'static str = "http://localhost:";

/// The decimal text of `port`: the service's argument.
pub fn port_argument(port: u16) -> (r: String)
    ensures
        r@ == decimal(port as nat),
{
    let mut cs: Vec<char> = Vec::new();
    push_decimal(&mut cs, port as u64);
    assert(cs@ =~= decimal(port as nat));
    string_of(&cs)
}

/// The base URL of the browser service on `port`.
pub fn service_url(port: u16) -> (r: String)
    ensures
        r@ == LOCALHOST_PREFIX@ + decimal(port as nat),
{
    let mut r = String::from_str(LOCALHOST_PREFIX);
    let p = port_argument(port);
    r.append(p.as_str());
    r
}

/// What to do with one line of the service's output.
#[derive(Debug, PartialEq, Eq)]
pub struct LineAction {
    /// The text to print, unless the service is silenced.
    pub echo: Option<String>,
    /// The line tells that the service is ready.
    pub ready: bool,
}

/// What to do with `line` of the service's output: print it with its prefix
/// unless `silence`, and note readiness when it holds "READY".
pub fn stdout_line_action(line: &str, silence: bool) -> (r: LineAction)
    ensures
        silence ==> r.echo is None,
        !silence ==> (r.echo matches Some(e) && e@ == STDOUT_PREFIX@ + line@),
        r.ready == contains_text(line@, READY_MARKER@),
{
    let echo = if silence {
        None
    } else {
        let mut e = String::from_str(STDOUT_PREFIX);
        e.append(line);
        Some(e)
    };
    let ready = contains_chars(&chars_of(line), &chars_of(READY_MARKER));
    LineAction { echo, ready }
}

/// The text to print for `line` of the service's error output.
pub fn stderr_line_echo(line: &str) -> (r: String)
    ensures
        r@ == STDERR_PREFIX@ + line@,
{
    let mut e = String::from_str(STDERR_PREFIX);
    e.append(line);
    e
}

} // verus!
