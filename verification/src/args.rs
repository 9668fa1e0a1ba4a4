//! The options of the chapter downloader.

use vstd::prelude::*;

verus! {

/// The port of the browser service unless another is given.
pub const DEFAULT_PORT: u16 = 3000;

/// The output path unless another is given.
pub const DEFAULT_OUT: &'static str = "out";

/// The first chapter to extract unless another is given.
pub const DEFAULT_START: u32 = 1;

/// The last chapter to extract unless another is given.
pub const DEFAULT_END: u32 = 0xffff_ffff;

/// What the downloader is asked to do.
#[derive(Debug, PartialEq, Eq)]
pub struct Args {
    /// The port of the browser service that the downloader starts.
    pub port: u16,
    /// The novel's URL, `https://www.69shuba.com/book/<id>/`.
    pub url: String,
    /// The output file, or directory when `dir` is set.
    pub out: String,
    /// The first chapter to extract.
    pub start: u32,
    /// The last chapter to extract.
    pub end: u32,
    /// Save one file per chapter in directory `out`.
    pub dir: bool,
    /// Do not echo the browser service's output.
    pub silence_browser: bool,
}

} // verus!
