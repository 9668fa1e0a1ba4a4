//! Scraping logic for 69shuba novels: book and chapter URL recognition,
//! chapter link collection, chapter text cleaning, the retrying extraction
//! schedule and the rendering of the saved output.

pub mod args;
pub mod browser;
pub mod chapter;
pub mod chapter_map;
pub mod delay;
pub mod error;
pub mod extraction;
pub mod html;
pub mod links;
pub mod output;
pub mod pattern;
pub mod response;
pub mod service;
pub mod text;
pub mod url;
