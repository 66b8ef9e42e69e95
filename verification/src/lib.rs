//! Link scraping for structured markup documents.
//!
//! The crate walks a stream of parse events produced by an XML tokenizer and
//! collects every URL-shaped reference it meets, together with the position
//! and the syntactic context (attribute, comment, text, CDATA, namespace
//! declaration) in which the reference occurred.  A second scraper recognizes
//! the XLink vocabulary (simple and extended links, locators, arcs,
//! resources) and enforces its nesting rules while harvesting references.

#![verifier::loop_isolation(false)]

use vstd::prelude::*;

pub mod events;
pub mod text_file;
pub mod helpers;
pub mod tokenizer;
pub mod xml;

verus! {

/// A line/column pair as the tokenizer reports it: both are zero-based.
#[derive(Debug, Clone, Copy, PartialEq, Eq, Structural)]
pub struct TextPosition {
    pub row: u64,
    pub column: u64,
}

} // verus!
