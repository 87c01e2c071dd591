//! A verified core for turning configured news feeds into a single
//! offline-readable e-book: time-filtering feed entries, pruning non-article
//! fragments from scraped pages, extracting ordered content blocks, rendering
//! them as markup, and assembling a two-level document.
//!
//! Network fetches and file output live outside this library; callers hand in
//! fetched payloads as plain values and take the finished artifact back as
//! bytes.
use vstd::prelude::*;

pub mod book;
pub mod dom;
pub mod epub;
pub mod extract;
pub mod feed;
pub mod render;

verus! {

/// The failures the pipeline distinguishes: a network fetch that did not
/// succeed, a payload that is not a recognizable feed, and an output artifact
/// that cannot be produced.
#[derive(Clone, Copy, Debug, PartialEq, Eq, Structural)]
pub enum Error {
    Fetch,
    Parse,
    Serialization,
}

} // verus!
