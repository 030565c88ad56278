//! A streaming filter for large MediaWiki XML dumps.
//!
//! The library selects, out of a line-oriented XML dump, the `<page>`
//! elements whose numeric identifier belongs to a caller-supplied set,
//! and re-emits them together with the document's `<mediawiki>` wrapper
//! and its `<siteinfo>` block, all in one forward pass with memory
//! bounded by the size of a single page.

pub mod filter;
pub mod idset;
pub mod laws;
pub mod loader;
pub mod numbers;
pub mod run;
pub mod tags;
