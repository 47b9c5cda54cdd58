//! Serving converted papers: a paper's archive is read into a document, a log
//! and assets; the log gives the status of the conversion; the document is
//! branded into the page that is served; a cache stands in front of the
//! archives; and papers are picked by chance, lap after lap.
//!
//! What the functions return is stated in their contracts and proved. The
//! calls into other crates stand in `pattern`, `pool`, `chance` and `text`,
//! each with the contract that is taken on trust.

pub mod assemble_asset;
pub mod cache;
pub mod chance;
pub mod constants;
pub mod dirty_templates;
pub mod dom_templates;
pub mod paper_order;
pub mod pattern;
pub mod pool;
pub mod text;
