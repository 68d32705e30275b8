//! A verified crawler core for a retailer's category tree.
//!
//! The library holds the logic of the crawl: classifying a fetched page as a
//! product listing or an inner department page, walking the category tree
//! depth-first with a visited set and a lineage stack, collecting product
//! stubs keyed by URL, extracting and normalizing product fields, and
//! rendering rows for the file and table sinks. Network and database I/O
//! stay outside the library; pages reach it as parsed documents and results
//! leave it as plain values.

pub mod collector;
pub mod dom;
pub mod enrich;
pub mod errors;
pub mod orchestrate;
pub mod records;
pub mod sink;
pub mod text;
pub mod walker;
