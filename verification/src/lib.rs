//! Verified core of a headline scraper.
//!
//! The library resolves a news URL to a per-site extraction rule, pulls
//! candidate strings out of fetched HTML with the `scraper` crate, filters
//! them down to genuine headlines, and aggregates fixed-point sentiment
//! scores. Network I/O, argument handling and sentiment scoring itself live
//! outside the library.

pub mod errors;
pub mod filter;
pub mod rules;
pub mod scrape;
pub mod sentiment;
pub mod text;
