//! Core of a metasearch engine: normalized result records, a closed error
//! taxonomy, a scrape helper over an external HTML/CSS-selector capability,
//! a uniform engine-adapter pipeline, and the cross-engine merge discipline.

pub mod adapter;
pub mod aggregate;
pub mod error;
pub mod results;
pub mod scrape;
pub mod searx;
pub mod text;
