//! Content-source adapter logic for the Mangapill site: primitive encoders,
//! a URL canonicalizer, a search-filter compiler, and extractors that turn
//! already-queried markup fields into typed catalog records.
pub mod encode;
pub mod extract;
pub mod filters;
pub mod models;
pub mod text;
pub mod url;
