pub mod types;
pub mod incremental;
pub mod client;
pub mod scrape;
