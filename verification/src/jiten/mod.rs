pub mod types;
pub mod client;
