pub mod types;
pub mod merge;

pub use merge::Merge;
