//! Atlas: gathers anime metadata from AniList, joins it with the language
//! statistics published by Jiten, and prepares the merged records for a
//! Meilisearch index.
//!
//! This crate holds the decisions of that pipeline (how pages are absorbed,
//! when a request is retried, how records are joined, how index settings are
//! compared). Network and disk access live in the accompanying application.

pub mod consts;
pub mod config;
pub mod numeric;
pub mod calendar;
pub mod clock;
pub mod anilist;
pub mod jiten;
pub mod merge;
pub mod meilisearch;
