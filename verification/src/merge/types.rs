//! The joined records.
use std::collections::HashMap;
use vstd::prelude::*;
use crate::anilist::types::Media as AnilistMedia;
use crate::jiten::types::{LanguageStats, Media as JitenMedia};

verus! {

/// An AniList entry with the language statistics of its Jiten deck, when it
/// has one.
pub struct MergedMedia {
    pub anime: AnilistMedia,
    pub language_stats: Option<LanguageStats>,
}

/// What a merge reads: the AniList entries, the Jiten decks by deck id, and
/// the AniList id to deck id map.
pub struct LoadDataResponse {
    pub anilist_media: Vec<AnilistMedia>,
    pub jiten_media_by_id: HashMap<i64, JitenMedia>,
    pub anilist_to_jiten: HashMap<i64, i64>,
}

} // verus!
