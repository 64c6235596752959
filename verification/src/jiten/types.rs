//! Jiten media decks and their language statistics.
//!
//! Jiten publishes several statistics as floating-point numbers. They are
//! carried here unchanged as their IEEE 754 bit patterns (`f64::to_bits`):
//! the pipeline copies them and never computes with them.
use vstd::prelude::*;

verus! {

/// An external link of a deck; `link_type` is a [`LinkType`] value.
pub struct LinkObject {
    pub link_id: i64,
    pub link_type: i32,
    pub url: String,
    pub deck_id: i64,
}

/// A tag of a deck; `percentage` is an `f64` bit pattern.
pub struct TagObject {
    pub tag_id: i64,
    pub name: String,
    pub percentage: u64,
}

/// The kinds of link Jiten knows, and the numbers it writes them as.
#[derive(Debug, Clone, Copy, PartialEq, Eq, Structural)]
pub enum LinkType {
    Web,
    Vndb,
    Tmdb,
    Anilist,
    Mal,
    GoogleBooks,
    Imdb,
    Igdb,
    Syosetsu,
    Bookmeter,
    Amazon,
}

impl LinkType {
    pub open spec fn spec_value(self) -> i32 {
        match self {
            LinkType::Web => 1,
            LinkType::Vndb => 2,
            LinkType::Tmdb => 3,
            LinkType::Anilist => 4,
            LinkType::Mal => 5,
            LinkType::GoogleBooks => 6,
            LinkType::Imdb => 7,
            LinkType::Igdb => 8,
            LinkType::Syosetsu => 9,
            LinkType::Bookmeter => 10,
            LinkType::Amazon => 11,
        }
    }

    /// The number Jiten writes for this kind of link.
    pub fn value(&self) -> (r: i32)
        ensures
            r == self.spec_value(),
    {
        match self {
            LinkType::Web => 1,
            LinkType::Vndb => 2,
            LinkType::Tmdb => 3,
            LinkType::Anilist => 4,
            LinkType::Mal => 5,
            LinkType::GoogleBooks => 6,
            LinkType::Imdb => 7,
            LinkType::Igdb => 8,
            LinkType::Syosetsu => 9,
            LinkType::Bookmeter => 10,
            LinkType::Amazon => 11,
        }
    }
}

/// The language statistics of a deck, as the merged records carry them.
/// Fields noted `f64` hold bit patterns.
#[derive(Debug, Clone, Copy, PartialEq, Eq, Structural)]
pub struct LanguageStats {
    pub deck_id: i64,
    pub word_count: i64,
    pub unique_word_count: i64,
    pub unique_word_used_once_count: i64,
    pub unique_kanji_count: i64,
    pub unique_kanji_used_once_count: i64,
    /// `f64`
    pub difficulty: u64,
    /// `f64`
    pub difficulty_raw: u64,
    /// `f64`
    pub difficulty_algorithmic: u64,
    /// `f64`
    pub speech_duration: u64,
    pub speech_mora_count: i64,
    /// `f64`
    pub speech_speed: u64,
    pub distinct_voter_count: i64,
    /// `f64`
    pub user_adjustment: u64,
}

/// A Jiten deck. Fields noted `f64` hold bit patterns; the entries of
/// `dictionary_entries` and `relationships`, whose shape Jiten does not fix,
/// are kept as JSON text.
pub struct Media {
    pub creation_date: String,
    pub release_date: String,
    pub cover_name: String,
    pub media_type: i64,
    pub genres: Vec<i64>,
    pub original_title: String,
    pub romaji_title: String,
    pub english_title: Option<String>,
    pub description: String,
    pub deck_id: i64,
    pub word_count: i64,
    pub unique_word_count: i64,
    pub unique_word_used_once_count: i64,
    pub unique_kanji_count: i64,
    pub unique_kanji_used_once_count: i64,
    /// `f64`
    pub difficulty: u64,
    /// `f64`
    pub difficulty_raw: u64,
    /// `f64`
    pub difficulty_algorithmic: u64,
    /// `f64`
    pub speech_duration: u64,
    pub speech_mora_count: i64,
    /// `f64`
    pub speech_speed: u64,
    pub distinct_voter_count: i64,
    /// `f64`
    pub user_adjustment: u64,
    pub sentence_count: i64,
    /// `f64`
    pub difficulty_override: u64,
    /// `f64`
    pub average_sentence_length: u64,
    pub parent_deck_id: Option<i64>,
    pub links: Vec<LinkObject>,
    pub aliases: Vec<String>,
    pub dictionary_entries: Vec<String>,
    pub relationships: Vec<String>,
    pub children_deck_count: i64,
    pub selected_word_occurrences: i64,
    /// `f64`
    pub dialogue_percentage: u64,
    pub hide_dialogue_percentage: bool,
    pub hide_average_sentence_length: bool,
    /// `f64`
    pub coverage: u64,
    /// `f64`
    pub unique_coverage: u64,
    /// `f64`
    pub young_coverage: u64,
    /// `f64`
    pub young_unique_coverage: u64,
    /// `f64`
    pub external_rating: u64,
    pub example_sentence: Option<String>,
    pub tags: Vec<TagObject>,
    pub status: Option<i64>,
    pub is_favourite: Option<bool>,
    pub is_ignored: Option<bool>,
    pub original_file_name: Option<String>,
}

/// The statistics that a deck carries about its language.
pub open spec fn stats_of(m: Media) -> LanguageStats {
    LanguageStats {
        deck_id: m.deck_id,
        word_count: m.word_count,
        unique_word_count: m.unique_word_count,
        unique_word_used_once_count: m.unique_word_used_once_count,
        unique_kanji_count: m.unique_kanji_count,
        unique_kanji_used_once_count: m.unique_kanji_used_once_count,
        difficulty: m.difficulty,
        difficulty_raw: m.difficulty_raw,
        difficulty_algorithmic: m.difficulty_algorithmic,
        speech_duration: m.speech_duration,
        speech_mora_count: m.speech_mora_count,
        speech_speed: m.speech_speed,
        distinct_voter_count: m.distinct_voter_count,
        user_adjustment: m.user_adjustment,
    }
}

/// Each statistic is the deck's own value of the same name.
pub proof fn lemma_stats_are_the_deck_values(m: Media)
    ensures
        stats_of(m).deck_id == m.deck_id,
        stats_of(m).word_count == m.word_count,
        stats_of(m).unique_word_count == m.unique_word_count,
        stats_of(m).unique_word_used_once_count == m.unique_word_used_once_count,
        stats_of(m).unique_kanji_count == m.unique_kanji_count,
        stats_of(m).unique_kanji_used_once_count == m.unique_kanji_used_once_count,
        stats_of(m).difficulty == m.difficulty,
        stats_of(m).difficulty_raw == m.difficulty_raw,
        stats_of(m).difficulty_algorithmic == m.difficulty_algorithmic,
        stats_of(m).speech_duration == m.speech_duration,
        stats_of(m).speech_mora_count == m.speech_mora_count,
        stats_of(m).speech_speed == m.speech_speed,
        stats_of(m).distinct_voter_count == m.distinct_voter_count,
        stats_of(m).user_adjustment == m.user_adjustment,
{
}

impl LanguageStats {
    /// The language statistics of a deck, copied field by field.
    pub fn from(m: &Media) -> (s: LanguageStats)
        ensures
            s == stats_of(*m),
            s.deck_id == m.deck_id,
            s.word_count == m.word_count,
            s.unique_word_count == m.unique_word_count,
            s.unique_word_used_once_count == m.unique_word_used_once_count,
            s.unique_kanji_count == m.unique_kanji_count,
            s.unique_kanji_used_once_count == m.unique_kanji_used_once_count,
            s.difficulty == m.difficulty,
            s.difficulty_raw == m.difficulty_raw,
            s.difficulty_algorithmic == m.difficulty_algorithmic,
            s.speech_duration == m.speech_duration,
            s.speech_mora_count == m.speech_mora_count,
            s.speech_speed == m.speech_speed,
            s.distinct_voter_count == m.distinct_voter_count,
            s.user_adjustment == m.user_adjustment,
    {
        LanguageStats {
            deck_id: m.deck_id,
            word_count: m.word_count,
            unique_word_count: m.unique_word_count,
            unique_word_used_once_count: m.unique_word_used_once_count,
            unique_kanji_count: m.unique_kanji_count,
            unique_kanji_used_once_count: m.unique_kanji_used_once_count,
            difficulty: m.difficulty,
            difficulty_raw: m.difficulty_raw,
            difficulty_algorithmic: m.difficulty_algorithmic,
            speech_duration: m.speech_duration,
            speech_mora_count: m.speech_mora_count,
            speech_speed: m.speech_speed,
            distinct_voter_count: m.distinct_voter_count,
            user_adjustment: m.user_adjustment,
        }
    }
}

} // verus!
