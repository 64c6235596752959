use std::collections::HashMap;

use atlas::anilist::types::Media as AnilistMedia;
use atlas::config::Config;
use atlas::jiten::client::{media_by_deck, Client as JitenClient, JitenError};
use atlas::jiten::types::{LanguageStats, LinkObject, LinkType, Media as JitenMedia, TagObject};
use atlas::merge::types::LoadDataResponse;
use atlas::merge::Merge;

fn config() -> Config {
    Config::from_vars(
        Some("https://graphql.anilist.co".to_string()),
        Some("https://jiten.moe".to_string()),
        Some("key".to_string()),
        None,
        Some("http://localhost:7700".to_string()),
        Some("master".to_string()),
    )
    .ok()
    .expect("complete config")
}

fn link(link_type: i32, url: &str) -> LinkObject {
    LinkObject { link_id: 1, link_type, url: url.to_string(), deck_id: 0 }
}

fn deck(deck_id: i64, links: Vec<LinkObject>) -> JitenMedia {
    JitenMedia {
        creation_date: "2024-01-01".to_string(),
        release_date: "2023-04-01".to_string(),
        cover_name: "cover.jpg".to_string(),
        media_type: 1,
        genres: vec![1, 2],
        original_title: "原題".to_string(),
        romaji_title: "Gendai".to_string(),
        english_title: None,
        description: String::new(),
        deck_id,
        word_count: 1000 + deck_id,
        unique_word_count: 300,
        unique_word_used_once_count: 100,
        unique_kanji_count: 250,
        unique_kanji_used_once_count: 40,
        difficulty: 2.5f64.to_bits(),
        difficulty_raw: 2.75f64.to_bits(),
        difficulty_algorithmic: 3.0f64.to_bits(),
        speech_duration: 1440.0f64.to_bits(),
        speech_mora_count: 9000,
        speech_speed: 6.25f64.to_bits(),
        distinct_voter_count: 3,
        user_adjustment: (-0.5f64).to_bits(),
        sentence_count: 80,
        difficulty_override: 0.0f64.to_bits(),
        average_sentence_length: 12.5f64.to_bits(),
        parent_deck_id: None,
        links,
        aliases: vec![],
        dictionary_entries: vec![],
        relationships: vec!["{\"id\":3}".to_string()],
        children_deck_count: 0,
        selected_word_occurrences: 0,
        dialogue_percentage: 55.0f64.to_bits(),
        hide_dialogue_percentage: false,
        hide_average_sentence_length: false,
        coverage: 0.0f64.to_bits(),
        unique_coverage: 0.0f64.to_bits(),
        young_coverage: 0.0f64.to_bits(),
        young_unique_coverage: 0.0f64.to_bits(),
        external_rating: 7.5f64.to_bits(),
        example_sentence: None,
        tags: vec![TagObject { tag_id: 1, name: "school".to_string(), percentage: 90.0f64.to_bits() }],
        status: None,
        is_favourite: None,
        is_ignored: None,
        original_file_name: None,
    }
}

fn anime(id: i32) -> AnilistMedia {
    AnilistMedia {
        id,
        id_mal: Some(id + 1000),
        title: None,
        cover_image: None,
        format: None,
        status: None,
        season: None,
        season_year: Some(2020),
        synonyms: None,
        banner_image: None,
        description: Some(format!("anime {id}")),
        episodes: None,
        duration: None,
        genres: Some(vec![Some("Drama".to_string())]),
        average_score: None,
        popularity: Some(10),
        start_date: None,
        end_date: None,
        updated_at: Some(5),
    }
}

#[test]
fn link_type_values() {
    assert_eq!(LinkType::Web.value(), 1);
    assert_eq!(LinkType::Anilist.value(), 4);
    assert_eq!(LinkType::Mal.value(), 5);
    assert_eq!(LinkType::Amazon.value(), 11);
}

#[test]
fn extract_anilist_id_reads_the_last_segment() {
    let c = JitenClient::new(&config());
    assert_eq!(c.extract_anilist_id("https://anilist.co/anime/21"), Ok(21));
    assert_eq!(c.extract_anilist_id("https://anilist.co/anime/21/"), Ok(21));
    assert_eq!(c.extract_anilist_id("https://anilist.co/anime/21///"), Ok(21));
    assert_eq!(c.extract_anilist_id("154587"), Ok(154587));
    assert_eq!(c.extract_anilist_id("https://anilist.co/anime/-3"), Ok(-3));
    assert_eq!(c.extract_anilist_id("https://anilist.co/anime/+8"), Ok(8));
    assert_eq!(c.extract_anilist_id("-9223372036854775808"), Ok(i64::MIN));
}

#[test]
fn extract_anilist_id_rejects_a_non_numeric_segment() {
    let c = JitenClient::new(&config());
    assert_eq!(c.extract_anilist_id("https://anilist.co/anime/21/Frieren"), Err(JitenError::InvalidAnilistId));
    assert_eq!(c.extract_anilist_id(""), Err(JitenError::InvalidAnilistId));
    assert_eq!(c.extract_anilist_id("///"), Err(JitenError::InvalidAnilistId));
    assert_eq!(c.extract_anilist_id("https://anilist.co/anime/99999999999999999999"), Err(JitenError::InvalidAnilistId));
    assert_eq!(c.extract_anilist_id("https://anilist.co/anime/ 21"), Err(JitenError::InvalidAnilistId));
    assert_eq!(c.extract_anilist_id("https://anilist.co/anime/-"), Err(JitenError::InvalidAnilistId));
}

#[test]
fn anilist_map_uses_the_first_anilist_link_and_the_last_deck() {
    let c = JitenClient::new(&config());
    let media = vec![
        deck(10, vec![link(5, "https://myanimelist.net/anime/1"), link(4, "https://anilist.co/anime/1/")]),
        deck(11, vec![link(4, "https://anilist.co/anime/2"), link(4, "https://anilist.co/anime/3")]),
        deck(12, vec![link(4, "https://anilist.co/anime/oops")]),
        deck(13, vec![link(1, "https://example.com/4")]),
        deck(14, vec![link(4, "https://anilist.co/anime/1")]),
    ];
    let map = c.build_anilist_map(&media);
    let mut expected = HashMap::new();
    expected.insert(1i64, 14i64);
    expected.insert(2i64, 11i64);
    assert_eq!(map, expected);
}

#[test]
fn language_stats_copy_the_deck_statistics() {
    let d = deck(7, vec![]);
    let s = LanguageStats::from(&d);
    assert_eq!(s.deck_id, 7);
    assert_eq!(s.word_count, 1007);
    assert_eq!(f64::from_bits(s.difficulty), 2.5);
    assert_eq!(f64::from_bits(s.speech_speed), 6.25);
    assert_eq!(f64::from_bits(s.user_adjustment), -0.5);
    assert_eq!(s.speech_mora_count, 9000);
}

fn load_data() -> LoadDataResponse {
    let mut by_id = HashMap::new();
    by_id.insert(100i64, deck(100, vec![]));
    by_id.insert(200i64, deck(200, vec![]));
    let mut a2j = HashMap::new();
    a2j.insert(1i64, 100i64);
    a2j.insert(3i64, 300i64);
    a2j.insert(4i64, 200i64);
    LoadDataResponse { anilist_media: vec![anime(1), anime(2), anime(3), anime(4)], jiten_media_by_id: by_id, anilist_to_jiten: a2j }
}

#[test]
fn merge_one_joins_through_the_id_map() {
    let data = load_data();
    let m = Merge::merge_one(&data.anilist_media[0], &data.jiten_media_by_id, &data.anilist_to_jiten);
    assert_eq!(m.anime.id, 1);
    assert_eq!(m.anime.description.as_deref(), Some("anime 1"));
    assert_eq!(m.language_stats.map(|s| s.deck_id), Some(100));
    // No entry in the id map.
    let m = Merge::merge_one(&data.anilist_media[1], &data.jiten_media_by_id, &data.anilist_to_jiten);
    assert!(m.language_stats.is_none());
    // An id map entry whose deck is unknown.
    let m = Merge::merge_one(&data.anilist_media[2], &data.jiten_media_by_id, &data.anilist_to_jiten);
    assert!(m.language_stats.is_none());
}

#[test]
fn merge_all_keeps_order_and_counts_matches() {
    let data = load_data();
    let merged = Merge::merge_all(&data);
    assert_eq!(merged.iter().map(|m| m.anime.id).collect::<Vec<_>>(), vec![1, 2, 3, 4]);
    assert_eq!(merged[3].language_stats.map(|s| s.deck_id), Some(200));
    let matched = Merge::count_matched(&merged);
    assert_eq!(matched, 2);
    assert_eq!(merged.len() - matched, 2);
    assert_eq!(Merge::count_matched(&Vec::new()), 0);
}

#[test]
fn merge_new_takes_the_data_folder() {
    let cfg = config();
    let m = Merge::new(
        &cfg,
        atlas::anilist::client::Client::new(&cfg),
        JitenClient::new(&cfg),
    );
    assert_eq!(m.data_folder, "data");
    assert_eq!(m.jiten.api_url, "https://jiten.moe");
    assert_eq!(m.anilist.api_url, "https://graphql.anilist.co");
}

#[test]
fn decks_are_keyed_by_their_deck_id_and_the_last_one_wins() {
    let mut second = deck(7, Vec::new());
    second.description = "later".to_string();
    let by_deck = media_by_deck(vec![deck(7, Vec::new()), deck(9, Vec::new()), second]);
    assert_eq!(by_deck.len(), 2);
    assert_eq!(by_deck[&7].deck_id, 7);
    assert_eq!(by_deck[&7].description, "later");
    assert_eq!(by_deck[&9].deck_id, 9);
    assert!(media_by_deck(Vec::new()).is_empty());
}
