use atlas::config::{default_log_filter, Config, ConfigError, ConfigVar};
use atlas::consts::DATA_FOLDER;
use atlas::meilisearch::client::{
    desired_settings, index_creation_outcome, settings_match, CreateIndexTask, IndexCreation,
    IndexSettings, MeiliError, INDEX_ANIMES, PRIMARY_KEY,
};

fn s(v: &str) -> Option<String> {
    Some(v.to_string())
}

#[test]
fn config_reports_the_first_missing_variable() {
    let r = Config::from_vars(None, None, None, None, None, None);
    assert_eq!(r.err(), Some(ConfigError::Missing(ConfigVar::AnilistApiUrl)));
    let r = Config::from_vars(s("a"), None, s("k"), None, s("m"), s("mk"));
    assert_eq!(r.err(), Some(ConfigError::Missing(ConfigVar::JitenApiUrl)));
    let r = Config::from_vars(s("a"), s("j"), None, None, s("m"), s("mk"));
    assert_eq!(r.err(), Some(ConfigError::Missing(ConfigVar::JitenApiKey)));
}

#[test]
fn config_needs_only_the_three_required_variables() {
    let c = Config::from_vars(s("a"), s("j"), s("k"), None, None, None).ok().unwrap();
    assert_eq!(c.anilist_api_url, "a");
    assert_eq!(c.jiten_api_url, "j");
    assert_eq!(c.jiten_api_key, "k");
    assert_eq!(c.data_folder, "data");
    assert_eq!(c.meili_url, None);
    assert_eq!(c.meili_master_key, None);
    let c = Config::from_vars(s("a"), s("j"), s("k"), None, s("m"), None).ok().unwrap();
    assert_eq!(c.meili_url.as_deref(), Some("m"));
    assert_eq!(c.meili_master_key, None);
}

#[test]
fn config_defaults_the_data_folder() {
    let c = Config::from_vars(s("a"), s("j"), s("k"), None, s("m"), s("mk")).ok().unwrap();
    assert_eq!(c.data_folder, "data");
    assert_eq!(DATA_FOLDER, "data");
    assert_eq!(c.anilist_api_url, "a");
    assert_eq!(c.jiten_api_key, "k");
    let c = Config::from_vars(s("a"), s("j"), s("k"), s("/srv"), s("m"), s("mk")).ok().unwrap();
    assert_eq!(c.data_folder, "/srv");
    assert_eq!(c.meili_master_key.as_deref(), Some("mk"));
}

#[test]
fn variable_names() {
    assert_eq!(ConfigVar::AnilistApiUrl.name(), "ANILIST_API_URL");
    assert_eq!(ConfigVar::JitenApiKey.name(), "JITEN_API_KEY");
    assert_eq!(ConfigVar::JitenApiUrl.name(), "JITEN_API_URL");
}

#[test]
fn log_filter_follows_the_debug_flag() {
    assert_eq!(default_log_filter(0), "atlas=info");
    assert_eq!(default_log_filter(1), "atlas=debug");
    assert_eq!(default_log_filter(2), "atlas=info");
}

fn list(v: &[&str]) -> Option<Vec<String>> {
    Some(v.iter().map(|x| x.to_string()).collect())
}

#[test]
fn desired_settings_lists() {
    let d = desired_settings();
    assert_eq!(d.searchable_attributes, list(&["id", "title.english", "title.romaji", "title.native", "synonyms"]));
    assert_eq!(d.filterable_attributes, list(&["genres", "status", "season", "seasonYear", "format", "popularity"]));
    assert_eq!(
        d.sortable_attributes,
        list(&[
            "language_stats.wordCount",
            "language_stats.unique_kanji_count",
            "language_stats.difficulty",
            "language_stats.speechDuration",
            "language_stats.speechSpeed",
        ])
    );
    assert_eq!(INDEX_ANIMES, "animes");
    assert_eq!(PRIMARY_KEY, "id");
}

#[test]
fn settings_match_ignores_order() {
    let d = desired_settings();
    assert!(settings_match(&d, &d));
    let shuffled = IndexSettings {
        searchable_attributes: list(&["synonyms", "id", "title.native", "title.romaji", "title.english"]),
        filterable_attributes: list(&["popularity", "format", "seasonYear", "season", "status", "genres"]),
        sortable_attributes: list(&[
            "language_stats.speechSpeed",
            "language_stats.wordCount",
            "language_stats.difficulty",
            "language_stats.unique_kanji_count",
            "language_stats.speechDuration",
        ]),
    };
    assert!(settings_match(&shuffled, &d));
    assert!(settings_match(&d, &shuffled));
}

#[test]
fn settings_match_sees_missing_extra_and_repeated_names() {
    let d = desired_settings();
    let mut fewer = desired_settings();
    fewer.sortable_attributes = list(&["language_stats.wordCount"]);
    assert!(!settings_match(&fewer, &d));
    let mut more = desired_settings();
    more.filterable_attributes = list(&["genres", "status", "season", "seasonYear", "format", "popularity", "id"]);
    assert!(!settings_match(&more, &d));
    let a = IndexSettings { searchable_attributes: list(&["id", "id", "x"]), filterable_attributes: None, sortable_attributes: None };
    let b = IndexSettings { searchable_attributes: list(&["id", "x", "x"]), filterable_attributes: None, sortable_attributes: None };
    assert!(!settings_match(&a, &b));
    let none = IndexSettings { searchable_attributes: None, filterable_attributes: None, sortable_attributes: None };
    let empty = IndexSettings { searchable_attributes: list(&[]), filterable_attributes: list(&[]), sortable_attributes: list(&[]) };
    assert!(settings_match(&none, &empty));
    assert!(!settings_match(&none, &d));
}

#[test]
fn index_creation_outcomes() {
    assert_eq!(index_creation_outcome(CreateIndexTask::Succeeded).ok(), Some(IndexCreation::Created));
    assert_eq!(index_creation_outcome(CreateIndexTask::AlreadyExists).ok(), Some(IndexCreation::AlreadyExisted));
    assert_eq!(index_creation_outcome(CreateIndexTask::Pending).ok(), Some(IndexCreation::NotFinished));
    match index_creation_outcome(CreateIndexTask::Failed { message: "bad key".to_string() }) {
        Err(MeiliError::CreateIndexFailed { message }) => assert_eq!(message, "bad key"),
        _ => panic!("expected a failure"),
    }
}
