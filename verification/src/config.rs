//! Settings read from the environment.
use vstd::prelude::*;
use crate::consts::DATA_FOLDER;

verus! {

/// Where the pipeline finds its services and keeps its files.
pub struct Config {
    pub anilist_api_url: String,
    pub jiten_api_url: String,
    pub jiten_api_key: String,
    pub data_folder: String,
    /// `MEILI_URL`, when set; only the index stage needs it.
    pub meili_url: Option<String>,
    /// `MEILI_MASTER_KEY`, when set; only the index stage needs it.
    pub meili_master_key: Option<String>,
}

/// The environment variables that must be set.
#[derive(Debug, Clone, Copy, PartialEq, Eq, Structural)]
pub enum ConfigVar {
    AnilistApiUrl,
    JitenApiUrl,
    JitenApiKey,
}

impl ConfigVar {
    /// The variable's name in the environment.
    pub fn name(&self) -> (r: &'static str)
        ensures
            r@ == self.spec_name(),
    {
        match self {
            ConfigVar::AnilistApiUrl => "ANILIST_API_URL",
            ConfigVar::JitenApiUrl => "JITEN_API_URL",
            ConfigVar::JitenApiKey => "JITEN_API_KEY",
        }
    }

    pub open spec fn spec_name(&self) -> Seq<char> {
        match self {
            ConfigVar::AnilistApiUrl => "ANILIST_API_URL"@,
            ConfigVar::JitenApiUrl => "JITEN_API_URL"@,
            ConfigVar::JitenApiKey => "JITEN_API_KEY"@,
        }
    }
}

/// A required variable is not set.
#[derive(Debug, Clone, Copy, PartialEq, Eq, Structural)]
pub enum ConfigError {
    Missing(ConfigVar),
}

pub open spec fn opt_view(s: Option<String>) -> Option<Seq<char>> {
    match s {
        Some(s) => Some(s@),
        None => None,
    }
}

impl Config {
    /// Builds the configuration from the values of the environment variables
    /// `ANILIST_API_URL`, `JITEN_API_URL`, `JITEN_API_KEY`, `DATA_FOLDER`,
    /// `MEILI_URL` and `MEILI_MASTER_KEY`, `None` standing for an unset one.
    /// The first three are required and the first unset one, in that order,
    /// is reported; `DATA_FOLDER` falls back to [`DATA_FOLDER`]; the
    /// Meilisearch settings are kept as they are, set or not.
    pub fn from_vars(
        anilist_api_url: Option<String>,
        jiten_api_url: Option<String>,
        jiten_api_key: Option<String>,
        data_folder: Option<String>,
        meili_url: Option<String>,
        meili_master_key: Option<String>,
    ) -> (r: Result<Config, ConfigError>)
        ensures
            anilist_api_url is None ==> r == Err::<Config, _>(
                ConfigError::Missing(ConfigVar::AnilistApiUrl),
            ),
            anilist_api_url is Some && jiten_api_url is None ==> r == Err::<Config, _>(
                ConfigError::Missing(ConfigVar::JitenApiUrl),
            ),
            anilist_api_url is Some && jiten_api_url is Some && jiten_api_key is None ==> r == Err::<
                Config,
                _,
            >(ConfigError::Missing(ConfigVar::JitenApiKey)),
            r is Ok <==> (anilist_api_url is Some && jiten_api_url is Some && jiten_api_key is Some),
            r matches Ok(c) ==> {
                &&& Some(c.anilist_api_url@) == opt_view(anilist_api_url)
                &&& Some(c.jiten_api_url@) == opt_view(jiten_api_url)
                &&& Some(c.jiten_api_key@) == opt_view(jiten_api_key)
                &&& c.meili_url == meili_url
                &&& c.meili_master_key == meili_master_key
                &&& c.data_folder@ == (match data_folder {
                    Some(d) => d@,
                    None => DATA_FOLDER@,
                })
            },
    {
        let anilist_api_url = match anilist_api_url {
            Some(v) => v,
            None => return Err(ConfigError::Missing(ConfigVar::AnilistApiUrl)),
        };
        let jiten_api_url = match jiten_api_url {
            Some(v) => v,
            None => return Err(ConfigError::Missing(ConfigVar::JitenApiUrl)),
        };
        let jiten_api_key = match jiten_api_key {
            Some(v) => v,
            None => return Err(ConfigError::Missing(ConfigVar::JitenApiKey)),
        };
        let data_folder = match data_folder {
            Some(v) => v,
            None => String::from_str(DATA_FOLDER),
        };
        Ok(
            Config {
                anilist_api_url,
                jiten_api_url,
                jiten_api_key,
                data_folder,
                meili_url,
                meili_master_key,
            },
        )
    }
}

/// The log filter used when `RUST_LOG` is not set: debug output for the
/// crate when the `-d` flag was given exactly once, informational output
/// otherwise.
pub fn default_log_filter(debug: u8) -> (r: &'static str)
    ensures
        debug == 1 ==> r@ == "atlas=debug"@,
        debug != 1 ==> r@ == "atlas=info"@,
{
    if debug == 1 {
        "atlas=debug"
    } else {
        "atlas=info"
    }
}

} // verus!
