//! User configuration (`~/.config/aura/config.toml`, or the path in
//! `AURA_CONFIG`).
//!
//! Precedence: CLI flags > configuration file > environment (`AURA_API_KEY`).
//! Reading and parsing the file is done by the application.

use vstd::prelude::*;

use crate::path::{join, path_join};

verus! {

/// The user configuration.
#[derive(Debug, Clone, PartialEq, Eq)]
pub struct Config {
    /// The OpenAI-compatible endpoint URL.
    pub endpoint: Option<String>,
    /// The model name.
    pub model: Option<String>,
    /// The API key (better given by `AURA_API_KEY` or `--api-key`).
    pub api_key: Option<String>,
}

impl Default for Config {
    /// Nothing set.
    fn default() -> (c: Self)
        ensures
            c.endpoint is None,
            c.model is None,
            c.api_key is None,
    {
        Config { endpoint: None, model: None, api_key: None }
    }
}

/// The path of the configuration file from the environment: `AURA_CONFIG`,
/// else `$XDG_CONFIG_HOME/aura/config.toml`, else `$HOME/.config/aura/config.toml`
/// (`%USERPROFILE%` when `HOME` is unset), else `config.toml`.
pub open spec fn config_path_of(
    aura_config: Option<Seq<char>>,
    xdg_config_home: Option<Seq<char>>,
    home: Option<Seq<char>>,
    userprofile: Option<Seq<char>>,
) -> Seq<char> {
    match aura_config {
        Some(p) => p,
        None => match xdg_config_home {
            Some(x) => join(join(x, "aura"@), "config.toml"@),
            None => match (if home is Some {
                home
            } else {
                userprofile
            }) {
                Some(h) => join(join(join(h, ".config"@), "aura"@), "config.toml"@),
                None => "config.toml"@,
            },
        },
    }
}

impl Config {
    /// The value that applies: the CLI's, else the file's, else the environment's.
    pub fn resolve(cli: Option<String>, config: Option<String>, env_fallback: Option<String>) -> (r:
        Option<String>)
        ensures
            r == (if cli is Some {
                cli
            } else if config is Some {
                config
            } else {
                env_fallback
            }),
    {
        match cli {
            Some(c) => Some(c),
            None => match config {
                Some(c) => Some(c),
                None => env_fallback,
            },
        }
    }

    /// The configuration file's path from the environment variables
    /// `AURA_CONFIG`, `XDG_CONFIG_HOME`, `HOME` and `USERPROFILE`.
    pub fn config_path_from(
        aura_config: Option<String>,
        xdg_config_home: Option<String>,
        home: Option<String>,
        userprofile: Option<String>,
    ) -> (p: String)
        ensures
            p@ == config_path_of(
                match aura_config {
                    Some(s) => Some(s@),
                    None => None,
                },
                match xdg_config_home {
                    Some(s) => Some(s@),
                    None => None,
                },
                match home {
                    Some(s) => Some(s@),
                    None => None,
                },
                match userprofile {
                    Some(s) => Some(s@),
                    None => None,
                },
            ),
    {
        if let Some(p) = aura_config {
            return p;
        }
        if let Some(x) = xdg_config_home {
            let a = path_join(x.as_str(), "aura");
            return path_join(a.as_str(), "config.toml");
        }
        let h = match home {
            Some(h) => Some(h),
            None => userprofile,
        };
        match h {
            Some(h) => {
                let a = path_join(h.as_str(), ".config");
                let b = path_join(a.as_str(), "aura");
                path_join(b.as_str(), "config.toml")
            },
            None => String::from_str("config.toml"),
        }
    }
}

} // verus!
