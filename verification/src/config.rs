//! Settings and the directories in which the tool keeps its state.

use vstd::prelude::*;
use vstd::string::*;
use crate::error::Error;
use crate::path::{join, join_path};

verus! {

/// The settings loaded once per invocation. No setting is recognised yet.
#[derive(Debug, Clone, Copy, PartialEq, Eq, Structural)]
pub struct Config {}

impl Default for Config {
    fn default() -> (config: Config)
        ensures
            config == (Config {  }),
    {
        Config {  }
    }
}

/// What the TOML parser objects to in `document`, in its own words; `None`
/// where `document` is a well-formed TOML document.
pub uninterp spec fn toml_complaint(document: Seq<char>) -> Option<Seq<char>>;

/// Has `document` read as TOML and hands back the parser's complaint, if any.
///
/// Calls `toml::from_str`, to a value that keeps nothing of what it reads (as
/// settings without fields do), and turns the error into its message. Nothing
/// here is proved. The contract claims one thing of toml: that the outcome
/// depends on the document alone, so that it has a name, `toml_complaint`.
#[verifier::external_body]
pub(crate) fn toml_check(document: &str) -> (complaint: Option<String>)
    ensures
        complaint.deep_view() == toml_complaint(document@),
{
    match toml::from_str::<serde::de::IgnoredAny>(document) {
        Ok(_) => None,
        Err(e) => Some(e.to_string()),
    }
}

/// The platform's directory for configuration files, where the user's home
/// directory can be found and the directory's name is valid text.
///
/// Calls `directories::BaseDirs::new` and `config_dir` on the result. Nothing
/// here is proved, and nothing is claimed: the answer depends on the machine
/// and on the environment.
#[verifier::external_body]
pub(crate) fn platform_config_dir() -> (dir: Option<String>) {
    Some(directories::BaseDirs::new()?.config_dir().to_str()?.to_string())
}

/// The platform's directory for data files, where the user's home directory
/// can be found and the directory's name is valid text.
///
/// Calls `directories::BaseDirs::new` and `data_dir` on the result. Nothing
/// here is proved, and nothing is claimed: the answer depends on the machine
/// and on the environment.
#[verifier::external_body]
pub(crate) fn platform_data_dir() -> (dir: Option<String>) {
    Some(directories::BaseDirs::new()?.data_dir().to_str()?.to_string())
}

/// The base directory to use: `override_dir`, the value of the environment's
/// override, where there is one, else the platform's own.
pub open spec fn base_dir(override_dir: Option<Seq<char>>, platform_dir: Option<Seq<char>>)
    -> Option<Seq<char>> {
    match override_dir {
        Some(dir) => Some(dir),
        None => platform_dir,
    }
}

/// The settings, given the parser's verdict on the settings file: `None` where
/// it had no complaint.
pub fn config_from(complaint: Option<String>) -> (result: Result<Config, Error>)
    ensures
        match complaint {
            None => result == Ok::<Config, Error>(Config {  }),
            Some(text) => result == Err::<Config, Error>(Error::ConfigLoad(text)),
        },
{
    match complaint {
        None => Ok(Config {  }),
        Some(text) => Err(Error::ConfigLoad(text)),
    }
}

/// Loads the settings. `document` is what the settings file holds, or `None`
/// if there is no such file, which gives the default settings. A file that is
/// not well-formed TOML gives `Error::ConfigLoad` with the parser's complaint.
pub fn load_config(document: Option<&str>) -> (result: Result<Config, Error>)
    ensures
        match document {
            None => result == Ok::<Config, Error>(Config {  }),
            Some(text) => match toml_complaint(text@) {
                None => result == Ok::<Config, Error>(Config {  }),
                Some(complaint) => result matches Err(Error::ConfigLoad(said)) && said@
                    == complaint,
            },
        },
{
    match document {
        None => Ok(Config {  }),
        Some(text) => config_from(toml_check(text)),
    }
}

/// The settings to run with: those that were loaded, or the default ones where
/// loading failed, together with the failure to warn the user of.
pub fn config_or_default(loaded: Result<Config, Error>) -> (settled: (Config, Option<Error>))
    ensures
        match loaded {
            Ok(config) => settled == (config, None::<Error>),
            Err(e) => settled == (Config {  }, Some(e)),
        },
{
    match loaded {
        Ok(config) => (config, None),
        Err(e) => (Config {  }, Some(e)),
    }
}

/// Picks the base directory: the override where there is one, else the
/// platform's.
pub fn choose_base_dir(override_dir: Option<&str>, platform_dir: Option<String>) -> (dir: Option<
    String,
>)
    ensures
        dir.deep_view() == base_dir(override_dir.deep_view(), platform_dir.deep_view()),
{
    match override_dir {
        Some(dir) => Some(String::from_str(dir)),
        None => platform_dir,
    }
}

/// The directory that holds the tool's settings and registry: `walnut` under
/// `xdg_config_home`, the value of the environment variable `XDG_CONFIG_HOME`,
/// or, where that is not set, under the platform's configuration directory.
/// `None` where neither is to be had.
pub fn config_dir(xdg_config_home: Option<&str>) -> (dir: Option<String>)
    ensures
        match xdg_config_home {
            Some(home) => dir.deep_view() == Some(join(home@, "walnut"@)),
            None => dir matches Some(d) ==> exists|platform: Seq<char>|
                d@ == #[trigger] join(platform, "walnut"@),
        },
{
    let platform = match xdg_config_home {
        Some(_) => None,
        None => platform_config_dir(),
    };
    match choose_base_dir(xdg_config_home, platform) {
        Some(base) => Some(join_path(base.as_str(), "walnut")),
        None => None,
    }
}

/// The directory under which repositories are kept by default:
/// `xdg_data_home`, the value of the environment variable `XDG_DATA_HOME`, or,
/// where that is not set, the platform's data directory. `None` where neither
/// is to be had.
pub fn data_dir(xdg_data_home: Option<&str>) -> (dir: Option<String>)
    ensures
        xdg_data_home matches Some(home) ==> dir.deep_view() == Some(home@),
{
    let platform = match xdg_data_home {
        Some(_) => None,
        None => platform_data_dir(),
    };
    choose_base_dir(xdg_data_home, platform)
}

/// The settings file in the configuration directory `config_dir`.
pub fn config_file(config_dir: &str) -> (path: String)
    ensures
        path@ == join(config_dir@, "config.toml"@),
{
    join_path(config_dir, "config.toml")
}

} // verus!
