//! Loading and preparing the configuration.

use crate::domain::config::{
    default_with, is_default_config_file, is_default_trash_path, sibling_dir, Config,
};
use crate::domain::file_meta::texts;
use vstd::prelude::*;

verus! {

/// Manager for application configuration.
#[derive(Clone, Copy, Debug, PartialEq, Eq)]
pub struct ConfigManager;

impl ConfigManager {
    /// The configuration in force: the stored one where the configuration
    /// file holds one, else the default, which is then to be stored.
    pub fn load(stored: Option<Config>) -> (r: Config)
        ensures
            stored matches Some(config) ==> r == config,
            stored is None ==> r@ == default_with(r@.trash_path) && is_default_trash_path(
                r@.trash_path,
            ),
    {
        match stored {
            Some(config) => config,
            None => Config::default(),
        }
    }

    /// The file that the configuration is stored in.
    pub fn save(config: &Config) -> (r: String)
        ensures
            is_default_config_file(r@),
    {
        Config::config_file_path()
    }

    /// The directories to create before the configuration is used.
    pub fn initialize(config: &Config) -> (r: Vec<String>)
        ensures
            r@.len() == 3 || r@.len() == 4,
            texts(r@).take(3) == seq![
                config@.trash_path,
                sibling_dir(config@.trash_path, "metadata"@),
                sibling_dir(config@.trash_path, "logs"@),
            ],
    {
        let file = Config::config_file_path();
        let r = config.ensure_directories(file.as_str());
        assert(texts(r@).len() == r@.len());
        assert(texts(r@).take(3) =~= seq![
            config@.trash_path,
            sibling_dir(config@.trash_path, "metadata"@),
            sibling_dir(config@.trash_path, "logs"@),
        ]);
        r
    }
}

} // verus!
