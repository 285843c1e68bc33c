//! The stored configuration: one optional API key.

use vstd::prelude::*;

verus! {

/// The name of the configuration file inside the per-user configuration
/// directory.
pub const CONFIG_FILE_NAME: &'static str = "config.json";

/// The configuration of the application.
#[derive(Debug)]
pub struct Config {
    pub openai_api_key: Option<String>,
}

impl Default for Config {
    /// The configuration of a fresh installation: no key.
    fn default() -> (r: Self)
        ensures
            r.openai_api_key is None,
    {
        Config { openai_api_key: None }
    }
}

/// What loading the configuration comes to.
#[derive(Debug)]
pub struct Loaded {
    /// The configuration in force.
    pub config: Config,
    /// Whether the configuration file has yet to be written.
    pub create_file: bool,
}

impl Config {
    /// Settles a load. `stored` is what the configuration file held, or
    /// `None` where there is no file yet: then the defaults are in force and
    /// the file is to be created with them.
    pub fn resolve(stored: Option<Config>) -> (r: Loaded)
        ensures
            match stored {
                Some(config) => r.config == config && !r.create_file,
                None => r.config.openai_api_key is None && r.create_file,
            },
    {
        match stored {
            Some(config) => Loaded { config, create_file: false },
            None => Loaded { config: Config::default(), create_file: true },
        }
    }

    /// Replaces the API key.
    pub fn set_openai_api_key(&mut self, api_key: String)
        ensures
            final(self).openai_api_key == Some(api_key),
    {
        self.openai_api_key = Some(api_key);
    }
}

} // verus!
