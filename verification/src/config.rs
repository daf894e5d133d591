//! The server's configuration.

use vstd::prelude::*;
use vstd::string::StringExecFns;
use crate::logger::LogLevel;

verus! {

/// Where the server's configuration is looked for unless a path is given.
pub const CONFIG_PATH: &'static str = "~/.config/taskmeiker/server.toml";

/// The address the server listens on unless the configuration says more.
pub const SERVER_ADDR: &'static str = "127.0.0.1:14242";

/// The directories that service definitions are loaded from.
#[derive(Debug)]
pub struct Include {
    pub paths: Vec<String>,
}

/// The services that are started with the server.
#[derive(Debug)]
pub struct Start {
    pub services: Vec<String>,
}

/// The server's configuration.
#[derive(Debug)]
pub struct Config {
    pub config_path: String,
    pub server_addr: String,
    pub logs: Option<String>,
    pub syslog: bool,
    pub log_level: LogLevel,
    pub includes: Include,
    pub start: Start,
}

/// Why no configuration was loaded.
#[derive(Debug)]
pub enum ConfigError {
    /// The file that was asked for does not exist.
    Missing(String),
}

/// Whether the configuration is the one that is written where none exists.
pub open spec fn is_default(config: Config, config_path: Seq<char>) -> bool {
    &&& config.config_path@ == config_path
    &&& config.server_addr@ == SERVER_ADDR@
    &&& config.logs is None
    &&& !config.syslog
    &&& config.log_level == LogLevel::Info
    &&& config.includes.paths@.len() == 0
    &&& config.start.services@.len() == 0
}

impl Config {
    /// The file to load the configuration from and whether it was asked
    /// for: the path given, or else the default path under `home`.
    pub fn locate(path: Option<String>, home: Option<&str>) -> (place: (String, bool))
        ensures
            match path {
                Some(given) => place.0 == given && place.1,
                None => !place.1 && place.0@ == crate::dir_utils::expanded(
                    CONFIG_PATH@,
                    match home {
                        Some(base) => Some(base@),
                        None => None,
                    },
                ),
            },
    {
        match path {
            Some(given) => (given, true),
            None => (crate::dir_utils::expand_home_dir(CONFIG_PATH, home), false),
        }
    }

    /// The configuration that is written where none exists.
    pub fn defaults(config_path: String) -> (config: Config)
        ensures
            is_default(config, config_path@),
    {
        Config {
            config_path,
            server_addr: String::from_str(SERVER_ADDR),
            logs: None,
            syslog: false,
            log_level: LogLevel::Info,
            includes: Include { paths: Vec::new() },
            start: Start { services: Vec::new() },
        }
    }

    /// Settles the configuration once the file `config_file` was looked
    /// for. `found` is what the file holds, if it exists. A missing file
    /// that was asked for is an error; a missing default file gives the
    /// default configuration, and the flag says that it is to be written.
    pub fn load(given: bool, config_file: String, found: Option<Config>) -> (loaded: Result<
        (Config, bool),
        ConfigError,
    >)
        ensures
            match (found, loaded) {
                (Some(read), Ok((config, created))) => {
                    &&& !created
                    &&& config.config_path == config_file
                    &&& config.server_addr == read.server_addr
                    &&& config.logs == read.logs
                    &&& config.syslog == read.syslog
                    &&& config.log_level == read.log_level
                    &&& config.includes == read.includes
                    &&& config.start == read.start
                },
                (None, Ok((config, created))) => !given && created && is_default(
                    config,
                    config_file@,
                ),
                (None, Err(ConfigError::Missing(file))) => given && file == config_file,
                _ => false,
            },
    {
        match found {
            Some(read) => Ok(
                (
                    Config {
                        config_path: config_file,
                        server_addr: read.server_addr,
                        logs: read.logs,
                        syslog: read.syslog,
                        log_level: read.log_level,
                        includes: read.includes,
                        start: read.start,
                    },
                    false,
                ),
            ),
            None => {
                if given {
                    Err(ConfigError::Missing(config_file))
                } else {
                    Ok((Config::defaults(config_file), true))
                }
            },
        }
    }

    /// The directories that service definitions are loaded from.
    pub fn get_includes(&self) -> (paths: &Vec<String>)
        ensures
            *paths == self.includes.paths,
    {
        &self.includes.paths
    }

    /// The aliases of the services that are started with the server.
    pub fn get_start(&self) -> (services: &Vec<String>)
        ensures
            *services == self.start.services,
    {
        &self.start.services
    }
}

} // verus!
