use vstd::prelude::*;

verus! {

/// The verbosity threshold for the log, mirroring the usual six levels.
#[derive(Clone, Copy, PartialEq, Eq, Structural, Debug)]
pub enum LogLevel {
    Off,
    Error,
    Warn,
    Info,
    Debug,
    Trace,
}

/// The persisted settings: log verbosity, where log files go, which
/// streams to supervise, and the raw command template used to capture
/// each of them.
#[derive(Clone, Debug)]
pub struct Config {
    pub log_level: LogLevel,
    pub logs_folder: String,
    pub stream_urls: Vec<String>,
    pub streamlink_cli: String,
}

/// What was found on disk at the configuration path: no file at all, a
/// file that could not be read or parsed, or a parsed configuration.
pub enum LoadOutcome {
    Missing,
    Unreadable,
    Parsed(Config),
}

/// Why a configuration could not be produced: the path was empty, or
/// the file was there but could not be read or parsed.
#[derive(Clone, Copy, PartialEq, Eq, Structural, Debug)]
pub enum ConfigError {
    EmptyPath,
    Invalid,
}

/// The command template the configuration starts out with.
pub open spec fn default_cli_chars() -> Seq<char> {
    "streamlink --force --logfile \"logs\\{source}_{timestamp}.log\" --output \"streams\\{author}_{time:%Y%m%d-%H%M%S}.mp4\" --progress no --twitch-disable-ads --default-stream \"1080p, 720p, best\" --url {url}"@
}

/// The configuration every field of which has its starting value.
pub open spec fn is_default_config(c: Config) -> bool {
    &&& c.log_level == LogLevel::Info
    &&& c.logs_folder@ == "logs"@
    &&& c.stream_urls@.len() == 0
    &&& c.streamlink_cli@ == default_cli_chars()
}

impl Default for Config {
    fn default() -> (c: Self)
        ensures
            is_default_config(c),
    {
        Config {
            log_level: LogLevel::Info,
            logs_folder: "logs".to_owned(),
            stream_urls: Vec::new(),
            streamlink_cli:
                "streamlink --force --logfile \"logs\\{source}_{timestamp}.log\" --output \"streams\\{author}_{time:%Y%m%d-%H%M%S}.mp4\" --progress no --twitch-disable-ads --default-stream \"1080p, 720p, best\" --url {url}".to_owned(),
        }
    }
}

impl Config {
    /// Decides what configuration to use for the file found (or not
    /// found) at `config_path`: an empty path is refused, a missing
    /// file yields the default (to be written back), an unreadable
    /// file is an error, and a parsed file is taken as it is.
    pub fn load_or_default(config_path: &str, on_disk: LoadOutcome) -> (r: Result<
        Config,
        ConfigError,
    >)
        ensures
            config_path@.len() == 0 ==> r == Err::<Config, ConfigError>(ConfigError::EmptyPath),
            config_path@.len() > 0 ==> match on_disk {
                LoadOutcome::Missing => r matches Ok(c) && is_default_config(c),
                LoadOutcome::Unreadable => r == Err::<Config, ConfigError>(ConfigError::Invalid),
                LoadOutcome::Parsed(c) => r == Ok::<Config, ConfigError>(c),
            },
    {
        if config_path.is_empty() {
            return Err(ConfigError::EmptyPath);
        }
        match on_disk {
            LoadOutcome::Missing => Ok(Config::default()),
            LoadOutcome::Unreadable => Err(ConfigError::Invalid),
            LoadOutcome::Parsed(c) => Ok(c),
        }
    }
}

} // verus!
