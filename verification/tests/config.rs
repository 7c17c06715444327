use stream_ripper::config::Config;
use stream_ripper::config::ConfigError;
use stream_ripper::config::LoadOutcome;
use stream_ripper::config::LogLevel;

#[test]
fn test_default_config() {
    let config = Config::default();
    assert_eq!(config.log_level, LogLevel::Info);
    assert_eq!(config.logs_folder, "logs");
    assert!(config.stream_urls.is_empty());
    assert!(config.streamlink_cli.starts_with("streamlink --force"));
    assert!(config.streamlink_cli.contains("{url}"));
}

#[test]
#[should_panic]
fn test_empty_config_path() {
    Config::load_or_default("", LoadOutcome::Missing).unwrap();
}

#[test]
fn test_empty_path_is_refused() {
    let result = Config::load_or_default("", LoadOutcome::Missing);
    assert_eq!(result.err(), Some(ConfigError::EmptyPath));
}

#[test]
fn test_missing_config_is_default() {
    let result = Config::load_or_default("config.toml", LoadOutcome::Missing);
    let config = result.expect("a missing file must yield the default");
    assert_eq!(config.log_level, Config::default().log_level);
    assert_eq!(config.logs_folder, Config::default().logs_folder);
    assert_eq!(config.stream_urls, Config::default().stream_urls);
    assert_eq!(config.streamlink_cli, Config::default().streamlink_cli);
}

#[test]
fn test_unreadable_config_is_error() {
    let result = Config::load_or_default("config.toml", LoadOutcome::Unreadable);
    assert_eq!(result.err(), Some(ConfigError::Invalid));
}

#[test]
fn test_parsed_config_is_kept() {
    let parsed = Config {
        log_level: LogLevel::Trace,
        logs_folder: String::from("elsewhere"),
        stream_urls: vec![String::from("https://example.org/a")],
        streamlink_cli: String::from("capture {url}"),
    };
    let result = Config::load_or_default("config.toml", LoadOutcome::Parsed(parsed));
    let config = result.expect("a parsed file must be kept");
    assert_eq!(config.log_level, LogLevel::Trace);
    assert_eq!(config.logs_folder, "elsewhere");
    assert_eq!(config.stream_urls, vec![String::from("https://example.org/a")]);
    assert_eq!(config.streamlink_cli, "capture {url}");
}
