use stream_ripper::metadata_variables::MetadataVariables;

fn lookup<'a>(templates: &'a [(String, String)], key: &str) -> &'a str {
    templates
        .iter()
        .find(|pair| pair.0 == key)
        .map(|pair| pair.1.as_str())
        .expect("key not present")
}

#[test]
fn test_templates() {
    let stream_url = "https://www.twitch.tv/riketta";
    let timestamp_original = "123456789";
    let templates = MetadataVariables::templates(stream_url, timestamp_original);

    let source = lookup(&templates, "{url}");
    assert_eq!(source, stream_url);

    let source = lookup(&templates, "{source}");
    assert_eq!(source, "riketta");

    let timestamp = lookup(&templates, "{timestamp}");
    assert_eq!(timestamp, timestamp_original);
}

#[test]
fn test_augments() {
    let streamlink_cli = r##"streamlink --logfile "logs\{source}_{timestamp}.log" --output "streams\{author}_{time:%Y%m%d-%H%M%S}.mp4" --default-stream "1080p, 720p, best" --url {url}"##.to_owned();
    let stream_url = "https://www.twitch.tv/riketta";
    let timestamp = "123456789";
    let templates = MetadataVariables::templates(stream_url, timestamp);
    let streamlink_cli = MetadataVariables::augment_cli_with_templates(&streamlink_cli, &templates);

    assert_eq!(
        streamlink_cli,
        r##"streamlink --logfile "logs\riketta_123456789.log" --output "streams\{author}_{time:%Y%m%d-%H%M%S}.mp4" --default-stream "1080p, 720p, best" --url https://www.twitch.tv/riketta"##
    );
}

#[test]
fn test_source_of_plain_name() {
    assert_eq!(MetadataVariables::source_of("riketta"), "riketta");
    assert_eq!(MetadataVariables::source_of(""), "");
    assert_eq!(MetadataVariables::source_of("a/b/c"), "c");
}

#[test]
fn test_replace_all_multiple_hits() {
    let templates = MetadataVariables::templates("https://example.org/chan", "t0");
    let out = MetadataVariables::augment_cli_with_templates("{source} {source} {url}", &templates);
    assert_eq!(out, "chan chan https://example.org/chan");
}

#[test]
fn test_augment_cli_fills_url() {
    let out = MetadataVariables::augment_cli("rec --url {url}", "https://example.org/chan");
    assert!(out.starts_with("rec --url https://example.org/chan"));
    assert!(!out.contains("{url}"));
}
