use stream_ripper::cli_args::CliArgs;
use stream_ripper::cli_args::tokenize_str;

#[test]
fn test_args_splitter() {
    assert_eq!("".split_as_args(), [""]);
    assert_eq!("\"".split_as_args(), [""]);
    assert_eq!("\\".split_as_args(), ["\\"]);
    assert_eq!("\\ \\".split_as_args(), ["\\", "\\"]);
    assert_eq!("hello world".split_as_args(), ["hello", "world"]);
    assert_eq!("he said 'hi'".split_as_args(), ["he", "said", "'hi'"]);
    assert_eq!("a   b c".split_as_args(), ["a", "b", "c"]);
    assert_eq!(
        "this is \"probably another\" test".split_as_args(),
        ["this", "is", "probably another", "test"]
    );

    assert_eq!(
        r#""streamlink.exe" --loglevel info --player "C:\Users\Weird User Name\AppData\Local\Programs\mpv.net\mpvnet.exe" --twitch-disable-ads --default-stream "1080p, 720p, best" --url https://www.twitch.tv/theprimeagen"#.split_as_args(),
        ["streamlink.exe", "--loglevel", "info", "--player", r#"C:\Users\Weird User Name\AppData\Local\Programs\mpv.net\mpvnet.exe"#, "--twitch-disable-ads", "--default-stream", "1080p, 720p, best", "--url", "https://www.twitch.tv/theprimeagen"]
    );

    assert_eq!(
        r#".\ffmpeg.exe -ss 00:09:15 -i "Xilem: Let's Build High Performance Rust UI - Raph Levien [OvfNipIcRiQ].webm" -t 00:00:59 -map 0:1 track1.wav -map 0:2 "second track.wav""#.split_as_args(),
        [r#".\ffmpeg.exe"#, "-ss", "00:09:15", "-i", "Xilem: Let's Build High Performance Rust UI - Raph Levien [OvfNipIcRiQ].webm", "-t", "00:00:59", "-map", "0:1", "track1.wav", "-map", "0:2", "second track.wav"]
    );
}

#[test]
fn test_split_string_matches_str() {
    let owned = String::from("alpha \"beta gamma\" delta");
    assert_eq!(owned.split_as_args(), "alpha \"beta gamma\" delta".split_as_args());
    assert_eq!(owned.split_as_args(), ["alpha", "beta gamma", "delta"]);
}

#[test]
fn test_split_output_never_empty() {
    for input in ["", " ", "   ", "\"\"", "\\", "a", "  leading", "trailing  "] {
        let args = tokenize_str(input);
        assert!(!args.is_empty(), "input {:?} gave an empty vector", input);
    }
}

#[test]
fn test_split_rejoin_idempotent() {
    for input in ["a   b c", "one two three", "\\ \\", "x", ""] {
        let first = tokenize_str(input);
        let rejoined = first.join(" ");
        let second = tokenize_str(&rejoined);
        assert_eq!(first, second, "re-splitting {:?} changed the tokens", input);
    }
}
