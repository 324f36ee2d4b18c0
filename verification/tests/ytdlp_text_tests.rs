use rockola::paths::join_path;
use rockola::text::{is_alphanumeric, parse_integer_text, to_lowercase};
use rockola::ytdlp::{
    search_command_args, search_error, search_results, search_text, youtube_search_term,
    youtube_url_from_id, yt_dlp_launch_error, yt_dlp_output_lines, ThumbnailEntry, YtDlpEntry,
};

fn entry(id: &str, dur: i64, channel: Option<&str>, uploader: Option<&str>) -> YtDlpEntry {
    YtDlpEntry {
        id: Some(id.to_string()),
        title: None,
        duration_seconds: Some(dur),
        thumbnail: Some(format!("t-{}", id)),
        thumbnails: None,
        uploader: uploader.map(|s| s.to_string()),
        channel_id: channel.map(|s| s.to_string()),
    }
}

#[test]
fn urls_and_terms() {
    assert_eq!(youtube_url_from_id("abc"), "https://www.youtube.com/watch?v=abc");
    assert_eq!(youtube_search_term(20, "  queen "), "ytsearch20:queen");
    assert_eq!(
        search_command_args(20, "queen"),
        vec!["--flat-playlist", "-j", "--no-warnings", "--no-download", "ytsearch20:queen"]
    );
}

#[test]
fn search_errors() {
    assert_eq!(search_error(None, true, ""), None);
    assert_eq!(search_error(None, false, "bad"), Some("yt-dlp error: bad".to_string()));
    let e = search_error(Some("No such file or directory (os error 2)"), false, "").unwrap();
    assert!(e.starts_with("yt-dlp no encontrado o error: No such file"));
    assert!(e.contains("YT_DLP_PATH"));
    assert_eq!(yt_dlp_launch_error("denied"), "yt-dlp no encontrado o error: denied");
}

#[test]
fn search_text_is_trimmed() {
    assert_eq!(search_text(None), None);
    assert_eq!(search_text(Some("   ")), None);
    assert_eq!(search_text(Some(" abba ")), Some("abba".to_string()));
}

#[test]
fn output_lines_are_trimmed_and_non_empty() {
    assert_eq!(yt_dlp_output_lines(" {\"a\":1} \n\n  \n{\"b\":2}"), vec!["{\"a\":1}".to_string(), "{\"b\":2}".to_string()]);
}

#[test]
fn songs_and_artists() {
    let mut es = vec![
        entry("s1", 200, Some("c1"), Some("Queen Official")),
        entry("short", 30, Some("c2"), Some("Queen Fans")),
        entry("long", 3600, Some("c1"), Some("Queen Official")),
        entry("s2", 45, None, None),
        entry("s3", 600, Some("c3"), Some("Other")),
        entry("", 100, Some("c4"), Some("Queen Empty")),
    ];
    es[0].thumbnails = Some(vec![ThumbnailEntry { url: Some("first".into()) }]);
    es[0].title = Some("Bohemian".into());
    let (artists, songs) = search_results(&es, "queen");
    let song_ids: Vec<&str> = songs.iter().map(|s| s.id.as_str()).collect();
    assert_eq!(song_ids, vec!["s1", "s2", "s3"]);
    assert_eq!(songs[0].title, "Bohemian");
    assert_eq!(songs[1].title, "s2");
    assert_eq!(songs[0].thumbnail_url, Some("first".to_string()));
    assert_eq!(songs[0].media_type, "video");
    assert_eq!(songs[0].stream_id, Some("s1".to_string()));
    let names: Vec<&str> = artists.iter().map(|a| a.name.as_str()).collect();
    assert_eq!(names, vec!["Queen Official", "Queen Fans"]);
}

#[test]
fn at_most_eight_artists() {
    let es: Vec<YtDlpEntry> = (0..12).map(|i| entry(&format!("v{}", i), 100, Some(&format!("c{}", i)), Some("Band"))).collect();
    let (artists, songs) = search_results(&es, "band");
    assert_eq!(artists.len(), 8);
    assert_eq!(songs.len(), 12);
}

#[test]
fn integer_parsing() {
    assert_eq!(parse_integer_text("42", false, 0, 65535), Some(42));
    assert_eq!(parse_integer_text("+42", false, 0, 65535), Some(42));
    assert_eq!(parse_integer_text("-1", false, 0, 65535), None);
    assert_eq!(parse_integer_text("-1", true, -10, 10), Some(-1));
    assert_eq!(parse_integer_text("65536", false, 0, 65535), None);
    assert_eq!(parse_integer_text("", false, 0, 65535), None);
    assert_eq!(parse_integer_text(" 1", false, 0, 65535), None);
}

#[test]
fn joining_paths() {
    assert_eq!(join_path("/a", "b"), "/a/b");
    assert_eq!(join_path("/a/", "b"), "/a/b");
    assert_eq!(join_path("/a", "/b"), "/b");
    assert_eq!(join_path("", "b"), "b");
}

#[test]
fn search_empty_query_returns_empty_response() {
    assert_eq!(search_text(Some("")), None);
    assert_eq!(search_text(Some(" \t ")), None);
}

#[test]
fn ascii_case_and_alphanumerics() {
    assert_eq!(to_lowercase("The BEATLES 1964"), "the beatles 1964");
    assert_eq!(to_lowercase(""), "");
    assert_eq!(to_lowercase("ÀB"), "àb");
    assert!(is_alphanumeric('a') && is_alphanumeric('Z') && is_alphanumeric('5'));
    assert!(!is_alphanumeric('-') && !is_alphanumeric(' ') && !is_alphanumeric('_'));
    assert!(is_alphanumeric('é'));
}
