use rockola::storage::{first_free, media_artist_dir, sanitize_path_component, to_relative_path, unique_file_path};

#[test]
fn sanitize_examples() {
    assert_eq!(sanitize_path_component("  AC/DC  "), "AC-DC");
    assert_eq!(sanitize_path_component("a::b"), "a-b");
    assert_eq!(sanitize_path_component("--a--"), "a");
    assert_eq!(sanitize_path_component("???"), "Unknown");
    assert_eq!(sanitize_path_component(""), "Unknown");
    assert_eq!(sanitize_path_component("What? Now"), "What- Now");
}

#[test]
fn sanitize_limits_length() {
    let long = "x".repeat(300);
    assert_eq!(sanitize_path_component(&long).len(), 120);
    let mut tail = "y".repeat(119);
    tail.push_str("-- z");
    let s = sanitize_path_component(&tail);
    assert!(s.len() <= 120);
    assert!(!s.ends_with('-') && !s.ends_with(' '));
}

#[test]
fn multibyte_names_are_cut_at_a_character_boundary() {
    let s = "é".repeat(70);
    assert_eq!(sanitize_path_component(&s), "é".repeat(60));
    let s2 = format!("a{}", "é".repeat(70));
    let r = sanitize_path_component(&s2);
    assert_eq!(r, format!("a{}", "é".repeat(59)));
    assert_eq!(r.len(), 119);
}

#[test]
fn space_runs_collapse() {
    assert_eq!(sanitize_path_component("a  b"), "a b");
    assert_eq!(sanitize_path_component("a    b  c"), "a b c");
    assert_eq!(sanitize_path_component("-a-"), "-a-");
    assert_eq!(sanitize_path_component("-a  b-"), "-a b-");
    assert_eq!(sanitize_path_component("a--  b"), "a- b");
    assert_eq!(sanitize_path_component("--a    b"), "a b");
}

#[test]
fn sanitized_names_are_safe() {
    let long = "ü".repeat(200);
    for s in ["a/b\\c:d*e?f\"g<h>i|j", "  --x--  ", "..", "a  --  b", "ñandú/ñ", long.as_str()] {
        let r = sanitize_path_component(s);
        assert!(!r.is_empty());
        assert!(!r.contains("--"));
        assert!(!r.contains("  "));
        assert!(r.len() <= 120);
        assert!(!r.chars().any(|c| "/\\:*?\"<>|".contains(c)));
    }
}

#[test]
fn artist_dirs() {
    assert_eq!(media_artist_dir("/media", "audio", "The Band"), "/media/audio/The Band");
    assert_eq!(media_artist_dir("/media/", "video", "A/B"), "/media/video/A-B");
}

#[test]
fn unique_paths_skip_existing_files() {
    assert_eq!(unique_file_path("/nonexistent-rockola-dir", "Song", "mp3").unwrap(), "/nonexistent-rockola-dir/Song.mp3");
    if std::path::Path::new("/etc/ld.so.cache").exists() {
        assert_eq!(unique_file_path("/etc", "ld.so", "cache").unwrap(), "/etc/ld.so (1).cache");
    }
}

#[test]
fn relative_paths() {
    assert_eq!(to_relative_path("/media", "/media/video/A/B.mp4"), Some("video/A/B.mp4".to_string()));
    assert_eq!(to_relative_path("/media", "/other/x.mp4"), Some("/other/x.mp4".to_string()));
}

#[test]
fn first_free_candidate_is_the_least_not_taken() {
    assert_eq!(first_free(&vec![]), None);
    assert_eq!(first_free(&vec![false]), Some(0));
    assert_eq!(first_free(&vec![true, true, false, false]), Some(2));
    assert_eq!(first_free(&vec![true, true, true]), None);
}

#[test]
fn sanitising_twice_changes_nothing() {
    let long = format!("{}-- tail", "ab ".repeat(50));
    for name in ["  AC/DC  ", "a::b", "-a-", "???", "", "a  b", "What? Now", long.as_str(), "é".repeat(70).as_str()] {
        let once = sanitize_path_component(name);
        assert_eq!(sanitize_path_component(&once), once);
    }
}
