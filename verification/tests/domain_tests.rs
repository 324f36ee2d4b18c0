use rockola::domain::{
    format_duration_ms, format_file_size, generate_slug, get_file_extension,
    get_filename_without_extension, is_media_file, normalize_artist_key,
};

#[test]
fn test_normalize_artist_key() {
    assert_eq!(normalize_artist_key("The Beatles").0, "the beatles");
    assert_eq!(normalize_artist_key(" Café con Leche ").0, "cafe con leche");
    assert_eq!(normalize_artist_key("José María").0, "jose maria");
}

#[test]
fn test_generate_slug() {
    assert_eq!(generate_slug("My Great Song"), "my-great-song");
    assert_eq!(generate_slug("Song & Dance!"), "song-dance");
}

#[test]
fn test_format_file_size() {
    assert_eq!(format_file_size(1023), "1023 B");
    assert_eq!(format_file_size(1024), "1.00 KB");
    assert_eq!(format_file_size(1024 * 1024), "1.00 MB");
}

#[test]
fn test_format_duration_ms() {
    assert_eq!(format_duration_ms(Some(3000)), "0:03");
    assert_eq!(format_duration_ms(Some(65000)), "1:05");
    assert_eq!(format_duration_ms(Some(3665000)), "1:01:05");
}

#[test]
fn format_file_size_matches_float_formatting() {
    for bytes in [
        -5i64, 0, 1, 1023, 1024, 1152, 1153, 1536, 1_048_575, 1_048_576, 5_000_000,
        1_073_741_824, 1_099_511_627_776, 1_125_899_906_842_624, 9_007_199_254_740_993,
        i64::MAX, i64::MIN,
    ] {
        let mut size = bytes as f64;
        let units = ["B", "KB", "MB", "GB", "TB"];
        let mut k = 0;
        while size >= 1024.0 && k < 4 {
            size /= 1024.0;
            k += 1;
        }
        let expected = if k == 0 { format!("{} {}", bytes, units[k]) } else { format!("{:.2} {}", size, units[k]) };
        assert_eq!(format_file_size(bytes), expected, "bytes = {}", bytes);
    }
}

#[test]
fn format_file_size_rounds_ties_to_even() {
    assert_eq!(format_file_size(1152), "1.12 KB");
    assert_eq!(format_file_size(1_125_899_906_842_624), "1024.00 TB");
}

#[test]
fn format_duration_edge_cases() {
    assert_eq!(format_duration_ms(None), "--:--");
    assert_eq!(format_duration_ms(Some(0)), "0:00");
    assert_eq!(format_duration_ms(Some(-10)), "0:00");
    assert_eq!(format_duration_ms(Some(999)), "0:00");
}

#[test]
fn file_name_helpers() {
    assert_eq!(get_filename_without_extension("/music/Artist/Song.mp3"), "Song");
    assert_eq!(get_file_extension("/music/Artist/Song.MP3"), "mp3");
    assert!(is_media_file("/music/a.FLAC"));
    assert!(!is_media_file("/music/cover.jpg"));
}

#[test]
fn keys_and_slugs_have_one_shape() {
    for input in ["  Los   Prisioneros ", "AC/DC", "Björk!!", "--", "", "Guns N' Roses", "Café\tTacuba"] {
        let k = normalize_artist_key(input).0;
        assert!(!k.starts_with(' ') && !k.ends_with(' ') && !k.contains("  "), "key {:?}", k);
        assert!(k.chars().all(|c| c == ' ' || c.is_alphanumeric()));
        let s = generate_slug(input);
        assert!(!s.starts_with('-') && !s.ends_with('-') && !s.contains("--"), "slug {:?}", s);
        assert!(s.chars().all(|c| c == '-' || c.is_alphanumeric()));
    }
    assert_eq!(normalize_artist_key("Guns N' Roses").0, "guns n roses");
    assert_eq!(generate_slug("--"), "");
}

#[test]
fn slugs_of_ascii_titles_are_fixed_points() {
    for t in ["Hello, World!", "  --Rock & Roll--  ", "AC/DC: Back In Black", "", "a  b", "Ünïcode"] {
        let once = generate_slug(t);
        assert_eq!(generate_slug(&once), once);
    }
    assert_eq!(generate_slug("Hello, World!"), "hello-world");
}

#[test]
fn artist_keys_ignore_ascii_case() {
    for name in ["The Beatles", "  AC/DC ", "Guns N' Roses", "beyoncé"] {
        assert_eq!(normalize_artist_key(&name.to_ascii_uppercase()), normalize_artist_key(name));
    }
    assert_eq!(normalize_artist_key("THE BEATLES").0, "the beatles");
}

#[test]
fn extensions_are_lowercased() {
    assert_eq!(get_file_extension("/music/Queen/Song.MP3"), "mp3");
    assert_eq!(get_file_extension("archive.tar.gz"), "gz");
    assert_eq!(get_file_extension("README"), "");
    assert_eq!(get_file_extension("/m/.bashrc"), "");
    assert!(is_media_file("x/Song.MP3"));
    assert!(!is_media_file("notes.txt"));
}
