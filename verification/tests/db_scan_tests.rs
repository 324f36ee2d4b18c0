use rockola::db::{cleanup_cutoff, migration_version_of, missing_for_source, pending_migrations, sorted_migration_files, Db};
use rockola::events::AppEvent;
use rockola::scan::{
    missing_marks, scanned_item_row, source_scan_done, describe_scanned_file, guess_media_type, is_candidate_media, missing_delta, scan_error_event,
    scan_source_root, source_missing_event, walk_warning_event, ScanSession, Scanner,
};

fn strings(v: &[&str]) -> Vec<String> {
    v.iter().map(|s| s.to_string()).collect()
}

#[test]
fn db_handle() {
    let db = Db::new("/data/rockola.db");
    assert_eq!(db.path(), "/data/rockola.db");
    let s = Scanner::new(db);
    assert_eq!(s.db().path(), "/data/rockola.db");
}

#[test]
fn migration_versions() {
    assert_eq!(migration_version_of("001_init.sql"), 1);
    assert_eq!(migration_version_of("010_xxx.sql"), 10);
    assert_eq!(migration_version_of("000_zero.sql"), 0);
    assert_eq!(migration_version_of("init.sql"), 0);
    assert_eq!(migration_version_of("12.sql"), 0);
    assert_eq!(migration_version_of("+7_plus.sql"), 7);
}

#[test]
fn migration_files_in_order() {
    let names = strings(&["010_b.sql", "readme.md", "001_init.sql", "002_x.SQL", "002_media.sql", "notes"]);
    let sorted = sorted_migration_files(&names);
    assert_eq!(sorted, strings(&["001_init.sql", "002_media.sql", "010_b.sql"]));
}

#[test]
fn pending_migrations_skip_applied_and_repeated_versions() {
    let files = strings(&["001_init.sql", "002_a.sql", "02_dup.sql", "003_c.sql"]);
    let plan = pending_migrations(&files, &vec![1]);
    assert_eq!(plan, vec![("002_a.sql".to_string(), 2), ("003_c.sql".to_string(), 3)]);
    assert!(pending_migrations(&files, &vec![1, 2, 3]).is_empty());
}

#[test]
fn missing_files() {
    let active = strings(&["/m/a.mp3", "/m/b.mp3", "/m/c.mp3"]);
    let seen = strings(&["/m/b.mp3", "/m/z.mp3"]);
    assert_eq!(missing_for_source(&active, &seen), strings(&["/m/a.mp3", "/m/c.mp3"]));
}

#[test]
fn cutoff() {
    assert_eq!(cleanup_cutoff(1_000_000, 2), 1_000_000 - 2 * 86400);
    assert_eq!(cleanup_cutoff(0, -1), 86400);
}

#[test]
fn candidate_media() {
    assert!(is_candidate_media("/m/a/song.MP3"));
    assert!(is_candidate_media("/m/a/clip.webm"));
    assert!(!is_candidate_media("/m/a/cover.jpg"));
    assert!(!is_candidate_media("/m/a/noext"));
    assert_eq!(guess_media_type("/x/a.flac"), "audio");
    assert_eq!(guess_media_type("/x/a.MKV"), "video");
    assert_eq!(guess_media_type("/x/a.txt"), "unknown");
    assert_eq!(guess_media_type("/x/a"), "unknown");
}

#[test]
fn scanned_file_description() {
    let f = describe_scanned_file("/music", "/music/José González/Heartbeats.mp3");
    assert_eq!(f.rel_path, "José González/Heartbeats.mp3");
    assert_eq!(f.artist_folder, "José González");
    assert_eq!(f.artist_key, "jose gonzalez");
    assert_eq!(f.title, "Heartbeats");
    assert_eq!(f.media_type, "audio");
}

#[test]
fn scan_session_batches() {
    let (mut s, first) = ScanSession::start(3, "/music", 450);
    match first {
        AppEvent::ScanProgress(p) => {
            assert_eq!((p.source_id, p.processed, p.total), (3, 0, Some(450)));
            assert_eq!(p.phase, "walking");
        }
        _ => panic!(),
    }
    let mut progress = 0;
    let mut batches: Vec<Vec<i64>> = Vec::new();
    for id in 0..450i64 {
        for e in s.record(id, "x.mp3") {
            match e {
                AppEvent::ScanProgress(p) => {
                    progress += 1;
                    assert_eq!(p.processed % 50, 0);
                }
                AppEvent::LibraryDelta(d) => {
                    assert_eq!(d.reason, "upsert");
                    batches.push(d.item_ids);
                }
                _ => panic!(),
            }
        }
    }
    assert_eq!(progress, 9);
    assert_eq!(batches.len(), 2);
    assert!(batches.iter().all(|b| b.len() == 200));
    match s.finish_walk() {
        Some(AppEvent::LibraryDelta(d)) => batches.push(d.item_ids),
        _ => panic!(),
    }
    assert!(s.finish_walk().is_none());
    let all: Vec<i64> = batches.concat();
    assert_eq!(all, (0..450).collect::<Vec<i64>>());
    match s.done_event() {
        AppEvent::ScanProgress(p) => {
            assert_eq!(p.processed, 450);
            assert_eq!(p.phase, "done");
            assert!(p.current_path.is_none());
        }
        _ => panic!(),
    }
}

#[test]
fn scan_side_events() {
    assert!(missing_delta(0, 0).is_none());
    assert!(matches!(missing_delta(1, 0), Some(AppEvent::LibraryDelta(ref d)) if d.reason == "missing" && d.item_ids.is_empty()));
    match source_missing_event("/gone") {
        AppEvent::Error(e) => {
            assert_eq!(e.code, "SOURCE_NOT_FOUND");
            assert_eq!(e.message, "Source no existe: /gone");
        }
        _ => panic!(),
    }
    match walk_warning_event("loop") {
        AppEvent::Toast(t) => {
            assert_eq!(t.level, "warn");
            assert_eq!(t.message, "Walk warning: loop");
        }
        _ => panic!(),
    }
}

#[test]
fn scan_start_and_failure() {
    assert_eq!(scan_source_root(Some("/music".into())), Ok("/music".to_string()));
    assert_eq!(scan_source_root(None), Err("Source no encontrada".to_string()));
    match scan_error_event("db error") {
        AppEvent::Error(e) => {
            assert_eq!(e.code, "SCAN_ERROR");
            assert_eq!(e.message, "Error durante el escaneo: db error");
            assert!(e.context.is_none());
        }
        _ => panic!(),
    }
}

#[test]
fn second_migration_plan_is_empty() {
    let files = strings(&["001_init.sql", "002_a.sql", "02_dup.sql", "003_c.sql", "x.sql"]);
    let mut applied = vec![1];
    let first = pending_migrations(&files, &applied);
    assert_eq!(first.len(), 3);
    for (_, v) in &first {
        applied.push(*v);
    }
    assert!(pending_migrations(&files, &applied).is_empty());
}

#[test]
fn media_kinds_follow_the_lists() {
    assert_eq!(guess_media_type("a/Song.FLAC"), "audio");
    assert_eq!(guess_media_type("clip.MKV"), "video");
    assert_eq!(guess_media_type("notes.txt"), "unknown");
    assert_eq!(guess_media_type("noext"), "unknown");
    assert!(is_candidate_media("a/Song.FLAC") && is_candidate_media("clip.MKV"));
    assert!(!is_candidate_media("notes.txt"));
}

#[test]
fn cancelled_scan_gives_up_its_session() {
    let (session, _) = ScanSession::start(3, "/m", 10);
    let session = session.check_cancel(false).unwrap();
    assert!(session.check_cancel(true).is_err());
}

#[test]
fn unseen_items_are_marked_missing() {
    let paths = strings(&["/m/a.mp3", "/m/b.mp3", "/m/c.mp3"]);
    let marks = missing_marks(&paths, &strings(&["/m/c.mp3", "/m/a.mp3", "/m/new.mp3"]));
    assert_eq!(marks.missing, vec![false, true, false]);
    assert_eq!((marks.missing_count, marks.present_count), (1, 2));
    let none = missing_marks(&paths, &vec![]);
    assert_eq!(none.missing, vec![true, true, true]);
    assert_eq!((none.missing_count, none.present_count), (3, 0));
}

#[test]
fn scan_writes_active_items_and_stamps_the_source() {
    let f = describe_scanned_file("/music", "/music/Queen/Bohemian.flac");
    let row = scanned_item_row(4, 9, &f, 1234, 55, 1_700_000_000);
    assert_eq!((row.source_id, row.artist_id, row.size_bytes, row.mtime_unix), (4, 9, 1234, 55));
    assert_eq!(row.full_path, "/music/Queen/Bohemian.flac");
    assert_eq!(row.relative_path, "Queen/Bohemian.flac");
    assert_eq!(row.title, "Bohemian");
    assert_eq!(row.media_type, "audio");
    assert_eq!((row.status.as_str(), row.playable.as_str(), row.duration_ms), ("active", "unknown", None));
    assert_eq!(row.updated_at, 1_700_000_000);
    let done = source_scan_done(77);
    assert_eq!((done.last_scan_at, done.last_seen_at, done.status.as_str()), (77, 77, "ok"));
}

#[test]
fn scan_errors_have_error_severity() {
    match source_missing_event("/gone") {
        AppEvent::Error(e) => {
            assert_eq!(e.code, "SOURCE_NOT_FOUND");
            assert_eq!(e.message, "Source no existe: /gone");
            assert_eq!(e.severity, "error");
            assert!(e.context.is_none());
            assert!(e.timestamp > 0);
        }
        _ => panic!("expected an error event"),
    }
    match scan_error_event("x") {
        AppEvent::Error(e) => assert_eq!(e.severity, "error"),
        _ => panic!("expected an error event"),
    }
    match walk_warning_event("denied") {
        AppEvent::Toast(t) => assert!(t.duration.is_none() && t.action.is_none()),
        _ => panic!("expected a toast"),
    }
    match missing_delta(0, 2) {
        Some(AppEvent::LibraryDelta(d)) => assert!(d.affected_artists.is_empty() && d.timestamp > 0),
        _ => panic!("expected a library change"),
    }
}
