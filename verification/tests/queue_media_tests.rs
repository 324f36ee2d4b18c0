use rockola::media::{content_type_for, desktop_media_path, local_stream_file, parent_component_in, route_stream, youtube_stream_file, StreamSource};
use rockola::models::{MediaItem, MediaLibraryRow, StreamQuery};
use rockola::queue::{charge_credits, check_retry, credit_amount, next_queue_order, is_youtube_media, library_search_songs, route_add_to_queue, youtube_queue_item, QueueRoute};

fn media(id: &str, source: &str) -> MediaItem {
    MediaItem {
        id: id.into(),
        source: source.into(),
        title: "Test".into(),
        artist: Some("A".into()),
        album: None,
        duration_seconds: 180,
        thumbnail_url: None,
        media_type: "audio".into(),
        stream_id: Some("s".into()),
    }
}

fn row(id: &str, local: Option<&str>) -> MediaLibraryRow {
    MediaLibraryRow {
        id: id.into(),
        title: "T".into(),
        artist: None,
        album: Some("Al".into()),
        source: "youtube".into(),
        local_path: local.map(|s| s.to_string()),
        duration_seconds: None,
        thumbnail_url: None,
        media_type: "video".into(),
        external_id: Some("x".into()),
    }
}

#[test]
fn add_to_queue_without_credits_fails_with_402() {
    let e = route_add_to_queue(false, &media("test-1", "local")).unwrap_err();
    assert_eq!(e.status, 402);
    assert_eq!(e.message, "Créditos insuficientes");
}

#[test]
fn youtube_items_are_recognised() {
    assert!(is_youtube_media(&media("x", "youtube")));
    assert!(is_youtube_media(&media("dQw4w9WgXcQ", "local")));
    assert!(is_youtube_media(&media("a-b_c-d_e-f", "local")));
    assert!(!is_youtube_media(&media("test-11", "local")));
    assert!(!is_youtube_media(&media("dQw4w9WgXc!", "local")));
    assert!(!is_youtube_media(&media("dQw4w9WgXcé", "local")));
    assert_eq!(route_add_to_queue(true, &media("test-1", "local")).unwrap(), QueueRoute::AsSent);
    assert_eq!(route_add_to_queue(true, &media("dQw4w9WgXcQ", "local")).unwrap(), QueueRoute::FromYouTube);
}

#[test]
fn youtube_items_from_the_library_or_pending() {
    let m = media("dQw4w9WgXcQ", "youtube");
    let (q, job) = youtube_queue_item(&m, Some(row("lib-1", Some("video/a.mp4"))));
    assert!(!job);
    assert_eq!(q.id, "lib-1");
    assert_eq!(q.source, "local");
    assert_eq!(q.duration_seconds, 0);
    assert_eq!(q.album, Some("Al".to_string()));
    assert_eq!(q.stream_id, Some("/api/media/stream?id=lib-1&source=local".to_string()));
    let (q, job) = youtube_queue_item(&m, None);
    assert!(job);
    assert_eq!(q.id, m.id);
    assert_eq!(q.stream_id, None);
    assert_eq!(q.duration_seconds, 180);
}

#[test]
fn credits_and_retries() {
    assert_eq!(credit_amount(500), 500);
    assert_eq!(credit_amount(-3), 0);
    assert!(check_retry(Some("failed")).is_ok());
    let e = check_retry(Some("done")).unwrap_err();
    assert_eq!(e.status, 400);
    let e = check_retry(None).unwrap_err();
    assert_eq!((e.status, e.message.as_str()), (404, "Descarga no encontrada"));
}

#[test]
fn stream_routing() {
    let q = |id: &str, s: Option<&str>| StreamQuery { id: id.into(), source: s.map(|x| x.to_string()) };
    assert_eq!(route_stream(&q("", None)).unwrap_err().message, "id requerido");
    assert_eq!(route_stream(&q("1", None)).unwrap(), StreamSource::Local);
    assert_eq!(route_stream(&q("1", Some("local"))).unwrap(), StreamSource::Local);
    assert_eq!(route_stream(&q("1", Some("youtube"))).unwrap(), StreamSource::YouTube);
    assert_eq!(route_stream(&q("1", Some("spotify"))).unwrap_err().status, 400);
}

#[test]
fn local_stream_files() {
    assert_eq!(local_stream_file("/media", None).unwrap_err().status, 404);
    assert_eq!(local_stream_file("/media", Some(row("1", None))).unwrap_err().message, "Archivo local no disponible");
    assert_eq!(local_stream_file("/media", Some(row("1", Some("video/a.mp4")))).unwrap(), "/media/video/a.mp4");
    assert_eq!(local_stream_file("/media", Some(row("1", Some("/etc/passwd")))).unwrap_err().status, 403);
}

#[test]
fn youtube_stream_files() {
    assert_eq!(youtube_stream_file("/media", None).unwrap_err().status, 404);
    assert_eq!(youtube_stream_file("/media", Some(row("1", Some("missing.mp4")))).unwrap_err().status, 404);
    if std::path::Path::new("/etc/host.conf").exists() {
        assert_eq!(youtube_stream_file("/etc", Some(row("1", Some("host.conf")))).unwrap(), "/etc/host.conf");
    }
}

#[test]
fn content_types() {
    assert_eq!(content_type_for("/m/a.mp3"), "audio/mpeg");
    assert_eq!(content_type_for("/m/a.mp4"), "video/mp4");
    assert_eq!(content_type_for("/m/README"), "application/octet-stream");
}

#[test]
fn desktop_paths() {
    assert_eq!(desktop_media_path("%2Fstorage%2Fa%20b.mp3").unwrap(), "/storage/a b.mp3");
    assert_eq!(desktop_media_path("/plain/path.mp3").unwrap(), "/plain/path.mp3");
    let e = desktop_media_path("relative%2Fx").unwrap_err();
    assert_eq!((e.status, e.message.as_str()), (400, "path must be absolute"));
}

#[test]
fn local_stream_refuses_parent_components() {
    let e = local_stream_file("/media", Some(row("1", Some("../x")))).unwrap_err();
    assert_eq!((e.status, e.message.as_str()), (403, "Ruta no permitida"));
    assert_eq!(local_stream_file("/media", Some(row("1", Some("video/../../etc/passwd")))).unwrap_err().status, 403);
    assert_eq!(local_stream_file("/media", Some(row("1", Some("video/./a..b.mp4")))).unwrap(), "/media/video/./a..b.mp4");
    assert!(parent_component_in("a/../b"));
    assert!(parent_component_in(".."));
    assert!(!parent_component_in("a/..b/c"));
    assert!(!parent_component_in("a/./b"));
}

#[test]
fn search_answers_from_the_library_first() {
    assert!(library_search_songs(&vec![]).is_none());
    let songs = library_search_songs(&vec![row("7", Some("video/a.mp4")), row("8", Some("video/b.mp4"))]).unwrap();
    assert_eq!(songs.len(), 2);
    assert_eq!(songs[0].id, "7");
    assert_eq!(songs[0].source, "local");
    assert_eq!(songs[0].stream_id, Some("/api/media/stream?id=7&source=local".to_string()));
    assert_eq!(songs[1].id, "8");
    assert_eq!(songs[1].album, Some("Al".to_string()));
}

#[test]
fn credits_are_charged_only_when_they_cover_the_cost() {
    assert_eq!(charge_credits(5, 1), Some(4));
    assert_eq!(charge_credits(1, 1), Some(0));
    assert_eq!(charge_credits(0, 1), None);
    assert_eq!(charge_credits(3, 0), Some(3));
}

#[test]
fn new_queue_items_go_after_the_last() {
    assert_eq!(next_queue_order(&vec![]), 1);
    assert_eq!(next_queue_order(&vec![3, 7, 2]), 8);
    assert_eq!(next_queue_order(&vec![-4]), -3);
}
