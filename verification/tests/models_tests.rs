use rockola::models::{maintenance_response, MediaLibraryRow, QueueItemResponse, UserCreditsRow};

fn queue_item(id: &str) -> QueueItemResponse {
    QueueItemResponse {
        queue_id: format!("q-{}", id),
        added_at: "2024-01-01 00:00:00".into(),
        order: 1,
        id: id.into(),
        source: "local".into(),
        title: "T".into(),
        artist: None,
        album: None,
        duration_seconds: 10,
        thumbnail_url: None,
        media_type: "audio".into(),
        stream_id: None,
        download_id: None,
        download_status: None,
    }
}

#[test]
fn get_admin_maintenance_returns_ok() {
    let rows = vec![MediaLibraryRow {
        id: "lib-1".into(),
        title: "Song".into(),
        artist: Some("Band".into()),
        album: Some("Album".into()),
        source: "youtube".into(),
        local_path: Some("video/Band/Song.mp4".into()),
        duration_seconds: Some(200),
        thumbnail_url: None,
        media_type: "video".into(),
        external_id: Some("abc".into()),
    }];
    let credits = UserCreditsRow { id: "default".into(), balance: 1000, updated_at: "now".into() };
    let m = maintenance_response(vec![queue_item("a")], rows, credits, (1, 1, 0));
    assert_eq!(m.queue.len(), 1);
    assert_eq!(m.queue[0].id, "a");
    assert_eq!(m.media_library.len(), 1);
    assert_eq!(m.media_library[0].local_path, Some("video/Band/Song.mp4".to_string()));
    assert_eq!(m.media_library[0].external_id, Some("abc".to_string()));
    assert_eq!(m.credits.id, "default");
    assert_eq!(m.credits.balance, 1000);
    assert_eq!(m.stats.queue_count, 1);
    assert_eq!(m.stats.media_library_count, 1);
    assert_eq!(m.stats.media_cache_count, 0);
}
