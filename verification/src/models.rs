//! Data carried by the HTTP API of the jukebox backend, as plain values. The
//! JSON names (camelCase) are given by the host's serialised copies.

use vstd::prelude::*;

verus! {

/// A searchable or playable media item.
#[derive(Debug, Clone)]
pub struct MediaItem {
    pub id: String,
    pub source: String,
    pub title: String,
    pub artist: Option<String>,
    pub album: Option<String>,
    pub duration_seconds: i64,
    pub thumbnail_url: Option<String>,
    /// `audio` or `video` (JSON name `type`).
    pub media_type: String,
    pub stream_id: Option<String>,
}

/// An artist or channel offered as a search filter.
#[derive(Debug, Clone)]
pub struct ArtistSummary {
    pub id: String,
    pub name: String,
    pub thumbnail_url: Option<String>,
}

/// Search answer: artists (filter row) and songs.
#[derive(Debug)]
pub struct SearchResponse {
    pub artists: Vec<ArtistSummary>,
    pub songs: Vec<MediaItem>,
}

/// A queue entry as the front end sees it: queue fields plus the media fields.
#[derive(Debug, Clone)]
pub struct QueueItemResponse {
    pub queue_id: String,
    pub added_at: String,
    pub order: i64,
    pub id: String,
    pub source: String,
    pub title: String,
    pub artist: Option<String>,
    pub album: Option<String>,
    pub duration_seconds: i64,
    pub thumbnail_url: Option<String>,
    pub media_type: String,
    pub stream_id: Option<String>,
    pub download_id: Option<String>,
    /// `queued`, `downloading`, `done` or `failed`.
    pub download_status: Option<String>,
}

/// Body of `POST /api/queue`.
#[derive(Debug)]
pub struct AddToQueueRequest {
    pub media_item: MediaItem,
}

/// The play queue.
#[derive(Debug)]
pub struct QueueResponse {
    pub queue: Vec<QueueItemResponse>,
}

/// The credit balance of the user.
#[derive(Debug)]
pub struct UserCredits {
    pub id: String,
    pub balance: i64,
    pub updated_at: String,
}

/// Body of `POST /api/credits/add`.
#[derive(Debug)]
pub struct AddCreditsRequest {
    pub amount: i64,
}

/// An entry of the maintainer audit log.
#[derive(Debug, Clone)]
pub struct AdminAuditLogItem {
    pub id: String,
    pub action: String,
    pub entity_type: Option<String>,
    pub entity_id: Option<String>,
    pub payload_json: Option<String>,
    pub created_at: String,
}

/// The credit row of the user.
#[derive(Debug)]
pub struct UserCreditsRow {
    pub id: String,
    pub balance: i64,
    pub updated_at: String,
}

/// A row of the local media library.
#[derive(Debug, Clone)]
pub struct MediaLibraryRow {
    pub id: String,
    pub title: String,
    pub artist: Option<String>,
    pub album: Option<String>,
    pub source: String,
    pub local_path: Option<String>,
    pub duration_seconds: Option<i64>,
    pub thumbnail_url: Option<String>,
    pub media_type: String,
    pub external_id: Option<String>,
}

/// Query of `GET /api/media/stream`.
#[derive(Debug)]
pub struct StreamQuery {
    pub id: String,
    pub source: Option<String>,
}

/// Query of `GET /api/search`.
#[derive(Debug)]
pub struct SearchQuery {
    pub q: Option<String>,
}

/// Body of `POST /api/admin/login`.
#[derive(Debug)]
pub struct AdminLoginRequest {
    pub pin: String,
}

/// Answer of a successful login.
#[derive(Debug)]
pub struct AdminLoginResponse {
    pub token: String,
    pub expires_in_secs: u64,
}

/// Answer of `GET /api/admin/session`.
#[derive(Debug)]
pub struct AdminSessionResponse {
    pub valid: bool,
}

/// Answer of `POST /api/admin/reset`.
#[derive(Debug)]
pub struct ResetResponse {
    pub ok: bool,
}

/// A media library entry in the maintenance view.
#[derive(Debug)]
pub struct MediaLibraryEntryDto {
    pub id: String,
    pub title: String,
    pub artist: Option<String>,
    pub source: String,
    pub local_path: Option<String>,
    pub media_type: String,
    pub external_id: Option<String>,
}

/// Counts shown in the maintenance view.
#[derive(Debug)]
pub struct MaintenanceStatsDto {
    pub queue_count: i64,
    pub media_library_count: i64,
    pub media_cache_count: i64,
}

/// Credits shown in the maintenance view.
#[derive(Debug)]
pub struct CreditsDto {
    pub id: String,
    pub balance: i64,
    pub updated_at: String,
}

/// Answer of `GET /api/maintenance`.
#[derive(Debug)]
pub struct MaintenanceResponse {
    pub queue: Vec<QueueItemResponse>,
    pub media_library: Vec<MediaLibraryEntryDto>,
    pub credits: CreditsDto,
    pub stats: MaintenanceStatsDto,
}

/// Body of `POST /api/admin/audit`.
#[derive(Debug)]
pub struct AuditCreateRequest {
    pub action: String,
    pub entity_type: Option<String>,
    pub entity_id: Option<String>,
    pub payload_json: Option<String>,
}

/// The update settings as answered by `GET /api/admin/settings/updates`.
#[derive(Debug, PartialEq, Eq)]
pub struct UpdateSettingsDto {
    pub enabled: bool,
    pub channel: String,
    pub auto_check: bool,
    pub check_interval_minutes: u32,
    pub endpoint_override: Option<String>,
}

/// Body of `PUT /api/admin/settings/updates`.
#[derive(Debug)]
pub struct UpdateSettingsRequest {
    pub enabled: Option<bool>,
    pub channel: Option<String>,
    pub auto_check: Option<bool>,
    pub check_interval_minutes: Option<u32>,
    pub endpoint_override: Option<String>,
}

/// Query of the desktop media server (`path` percent-encoded).
#[derive(Debug)]
pub struct MediaQuery {
    pub path: String,
}

/// The maintenance answer: queue, recent library rows, credits and counts.
pub fn maintenance_response(
    queue: Vec<QueueItemResponse>,
    library_rows: Vec<MediaLibraryRow>,
    credits: UserCreditsRow,
    counts: (i64, i64, i64),
) -> (r: MaintenanceResponse)
    ensures
        r.queue == queue,
        r.media_library@.len() == library_rows@.len(),
        forall|i: int|
            0 <= i < library_rows@.len() ==> {
                let d = #[trigger] r.media_library@[i];
                let s = library_rows@[i];
                &&& d.id == s.id
                &&& d.title == s.title
                &&& d.artist == s.artist
                &&& d.source == s.source
                &&& d.local_path == s.local_path
                &&& d.media_type == s.media_type
                &&& d.external_id == s.external_id
            },
        r.credits.id == credits.id,
        r.credits.balance == credits.balance,
        r.credits.updated_at == credits.updated_at,
        r.stats.queue_count == counts.0,
        r.stats.media_library_count == counts.1,
        r.stats.media_cache_count == counts.2,
{
    let mut media_library: Vec<MediaLibraryEntryDto> = Vec::new();
    let n = library_rows.len();
    for i in 0..n
        invariant
            n == library_rows@.len(),
            media_library@.len() == i,
            forall|j: int|
                0 <= j < i ==> {
                    let d = #[trigger] media_library@[j];
                    let s = library_rows@[j];
                    &&& d.id == s.id
                    &&& d.title == s.title
                    &&& d.artist == s.artist
                    &&& d.source == s.source
                    &&& d.local_path == s.local_path
                    &&& d.media_type == s.media_type
                    &&& d.external_id == s.external_id
                },
    {
        let r = &library_rows[i];
        media_library.push(
            MediaLibraryEntryDto {
                id: r.id.clone(),
                title: r.title.clone(),
                artist: r.artist.clone(),
                source: r.source.clone(),
                local_path: r.local_path.clone(),
                media_type: r.media_type.clone(),
                external_id: r.external_id.clone(),
            },
        );
    }
    MaintenanceResponse {
        queue,
        media_library,
        credits: CreditsDto {
            id: credits.id,
            balance: credits.balance,
            updated_at: credits.updated_at,
        },
        stats: MaintenanceStatsDto {
            queue_count: counts.0,
            media_library_count: counts.1,
            media_cache_count: counts.2,
        },
    }
}

} // verus!
