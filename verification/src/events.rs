//! Events the core pushes to the user interface.

use vstd::prelude::*;

verus! {

/// An event for the user interface.
#[derive(Debug, Clone)]
pub enum AppEvent {
    ScanProgress(ScanProgress),
    LibraryDelta(LibraryDelta),
    QueueDelta(QueueDelta),
    PlayerState(PlayerState),
    PlaybackEvent(PlaybackEvent),
    Toast(Toast),
    Error(AppError),
}

/// Progress of a library scan.
#[derive(Debug, Clone)]
pub struct ScanProgress {
    pub source_id: i64,
    pub processed: u64,
    pub total: Option<u64>,
    pub phase: String,
    pub current_path: Option<String>,
}

/// A change of library items (`reason` is `added`, `updated`, `removed`, ...),
/// with the artists it touches and the Unix time it was made.
#[derive(Debug, Clone)]
pub struct LibraryDelta {
    pub reason: String,
    pub item_ids: Vec<i64>,
    pub affected_artists: Vec<i64>,
    pub timestamp: i64,
}

/// A change of the play queue (`reason` is `snapshot`, `added`, `removed`, `moved`, `cleared`, ...).
#[derive(Debug, Clone)]
pub struct QueueDelta {
    pub reason: String,
    pub queue_item_ids: Vec<i64>,
}

impl QueueDelta {
    /// A queue change with the given reason and item ids.
    pub fn new(reason: String, queue_item_ids: Vec<i64>) -> (r: QueueDelta)
        ensures
            r.reason == reason,
            r.queue_item_ids == queue_item_ids,
    {
        QueueDelta { reason, queue_item_ids }
    }
}

/// Snapshot of the player (`state` is `idle`, `playing`, `paused`, `stopped`, ...),
/// with its repeat mode (`none`, `one` or `all`) and shuffle flag. Volume and
/// playback rate are floating point and are added by the host.
#[derive(Debug, Clone)]
pub struct PlayerState {
    pub state: String,
    pub item_id: Option<i64>,
    pub position_ms: i64,
    pub duration_ms: Option<i64>,
    pub repeat_mode: String,
    pub shuffle: bool,
}

/// A playback milestone (`started`, `resumed`, `paused`, `stopped`, `seeked`, `ended`).
#[derive(Debug, Clone)]
pub struct PlaybackEvent {
    pub event_type: String,
    pub item_id: Option<i64>,
    pub position_ms: Option<i64>,
    pub duration_ms: Option<i64>,
    pub reason: Option<String>,
    pub timestamp: i64,
}

/// A transient notice (`level` is `info`, `warn` or `error`), with how long it
/// stays, in milliseconds, and the action it offers, if any.
#[derive(Debug, Clone)]
pub struct Toast {
    pub level: String,
    pub message: String,
    pub duration: Option<u64>,
    pub action: Option<String>,
}

/// An error report; `context` holds optional JSON text, `severity` is `error` or
/// `warn`, `timestamp` the Unix time of the report.
#[derive(Debug, Clone)]
pub struct AppError {
    pub code: String,
    pub message: String,
    pub context: Option<String>,
    pub timestamp: i64,
    pub severity: String,
}

/// Calls `time::OffsetDateTime::now_utc().unix_timestamp()` of `time`: the current
/// Unix time in seconds. Nothing is promised of the clock's value.
#[verifier::external_body]
pub(crate) fn unix_now() -> i64 {
    time::OffsetDateTime::now_utc().unix_timestamp()
}

} // verus!
