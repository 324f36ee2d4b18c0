# Rockola

A jukebox: search the local library (then YouTube when nothing local matches),
queue songs paid with credits, download them into a
local media library and play them in kiosk mode. This crate holds the logic of
the jukebox as a library verified with Verus, and the server program around it.

## Layout

- `src/` — the verified library.
  - `text.rs`, `paths.rs` — character-level text work (trimming, collapsing,
    decimal and integer parsing) and Unix path arithmetic, each with its
    mathematical definition.
  - `domain.rs` — artist keys, slugs, file names, durations and file sizes.
  - `player.rs` — the playback engine: queue, history, repeat modes, events.
  - `scan.rs`, `db.rs` — library scanning bookkeeping, migration planning,
    missing files.
  - `storage.rs` — safe file names and unique paths under the media root.
  - `ytdlp.rs`, `worker.rs` — YouTube search results and the download job, as
    a state machine whose steps the host performs.
  - `queue.rs`, `media.rs`, `admin.rs`, `settings.rs`, `config.rs`, `models.rs` —
    the decisions of the HTTP API: credits, streaming, maintainer sessions,
    update settings, configuration.
  - `updater.rs` — desktop update session and crash-loop recovery.
  - `events.rs` — events pushed to the user interface.
- `tests/` — tests of the library.
- `app/` — the server: axum handlers, SQLite statements (sqlx, rusqlite), yt-dlp
  processes, the download worker loop, the desktop media server and player host.

Each public function of the library states in its contract what it returns;
properties that relate several functions are stated and proved as `law_*` proof
functions.
