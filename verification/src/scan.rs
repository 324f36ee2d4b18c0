//! Library scanning: which files are candidates, what a scanned file is filed
//! under, and the progress and change events of a scan.

use vstd::prelude::*;
use vstd::hash_set::StringHashSet;
use crate::db::{texts_of, Db};
use crate::domain::{normalize_artist_key, spec_normalize_artist_key};
use crate::events::{unix_now, AppError, AppEvent, LibraryDelta, ScanProgress, Toast};
use crate::paths::{
    extension_of, file_stem_of, last_dot, parent_file_name_of, spec_extension, spec_file_name, spec_file_stem,
    spec_parent_file_name,
};
use crate::storage::{path_strip_prefix, strip_path_prefix};
use crate::text::{chars_of, concat_str, equals_any, string_from_chars};

verus! {

/// Emit progress every this many upserts.
pub const PROGRESS_EVERY: u64 = 50;

/// Emit a library change every this many upserts.
pub const DELTA_EVERY: usize = 200;

/// The audio extensions a scan picks up.
pub open spec fn audio_exts() -> Seq<&'static str> {
    seq![
        "aac", "aiff", "alac", "ape", "flac", "m4a", "m4b", "mp1", "mp2", "mp3", "oga", "ogg",
        "opus", "ra", "ram", "snd", "spx", "tta", "voc", "vqf", "w64", "wav", "weba", "wma", "wv",
    ]
}

/// The video extensions a scan picks up.
pub open spec fn video_exts() -> Seq<&'static str> {
    seq![
        "3g2", "3gp", "avi", "flv", "m2ts", "m4v", "mkv", "mov", "mp4", "mpeg", "mpg", "mts",
        "ogv", "rm", "rmvb", "ts", "webm", "wmv",
    ]
}

/// `s` is one of the literals of `lits`.
pub open spec fn in_list(s: Seq<char>, lits: Seq<&'static str>) -> bool {
    exists|i: int| 0 <= i < lits.len() && s == (#[trigger] lits[i])@
}

/// ASCII letters lowercased, other characters kept (`str::to_ascii_lowercase`).
pub open spec fn ascii_lowercase(s: Seq<char>) -> Seq<char>
    decreases s.len(),
{
    if s.len() == 0 {
        Seq::empty()
    } else {
        let c = s.last();
        ascii_lowercase(s.drop_last()).push(
            if 'A' <= c && c <= 'Z' {
                ((c as u32) + 32) as char
            } else {
                c
            },
        )
    }
}

/// Text without ASCII uppercase letters is its own ASCII lowercase.
pub proof fn lemma_no_uppercase_lowercase(s: Seq<char>)
    requires
        forall|i: int| 0 <= i < s.len() ==> !('A' <= #[trigger] s[i] && s[i] <= 'Z'),
    ensures
        ascii_lowercase(s) == s,
    decreases s.len(),
{
    if s.len() > 0 {
        lemma_no_uppercase_lowercase(s.drop_last());
        assert(ascii_lowercase(s) =~= s);
    }
}

/// Lowercases ASCII letters.
pub fn to_ascii_lowercase(v: &Vec<char>) -> (r: Vec<char>)
    ensures
        r@ == ascii_lowercase(v@),
{
    let mut out: Vec<char> = Vec::new();
    let mut i: usize = 0;
    while i < v.len()
        invariant
            i <= v.len(),
            out@ == ascii_lowercase(v@.take(i as int)),
        decreases v.len() - i,
    {
        assert(v@.take(i + 1).drop_last() =~= v@.take(i as int));
        let c = v[i];
        if 'A' <= c && c <= 'Z' {
            let lc = (c as u8 + 32) as char;
            assert(lc == ((c as u32) + 32) as char);
            out.push(lc);
        } else {
            out.push(c);
        }
        i += 1;
    }
    assert(v@.take(v.len() as int) =~= v@);
    out
}

/// The lowercased non-empty extension of a path, if it has one.
pub open spec fn candidate_ext(p: Seq<char>) -> Option<Seq<char>> {
    match spec_extension(p) {
        Some(e) => if e.len() > 0 { Some(ascii_lowercase(e)) } else { None },
        None => None,
    }
}

/// Media kind guessed from a path: `audio`, `video` or `unknown`.
pub open spec fn spec_guess_media_type(p: Seq<char>) -> Seq<char> {
    match candidate_ext(p) {
        Some(e) => if in_list(e, audio_exts()) {
            "audio"@
        } else if in_list(e, video_exts()) {
            "video"@
        } else {
            "unknown"@
        },
        None => "unknown"@,
    }
}

/// A path is a scan candidate when its extension is a known audio or video one.
pub open spec fn spec_is_candidate_media(p: Seq<char>) -> bool {
    spec_guess_media_type(p) != "unknown"@
}

/// The lowercased extension of `path`, if non-empty.
fn lowercase_ext(path: &Vec<char>) -> (r: Option<Vec<char>>)
    ensures
        match r {
            Some(e) => candidate_ext(path@) == Some(e@),
            None => candidate_ext(path@) is None,
        },
{
    match extension_of(path) {
        Some(e) => if e.len() > 0 { Some(to_ascii_lowercase(&e)) } else { None },
        None => None,
    }
}

/// Classifies a path by extension: `audio`, `video` or `unknown`.
pub fn guess_media_type(path: &str) -> (r: String)
    ensures
        r@ == spec_guess_media_type(path@),
{
    let audio: [&str; 25] = [
        "aac", "aiff", "alac", "ape", "flac", "m4a", "m4b", "mp1", "mp2", "mp3", "oga", "ogg",
        "opus", "ra", "ram", "snd", "spx", "tta", "voc", "vqf", "w64", "wav", "weba", "wma", "wv",
    ];
    let video: [&str; 18] = [
        "3g2", "3gp", "avi", "flv", "m2ts", "m4v", "mkv", "mov", "mp4", "mpeg", "mpg", "mts",
        "ogv", "rm", "rmvb", "ts", "webm", "wmv",
    ];
    assert(audio@ =~= audio_exts());
    assert(video@ =~= video_exts());
    match lowercase_ext(&chars_of(path)) {
        Some(e) => {
            if equals_any(&e, &audio) {
                String::from_str("audio")
            } else if equals_any(&e, &video) {
                String::from_str("video")
            } else {
                String::from_str("unknown")
            }
        },
        None => String::from_str("unknown"),
    }
}

/// Whether a path has a known audio or video extension.
pub fn is_candidate_media(path: &str) -> (r: bool)
    ensures
        r == spec_is_candidate_media(path@),
{
    let t = guess_media_type(path);
    let u = chars_of("unknown");
    let tv = chars_of(t.as_str());
    !crate::text::chars_equal(&tv, &u)
}

/// The scanner of a library database.
#[derive(Clone)]
pub struct Scanner {
    db: Db,
}

impl Scanner {
    /// The database the scanner fills.
    pub closed spec fn spec_db(&self) -> Db {
        self.db
    }

    /// A scanner over `db`.
    pub fn new(db: Db) -> (r: Scanner)
        ensures
            r.spec_db() == db,
    {
        Scanner { db }
    }

    /// The database the scanner fills.
    pub fn db(&self) -> (r: &Db)
        ensures
            *r == self.spec_db(),
    {
        &self.db
    }
}

/// What a scanned file is filed under.
#[derive(Debug, Clone)]
pub struct ScannedFile {
    pub full_path: String,
    pub rel_path: String,
    pub artist_folder: String,
    pub artist_key: String,
    pub title: String,
    pub media_type: String,
}

/// The artist of a scanned file: its parent folder's name, else `Unknown Artist`.
pub open spec fn spec_artist_folder(p: Seq<char>) -> Seq<char> {
    match spec_parent_file_name(p) {
        Some(n) => n,
        None => "Unknown Artist"@,
    }
}

/// The title of a scanned file: its file stem, else `Untitled`.
pub open spec fn spec_title(p: Seq<char>) -> Seq<char> {
    match spec_file_stem(p) {
        Some(n) => n,
        None => "Untitled"@,
    }
}

/// Describes a file found under `root`: full and relative path, artist folder and
/// its key, title and media type.
pub fn describe_scanned_file(root: &str, path: &str) -> (r: ScannedFile)
    ensures
        r.full_path@ == path@,
        r.rel_path@ == match path_strip_prefix(path@, root@) {
            Some(x) => x,
            None => path@,
        },
        r.artist_folder@ == spec_artist_folder(path@),
        r.artist_key@ == spec_normalize_artist_key(spec_artist_folder(path@)),
        r.title@ == spec_title(path@),
        r.media_type@ == spec_guess_media_type(path@),
{
    let p = chars_of(path);
    let rel = match strip_path_prefix(path, root) {
        Some(x) => x,
        None => String::from_str(path),
    };
    let artist_folder = match parent_file_name_of(&p) {
        Some(n) => string_from_chars(&n),
        None => String::from_str("Unknown Artist"),
    };
    let key = normalize_artist_key(artist_folder.as_str());
    let title = match file_stem_of(&p) {
        Some(n) => string_from_chars(&n),
        None => String::from_str("Untitled"),
    };
    ScannedFile {
        full_path: String::from_str(path),
        rel_path: rel,
        artist_folder,
        artist_key: key.0,
        title,
        media_type: guess_media_type(path),
    }
}

/// What a scan writes for a file it found: the item is filed under its source and
/// artist, entered as `active` with its playability still `unknown` and no duration,
/// and stamped with the scan time.
pub struct ScannedItemRow {
    pub source_id: i64,
    pub artist_id: i64,
    pub full_path: String,
    pub relative_path: String,
    pub title: String,
    pub media_type: String,
    pub duration_ms: Option<i64>,
    pub size_bytes: i64,
    pub mtime_unix: i64,
    pub playable: String,
    pub status: String,
    pub updated_at: i64,
}

/// The item row of a scanned file.
pub fn scanned_item_row(
    source_id: i64,
    artist_id: i64,
    f: &ScannedFile,
    size_bytes: i64,
    mtime_unix: i64,
    now: i64,
) -> (r: ScannedItemRow)
    ensures
        r.source_id == source_id,
        r.artist_id == artist_id,
        r.full_path@ == f.full_path@,
        r.relative_path@ == f.rel_path@,
        r.title@ == f.title@,
        r.media_type@ == f.media_type@,
        r.duration_ms is None,
        r.size_bytes == size_bytes,
        r.mtime_unix == mtime_unix,
        r.playable@ == "unknown"@,
        r.status@ == "active"@,
        r.updated_at == now,
{
    ScannedItemRow {
        source_id,
        artist_id,
        full_path: f.full_path.clone(),
        relative_path: f.rel_path.clone(),
        title: f.title.clone(),
        media_type: f.media_type.clone(),
        duration_ms: None,
        size_bytes,
        mtime_unix,
        playable: String::from_str("unknown"),
        status: String::from_str("active"),
        updated_at: now,
    }
}

/// What the end of a scan writes on its source: scanned and seen at the scan time,
/// status `ok`.
pub struct SourceScanDone {
    pub last_scan_at: i64,
    pub last_seen_at: i64,
    pub status: String,
}

/// The source's record after a finished scan at `now`.
pub fn source_scan_done(now: i64) -> (r: SourceScanDone)
    ensures
        r.last_scan_at == now,
        r.last_seen_at == now,
        r.status@ == "ok"@,
{
    SourceScanDone { last_scan_at: now, last_seen_at: now, status: String::from_str("ok") }
}

/// The event telling that a source folder does not exist.
pub fn source_missing_event(root_path: &str) -> (r: AppEvent)
    ensures
        r matches AppEvent::Error(e) && e.code@ == "SOURCE_NOT_FOUND"@ && e.message@
            == "Source no existe: "@ + root_path@ && e.context is None && e.severity@ == "error"@,
{
    AppEvent::Error(
        AppError {
            code: String::from_str("SOURCE_NOT_FOUND"),
            message: concat_str("Source no existe: ", root_path),
            context: None,
            timestamp: unix_now(),
            severity: String::from_str("error"),
        },
    )
}

/// The warning shown for an unreadable directory entry.
pub fn walk_warning_event(error_text: &str) -> (r: AppEvent)
    ensures
        r matches AppEvent::Toast(t) && t.level@ == "warn"@ && t.message@ == "Walk warning: "@
            + error_text@ && t.duration is None && t.action is None,
{
    AppEvent::Toast(
        Toast {
            level: String::from_str("warn"),
            message: concat_str("Walk warning: ", error_text),
            duration: None,
            action: None,
        },
    )
}


/// The error event of a scan that failed.
pub fn scan_error_event(error_text: &str) -> (r: AppEvent)
    ensures
        r matches AppEvent::Error(e) && e.code@ == "SCAN_ERROR"@ && e.message@
            == "Error durante el escaneo: "@ + error_text@ && e.context is None && e.severity@ == "error"@,
{
    AppEvent::Error(
        AppError {
            code: String::from_str("SCAN_ERROR"),
            message: concat_str("Error durante el escaneo: ", error_text),
            context: None,
            timestamp: unix_now(),
            severity: String::from_str("error"),
        },
    )
}

/// The folder to scan for a source: its root path when the source is known,
/// else the error `Source no encontrada`.
pub fn scan_source_root(root_path: Option<String>) -> (r: Result<String, String>)
    ensures
        match root_path {
            Some(p) => r matches Ok(x) && x@ == p@,
            None => r matches Err(e) && e@ == "Source no encontrada"@,
        },
{
    match root_path {
        Some(p) => Ok(p),
        None => Err(String::from_str("Source no encontrada")),
    }
}

/// The ids concatenated, batch after batch.
pub open spec fn flatten(ds: Seq<Seq<i64>>) -> Seq<i64>
    decreases ds.len(),
{
    if ds.len() == 0 {
        Seq::empty()
    } else {
        flatten(ds.drop_last()) + ds.last()
    }
}

/// Batching of upserted ids: the full batches sent so far, and the ids still
/// pending. A batch is sent as soon as 200 ids are pending.
pub open spec fn batch_run(ids: Seq<i64>) -> (Seq<Seq<i64>>, Seq<i64>)
    decreases ids.len(),
{
    if ids.len() == 0 {
        (Seq::empty(), Seq::empty())
    } else {
        let prev = batch_run(ids.drop_last());
        let p = prev.1.push(ids.last());
        if p.len() >= DELTA_EVERY {
            (prev.0.push(p), Seq::empty())
        } else {
            (prev.0, p)
        }
    }
}

/// All batches of a completed scan: the full batches, then the pending ids if any.
pub open spec fn all_batches(ids: Seq<i64>) -> Seq<Seq<i64>> {
    let r = batch_run(ids);
    if r.1.len() > 0 {
        r.0.push(r.1)
    } else {
        r.0
    }
}

/// `e` is a library change for `reason` of the items `ids`, naming no artist.
pub open spec fn is_library_delta(e: AppEvent, reason: Seq<char>, ids: Seq<i64>) -> bool {
    e matches AppEvent::LibraryDelta(d) && d.reason@ == reason && d.item_ids@ == ids
        && d.affected_artists@.len() == 0
}

/// `e` is scan progress with these values.
pub open spec fn is_scan_progress(
    e: AppEvent,
    source_id: i64,
    processed: u64,
    total: u64,
    phase: Seq<char>,
    current_path: Option<Seq<char>>,
) -> bool {
    &&& e matches AppEvent::ScanProgress(p)
    &&& p.source_id == source_id
    &&& p.processed == processed
    &&& p.total == Some(total)
    &&& p.phase@ == phase
    &&& match (p.current_path, current_path) {
        (Some(a), Some(b)) => a@ == b,
        (None, None) => true,
        _ => false,
    }
}

/// A scan stopped on request: nothing more is recorded or reported.
#[derive(Clone, Copy, Debug, PartialEq, Eq, Structural)]
pub struct ScanCancelled;

/// The bookkeeping of one scan: counts upserts and batches their ids.
pub struct ScanSession {
    source_id: i64,
    total: u64,
    processed: u64,
    pending: Vec<i64>,
    recorded: Ghost<Seq<i64>>,
}

impl ScanSession {
    /// The source being scanned.
    pub closed spec fn spec_source_id(&self) -> i64 {
        self.source_id
    }

    /// The number of candidate files.
    pub closed spec fn spec_total(&self) -> u64 {
        self.total
    }

    /// The ids recorded so far, in order.
    pub closed spec fn recorded(&self) -> Seq<i64> {
        self.recorded@
    }

    /// The ids recorded and not yet sent.
    pub closed spec fn pending(&self) -> Seq<i64> {
        self.pending@
    }

    /// The session is consistent: the pending ids are those the batching leaves
    /// pending, and every recorded id was counted.
    pub closed spec fn wf(&self) -> bool {
        &&& batch_run(self.recorded@).1 == self.pending@
        &&& self.processed == self.recorded@.len()
    }

    /// Starts a scan of `source_id` at `root_path` with `total` candidate files, and
    /// gives the first progress event.
    pub fn start(source_id: i64, root_path: &str, total: u64) -> (r: (ScanSession, AppEvent))
        ensures
            r.0.wf(),
            r.0.recorded().len() == 0,
            r.0.spec_source_id() == source_id,
            r.0.spec_total() == total,
            is_scan_progress(r.1, source_id, 0, total, "walking"@, Some(root_path@)),
    {
        let s = ScanSession {
            source_id,
            total,
            processed: 0,
            pending: Vec::new(),
            recorded: Ghost(Seq::empty()),
        };
        let e = AppEvent::ScanProgress(
            ScanProgress {
                source_id,
                processed: 0,
                total: Some(total),
                phase: String::from_str("walking"),
                current_path: Some(String::from_str(root_path)),
            },
        );
        (s, e)
    }

    /// Records an upserted item. Gives a progress event every 50 items and a
    /// library change with the pending ids once 200 are pending.
    pub fn record(&mut self, item_id: i64, rel_path: &str) -> (r: Vec<AppEvent>)
        requires
            old(self).wf(),
            old(self).recorded().len() < u64::MAX,
        ensures
            final(self).wf(),
            final(self).recorded() == old(self).recorded().push(item_id),
            final(self).spec_source_id() == old(self).spec_source_id(),
            final(self).spec_total() == old(self).spec_total(),
            ({
                let n = final(self).recorded().len();
                let progress = n % (PROGRESS_EVERY as nat) == 0;
                let sent = batch_run(final(self).recorded()).0.len() > batch_run(old(self).recorded()).0.len();
                &&& batch_run(final(self).recorded()).0.len() <= batch_run(old(self).recorded()).0.len() + 1
                &&& r@.len() == (if progress { 1int } else { 0int }) + (if sent { 1int } else { 0int })
                &&& progress ==> is_scan_progress(r@[0], old(self).spec_source_id(), n as u64, old(self).spec_total(), "walking"@, Some(rel_path@))
                &&& sent ==> is_library_delta(r@.last(), "upsert"@, batch_run(final(self).recorded()).0.last())
            }),
    {
        self.processed = self.processed + 1;
        self.pending.push(item_id);
        proof {
            let old_rec = self.recorded@;
            self.recorded = Ghost(old_rec.push(item_id));
            assert(self.recorded@.drop_last() =~= old_rec);
        }
        let mut events: Vec<AppEvent> = Vec::new();
        if self.processed % PROGRESS_EVERY == 0 {
            events.push(
                AppEvent::ScanProgress(
                    ScanProgress {
                        source_id: self.source_id,
                        processed: self.processed,
                        total: Some(self.total),
                        phase: String::from_str("walking"),
                        current_path: Some(String::from_str(rel_path)),
                    },
                ),
            );
        }
        if self.pending.len() >= DELTA_EVERY {
            let mut ids: Vec<i64> = Vec::new();
            std::mem::swap(&mut ids, &mut self.pending);
            events.push(AppEvent::LibraryDelta(library_delta("upsert", ids)));
        }
        events
    }

    /// The cancellation check made before each entry of the walk: when the scan was
    /// cancelled the session is given up, so no further progress, library change or
    /// done event can come from it; otherwise the walk goes on with it unchanged.
    pub fn check_cancel(self, cancelled: bool) -> (r: Result<ScanSession, ScanCancelled>)
        ensures
            cancelled <==> r is Err,
            !cancelled ==> r == Ok::<ScanSession, ScanCancelled>(self),
    {
        if cancelled {
            Err(ScanCancelled)
        } else {
            Ok(self)
        }
    }

    /// Ends the walk: gives a library change with the ids still pending, if any.
    pub fn finish_walk(&mut self) -> (r: Option<AppEvent>)
        requires
            old(self).wf(),
        ensures
            final(self).recorded() == old(self).recorded(),
            final(self).pending().len() == 0,
            final(self).spec_source_id() == old(self).spec_source_id(),
            final(self).spec_total() == old(self).spec_total(),
            match r {
                Some(e) => batch_run(old(self).recorded()).1.len() > 0 && is_library_delta(e, "upsert"@, batch_run(old(self).recorded()).1),
                None => batch_run(old(self).recorded()).1.len() == 0,
            },
    {
        if self.pending.len() == 0 {
            return None;
        }
        let mut ids: Vec<i64> = Vec::new();
        std::mem::swap(&mut ids, &mut self.pending);
        Some(AppEvent::LibraryDelta(library_delta("upsert", ids)))
    }

    /// The final progress event: everything processed, phase `done`.
    pub fn done_event(&self) -> (r: AppEvent)
        ensures
            ({
                &&& r matches AppEvent::ScanProgress(p)
                &&& p.source_id == self.spec_source_id()
                &&& p.total == Some(self.spec_total())
                &&& p.phase@ == "done"@
                &&& p.current_path is None
            }),
            self.wf() ==> (r matches AppEvent::ScanProgress(p) && p.processed == self.recorded().len()),
    {
        AppEvent::ScanProgress(
            ScanProgress {
                source_id: self.source_id,
                processed: self.processed,
                total: Some(self.total),
                phase: String::from_str("done"),
                current_path: None,
            },
        )
    }
}

/// A library change for `reason` of the items `ids`, naming no artist, stamped
/// with the current time.
fn library_delta(reason: &str, ids: Vec<i64>) -> (r: LibraryDelta)
    ensures
        is_library_delta(AppEvent::LibraryDelta(r), reason@, ids@),
{
    LibraryDelta { reason: String::from_str(reason), item_ids: ids, affected_artists: Vec::new(), timestamp: unix_now() }
}

/// How many of `flags` are set.
pub open spec fn count_true(flags: Seq<bool>) -> nat
    decreases flags.len(),
{
    if flags.len() == 0 {
        0
    } else {
        count_true(flags.drop_last()) + if flags.last() { 1nat } else { 0nat }
    }
}

/// What the end of a scan marks on a source's items: each item is missing exactly
/// when the walk did not see its path; the counts are of the items marked missing
/// and of those marked present.
pub struct MissingMarks {
    pub missing: Vec<bool>,
    pub missing_count: u64,
    pub present_count: u64,
}

/// Marks the items of a source (by full path, in order) against the paths the walk
/// saw.
pub fn missing_marks(paths: &Vec<String>, seen: &Vec<String>) -> (r: MissingMarks)
    ensures
        r.missing@.len() == paths@.len(),
        forall|i: int| 0 <= i < paths@.len() ==> r.missing@[i] == !texts_of(seen@).contains(#[trigger] paths@[i]@),
        r.missing_count == count_true(r.missing@),
        r.missing_count + r.present_count == paths@.len(),
{
    let mut set = StringHashSet::new();
    let mut j: usize = 0;
    while j < seen.len()
        invariant
            j <= seen@.len(),
            forall|p: Seq<char>| set@.contains(p) <==> texts_of(seen@).take(j as int).contains(p),
        decreases seen.len() - j,
    {
        let ghost t = texts_of(seen@).take(j as int);
        let ghost u = texts_of(seen@).take(j + 1);
        proof {
            assert(u =~= t.push(seen@[j as int]@));
        }
        set.insert(seen[j].clone());
        assert forall|p: Seq<char>| set@.contains(p) <==> u.contains(p) by {
            if t.contains(p) {
                let k = choose|k: int| 0 <= k < t.len() && t[k] == p;
                assert(u[k] == p);
            }
            if u.contains(p) {
                let k = choose|k: int| 0 <= k < u.len() && u[k] == p;
                if k < t.len() {
                    assert(t[k] == p);
                }
            }
            if p == seen@[j as int]@ {
                assert(u[j as int] == p);
            }
        }
        j += 1;
    }
    assert(texts_of(seen@).take(seen@.len() as int) =~= texts_of(seen@));
    let mut missing: Vec<bool> = Vec::new();
    let mut count: u64 = 0;
    let mut i: usize = 0;
    while i < paths.len()
        invariant
            i <= paths@.len(),
            missing@.len() == i,
            forall|p: Seq<char>| set@.contains(p) <==> texts_of(seen@).contains(p),
            forall|k: int| 0 <= k < i ==> missing@[k] == !texts_of(seen@).contains(#[trigger] paths@[k]@),
            count == count_true(missing@),
            count <= i,
        decreases paths.len() - i,
    {
        let absent = !set.contains(paths[i].as_str());
        let ghost before = missing@;
        missing.push(absent);
        assert(missing@.drop_last() =~= before);
        if absent {
            count = count + 1;
        }
        i += 1;
    }
    MissingMarks { missing, missing_count: count, present_count: (paths.len() as u64) - count }
}

/// The change event after marking missing files: sent only when some file changed
/// between present and missing.
pub fn missing_delta(missing: u64, unmissing: u64) -> (r: Option<AppEvent>)
    ensures
        (missing > 0 || unmissing > 0) ==> (r matches Some(e) && is_library_delta(e, "missing"@, Seq::empty())),
        !(missing > 0 || unmissing > 0) ==> r is None,
{
    if missing > 0 || unmissing > 0 {
        let ids: Vec<i64> = Vec::new();
        assert(ids@ =~= Seq::<i64>::empty());
        Some(AppEvent::LibraryDelta(library_delta("missing", ids)))
    } else {
        None
    }
}

/// Batching loses and repeats nothing: the batches of a scan, concatenated, are the
/// upserted ids in order; every batch is non-empty and holds at most 200 ids, and
/// all but the last hold exactly 200.
pub proof fn law_batches_partition_ids(ids: Seq<i64>)
    ensures
        flatten(all_batches(ids)) == ids,
        forall|i: int| 0 <= i < all_batches(ids).len() ==> 0 < (#[trigger] all_batches(ids)[i]).len() <= DELTA_EVERY,
        forall|i: int| 0 <= i < batch_run(ids).0.len() ==> (#[trigger] batch_run(ids).0[i]).len() == DELTA_EVERY,
{
    lemma_batch_run(ids);
    let r = batch_run(ids);
    if r.1.len() > 0 {
        assert(r.0.push(r.1).drop_last() =~= r.0);
    }
}

/// The invariant of `batch_run`.
proof fn lemma_batch_run(ids: Seq<i64>)
    ensures
        flatten(batch_run(ids).0) + batch_run(ids).1 == ids,
        batch_run(ids).1.len() < DELTA_EVERY,
        forall|i: int| 0 <= i < batch_run(ids).0.len() ==> (#[trigger] batch_run(ids).0[i]).len() == DELTA_EVERY,
    decreases ids.len(),
{
    if ids.len() > 0 {
        let prev = batch_run(ids.drop_last());
        lemma_batch_run(ids.drop_last());
        let p = prev.1.push(ids.last());
        assert(flatten(prev.0) + p =~= ids) by {
            assert(ids =~= ids.drop_last().push(ids.last()));
        }
        if p.len() >= DELTA_EVERY {
            assert(prev.0.push(p).drop_last() =~= prev.0);
            assert(flatten(prev.0.push(p)) + Seq::<i64>::empty() =~= ids);
        }
    }
}


/// The first, second and last characters of an extension, which tell every audio
/// extension from every video one.
spec fn ext_key(s: Seq<char>) -> (char, char, char) {
    (s[0], s[1], s[s.len() - 1])
}

/// The key of a listed audio extension is one of the keys of its literals.
proof fn lemma_audio_key(e: Seq<char>)
    requires
        in_list(e, audio_exts()),
    ensures
        ext_key(e) == ('a', 'a', 'c')
            || ext_key(e) == ('a', 'i', 'f')
            || ext_key(e) == ('a', 'l', 'c')
            || ext_key(e) == ('a', 'p', 'e')
            || ext_key(e) == ('f', 'l', 'c')
            || ext_key(e) == ('m', '4', 'a')
            || ext_key(e) == ('m', '4', 'b')
            || ext_key(e) == ('m', 'p', '1')
            || ext_key(e) == ('m', 'p', '2')
            || ext_key(e) == ('m', 'p', '3')
            || ext_key(e) == ('o', 'g', 'a')
            || ext_key(e) == ('o', 'g', 'g')
            || ext_key(e) == ('o', 'p', 's')
            || ext_key(e) == ('r', 'a', 'a')
            || ext_key(e) == ('r', 'a', 'm')
            || ext_key(e) == ('s', 'n', 'd')
            || ext_key(e) == ('s', 'p', 'x')
            || ext_key(e) == ('t', 't', 'a')
            || ext_key(e) == ('v', 'o', 'c')
            || ext_key(e) == ('v', 'q', 'f')
            || ext_key(e) == ('w', '6', '4')
            || ext_key(e) == ('w', 'a', 'v')
            || ext_key(e) == ('w', 'e', 'a')
            || ext_key(e) == ('w', 'm', 'a')
            || ext_key(e) == ('w', 'v', 'v'),
{
    let i = choose|i: int| 0 <= i < audio_exts().len() && e == (#[trigger] audio_exts()[i])@;
    reveal_strlit("aac");
    assert(ext_key(audio_exts()[0]@) == ('a', 'a', 'c'));
    reveal_strlit("aiff");
    assert(ext_key(audio_exts()[1]@) == ('a', 'i', 'f'));
    reveal_strlit("alac");
    assert(ext_key(audio_exts()[2]@) == ('a', 'l', 'c'));
    reveal_strlit("ape");
    assert(ext_key(audio_exts()[3]@) == ('a', 'p', 'e'));
    reveal_strlit("flac");
    assert(ext_key(audio_exts()[4]@) == ('f', 'l', 'c'));
    reveal_strlit("m4a");
    assert(ext_key(audio_exts()[5]@) == ('m', '4', 'a'));
    reveal_strlit("m4b");
    assert(ext_key(audio_exts()[6]@) == ('m', '4', 'b'));
    reveal_strlit("mp1");
    assert(ext_key(audio_exts()[7]@) == ('m', 'p', '1'));
    reveal_strlit("mp2");
    assert(ext_key(audio_exts()[8]@) == ('m', 'p', '2'));
    reveal_strlit("mp3");
    assert(ext_key(audio_exts()[9]@) == ('m', 'p', '3'));
    reveal_strlit("oga");
    assert(ext_key(audio_exts()[10]@) == ('o', 'g', 'a'));
    reveal_strlit("ogg");
    assert(ext_key(audio_exts()[11]@) == ('o', 'g', 'g'));
    reveal_strlit("opus");
    assert(ext_key(audio_exts()[12]@) == ('o', 'p', 's'));
    reveal_strlit("ra");
    assert(ext_key(audio_exts()[13]@) == ('r', 'a', 'a'));
    reveal_strlit("ram");
    assert(ext_key(audio_exts()[14]@) == ('r', 'a', 'm'));
    reveal_strlit("snd");
    assert(ext_key(audio_exts()[15]@) == ('s', 'n', 'd'));
    reveal_strlit("spx");
    assert(ext_key(audio_exts()[16]@) == ('s', 'p', 'x'));
    reveal_strlit("tta");
    assert(ext_key(audio_exts()[17]@) == ('t', 't', 'a'));
    reveal_strlit("voc");
    assert(ext_key(audio_exts()[18]@) == ('v', 'o', 'c'));
    reveal_strlit("vqf");
    assert(ext_key(audio_exts()[19]@) == ('v', 'q', 'f'));
    reveal_strlit("w64");
    assert(ext_key(audio_exts()[20]@) == ('w', '6', '4'));
    reveal_strlit("wav");
    assert(ext_key(audio_exts()[21]@) == ('w', 'a', 'v'));
    reveal_strlit("weba");
    assert(ext_key(audio_exts()[22]@) == ('w', 'e', 'a'));
    reveal_strlit("wma");
    assert(ext_key(audio_exts()[23]@) == ('w', 'm', 'a'));
    reveal_strlit("wv");
    assert(ext_key(audio_exts()[24]@) == ('w', 'v', 'v'));
}

/// The key of a listed video extension is one of the keys of its literals.
proof fn lemma_video_key(e: Seq<char>)
    requires
        in_list(e, video_exts()),
    ensures
        ext_key(e) == ('3', 'g', '2')
            || ext_key(e) == ('3', 'g', 'p')
            || ext_key(e) == ('a', 'v', 'i')
            || ext_key(e) == ('f', 'l', 'v')
            || ext_key(e) == ('m', '2', 's')
            || ext_key(e) == ('m', '4', 'v')
            || ext_key(e) == ('m', 'k', 'v')
            || ext_key(e) == ('m', 'o', 'v')
            || ext_key(e) == ('m', 'p', '4')
            || ext_key(e) == ('m', 'p', 'g')
            || ext_key(e) == ('m', 't', 's')
            || ext_key(e) == ('o', 'g', 'v')
            || ext_key(e) == ('r', 'm', 'm')
            || ext_key(e) == ('r', 'm', 'b')
            || ext_key(e) == ('t', 's', 's')
            || ext_key(e) == ('w', 'e', 'm')
            || ext_key(e) == ('w', 'm', 'v'),
{
    let i = choose|i: int| 0 <= i < video_exts().len() && e == (#[trigger] video_exts()[i])@;
    reveal_strlit("3g2");
    assert(ext_key(video_exts()[0]@) == ('3', 'g', '2'));
    reveal_strlit("3gp");
    assert(ext_key(video_exts()[1]@) == ('3', 'g', 'p'));
    reveal_strlit("avi");
    assert(ext_key(video_exts()[2]@) == ('a', 'v', 'i'));
    reveal_strlit("flv");
    assert(ext_key(video_exts()[3]@) == ('f', 'l', 'v'));
    reveal_strlit("m2ts");
    assert(ext_key(video_exts()[4]@) == ('m', '2', 's'));
    reveal_strlit("m4v");
    assert(ext_key(video_exts()[5]@) == ('m', '4', 'v'));
    reveal_strlit("mkv");
    assert(ext_key(video_exts()[6]@) == ('m', 'k', 'v'));
    reveal_strlit("mov");
    assert(ext_key(video_exts()[7]@) == ('m', 'o', 'v'));
    reveal_strlit("mp4");
    assert(ext_key(video_exts()[8]@) == ('m', 'p', '4'));
    reveal_strlit("mpeg");
    assert(ext_key(video_exts()[9]@) == ('m', 'p', 'g'));
    reveal_strlit("mpg");
    assert(ext_key(video_exts()[10]@) == ('m', 'p', 'g'));
    reveal_strlit("mts");
    assert(ext_key(video_exts()[11]@) == ('m', 't', 's'));
    reveal_strlit("ogv");
    assert(ext_key(video_exts()[12]@) == ('o', 'g', 'v'));
    reveal_strlit("rm");
    assert(ext_key(video_exts()[13]@) == ('r', 'm', 'm'));
    reveal_strlit("rmvb");
    assert(ext_key(video_exts()[14]@) == ('r', 'm', 'b'));
    reveal_strlit("ts");
    assert(ext_key(video_exts()[15]@) == ('t', 's', 's'));
    reveal_strlit("webm");
    assert(ext_key(video_exts()[16]@) == ('w', 'e', 'm'));
    reveal_strlit("wmv");
    assert(ext_key(video_exts()[17]@) == ('w', 'm', 'v'));
}

/// No extension is both an audio and a video one.
proof fn lemma_media_lists_disjoint(e: Seq<char>)
    ensures
        !(in_list(e, audio_exts()) && in_list(e, video_exts())),
{
    if in_list(e, audio_exts()) && in_list(e, video_exts()) {
        lemma_audio_key(e);
        lemma_video_key(e);
    }
}

/// The media kind of a path is read off the two extension lists, which share no
/// extension: `audio` exactly for a listed audio extension, `video` exactly for a
/// listed video one, and a path is a scan candidate exactly when its kind is known.
pub proof fn law_media_type_follows_lists(p: Seq<char>)
    ensures
        (spec_guess_media_type(p) == "audio"@) <==> (candidate_ext(p) matches Some(e) && in_list(e, audio_exts())),
        (spec_guess_media_type(p) == "video"@) <==> (candidate_ext(p) matches Some(e) && in_list(e, video_exts())),
        spec_is_candidate_media(p) <==> (candidate_ext(p) matches Some(e) && (in_list(e, audio_exts()) || in_list(e, video_exts()))),
{
    reveal_strlit("audio");
    reveal_strlit("video");
    reveal_strlit("unknown");
    assert("audio"@[0] != "video"@[0]);
    if let Some(e) = candidate_ext(p) {
        lemma_media_lists_disjoint(e);
    }
}


/// Where the last `.` of a name is: `last_dot` finds a dot with none after it, and
/// finds none only in a name without dots.
proof fn lemma_last_dot(n: Seq<char>)
    ensures
        match last_dot(n) {
            Some(j) => 0 <= j < n.len() && n[j] == '.' && forall|k: int| j < k < n.len() ==> n[k] != '.',
            None => forall|k: int| 0 <= k < n.len() ==> n[k] != '.',
        },
    decreases n.len(),
{
    if n.len() > 0 && n.last() != '.' {
        lemma_last_dot(n.drop_last());
        assert forall|k: int| 0 <= k < n.len() - 1 implies n[k] == n.drop_last()[k] by {}
    }
}

/// The title of a scanned file is its file stem: the file name without the text
/// after its last dot, when that dot is not the first character; the whole name
/// when it has no dot after its first character; `Untitled` without a file name.
pub proof fn law_title_is_file_stem(p: Seq<char>)
    ensures
        spec_file_name(p) is None ==> spec_title(p) == "Untitled"@,
        spec_file_name(p) matches Some(n) ==> {
            ||| (spec_title(p) == n && forall|k: int| 0 < k < n.len() ==> n[k] != '.')
            ||| exists|j: int| {
                &&& 0 < j < n.len()
                &&& n[j] == '.'
                &&& (forall|k: int| j < k < n.len() ==> n[k] != '.')
                &&& spec_title(p) == n.take(j)
            }
        },
{
    if let Some(n) = spec_file_name(p) {
        lemma_last_dot(n);
        match last_dot(n) {
            Some(j) => {
                if j > 0 {
                    assert(spec_title(p) == n.take(j));
                }
            },
            None => {},
        }
    }
}
} // verus!
