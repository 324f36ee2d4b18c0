//! The download worker: a job of the download queue is fetched with yt-dlp into
//! `<media root>/<audio|video>/<artist>/<title>.<ext>`, entered in the media library
//! and linked from the play queue. The storage and process work is done by the
//! caller; this module decides each step and what a step's outcome leads to.

use vstd::prelude::*;
use crate::admin::random_uuid;
use crate::paths::{extension_of, join_path, spec_extension, spec_join};
use crate::storage::{
    candidate_name, fallback_name, media_artist_dir, path_strip_prefix, backslashes_to_slashes,
    name_taken_message, sanitize_path_component, spec_sanitize, to_relative_path, unique_file_path,
};
use crate::text::{chars_of, chars_equal_str, concat_str};
use crate::ytdlp::youtube_url_from_id;

verus! {

/// A field of a JSON object as read for its text.
pub enum JsonField {
    /// The object has no such field (or the document is not an object).
    Absent,
    /// The field holds something else than a string.
    NotText,
    /// The field holds this string.
    Text(String),
}

/// A JSON field as a mathematical value.
pub enum FieldView {
    Absent,
    NotText,
    Text(Seq<char>),
}

/// The view of a field.
pub open spec fn field_view(f: JsonField) -> FieldView {
    match f {
        JsonField::Absent => FieldView::Absent,
        JsonField::NotText => FieldView::NotText,
        JsonField::Text(s) => FieldView::Text(s@),
    }
}

/// The view of a field read from a document, or the parse error.
pub open spec fn field_result_view(r: Result<JsonField, String>) -> Result<FieldView, Seq<char>> {
    match r {
        Ok(f) => Ok(field_view(f)),
        Err(e) => Err(e@),
    }
}

/// What `serde_json::from_slice::<serde_json::Value>` followed by `Value::get(key)`
/// and `Value::as_str` gives for a document: the field, or the parse error's text.
pub uninterp spec fn json_text_field(bytes: Seq<u8>, key: Seq<char>) -> Result<FieldView, Seq<char>>;

/// Parses `bytes` with `serde_json::from_slice` as a `serde_json::Value` and reads
/// the field `key` (`Value::get`, then `Value::as_str`); the result is the named
/// field of the document, and the error is the parse error rendered as text.
#[verifier::external_body]
fn json_field(bytes: &[u8], key: &str) -> (r: Result<JsonField, String>)
    ensures
        field_result_view(r) == json_text_field(bytes@, key@),
{
    match serde_json::from_slice::<serde_json::Value>(bytes) {
        Ok(v) => Ok(match v.get(key) {
            None => JsonField::Absent,
            Some(x) => match x.as_str() {
                Some(s) => JsonField::Text(s.to_string()),
                None => JsonField::NotText,
            },
        }),
        Err(e) => Err(e.to_string()),
    }
}

/// The text of a field, `Unknown` when it holds none.
pub open spec fn text_or_unknown(f: FieldView) -> Seq<char> {
    match f {
        FieldView::Text(s) => s,
        _ => "Unknown"@,
    }
}

/// Title and artist of a video from its metadata fields `title`, `uploader` and
/// `channel`: the artist is the uploader, or the channel when there is no uploader
/// field; `Unknown` for whatever holds no text. The first parse error wins.
pub open spec fn video_metadata(
    title: Result<FieldView, Seq<char>>,
    uploader: Result<FieldView, Seq<char>>,
    channel: Result<FieldView, Seq<char>>,
) -> Result<(Seq<char>, Seq<char>), Seq<char>> {
    match (title, uploader, channel) {
        (Err(e), _, _) => Err(e),
        (Ok(_), Err(e), _) => Err(e),
        (Ok(_), Ok(_), Err(e)) => Err(e),
        (Ok(t), Ok(u), Ok(c)) => Ok((
            text_or_unknown(t),
            match u {
                FieldView::Absent => text_or_unknown(c),
                _ => text_or_unknown(u),
            },
        )),
    }
}

/// The view of a title-and-artist result.
pub open spec fn pair_result_view(r: Result<(String, String), String>) -> Result<(Seq<char>, Seq<char>), Seq<char>> {
    match r {
        Ok((a, b)) => Ok((a@, b@)),
        Err(e) => Err(e@),
    }
}

fn text_or_unknown_of(f: JsonField) -> (r: String)
    ensures
        r@ == text_or_unknown(field_view(f)),
{
    match f {
        JsonField::Text(s) => s,
        _ => String::from_str("Unknown"),
    }
}

/// Title and artist from the three metadata fields as read (see `video_metadata`).
pub fn metadata_from_fields(
    title: Result<JsonField, String>,
    uploader: Result<JsonField, String>,
    channel: Result<JsonField, String>,
) -> (r: Result<(String, String), String>)
    ensures
        pair_result_view(r) == video_metadata(
            field_result_view(title),
            field_result_view(uploader),
            field_result_view(channel),
        ),
{
    let t = match title {
        Err(e) => return Err(e),
        Ok(t) => t,
    };
    let u = match uploader {
        Err(e) => return Err(e),
        Ok(u) => u,
    };
    let c = match channel {
        Err(e) => return Err(e),
        Ok(c) => c,
    };
    let title_text = text_or_unknown_of(t);
    let artist = match u {
        JsonField::Absent => text_or_unknown_of(c),
        other => text_or_unknown_of(other),
    };
    Ok((title_text, artist))
}

/// Title and artist of a video from the JSON that `yt-dlp -j` printed.
pub fn read_video_metadata(json: &[u8]) -> (r: Result<(String, String), String>)
    ensures
        pair_result_view(r) == video_metadata(
            json_text_field(json@, "title"@),
            json_text_field(json@, "uploader"@),
            json_text_field(json@, "channel"@),
        ),
{
    let t = json_field(json, "title");
    let u = json_field(json, "uploader");
    let c = json_field(json, "channel");
    metadata_from_fields(t, u, c)
}

/// The texts of a list of strings.
pub open spec fn texts(v: Seq<String>) -> Seq<Seq<char>> {
    v.map_values(|s: String| s@)
}

pub(crate) fn push_text(v: &mut Vec<String>, s: String)
    ensures
        texts(final(v)@) == texts(old(v)@).push(s@),
{
    let ghost sv = s@;
    v.push(s);
    assert(texts(v@) =~= texts(old(v)@).push(sv));
}

/// yt-dlp arguments that print a video's metadata as JSON without downloading it.
pub open spec fn metadata_args(url: Seq<char>) -> Seq<Seq<char>> {
    seq!["-j"@, "--no-warnings"@, "--no-download"@, url]
}

/// yt-dlp arguments that download `url` as an MP3 to `path`.
pub open spec fn audio_download_args(path: Seq<char>, url: Seq<char>) -> Seq<Seq<char>> {
    seq!["-x"@, "--audio-format"@, "mp3"@, "--audio-quality"@, "0"@, "-o"@, path, "--no-warnings"@, url]
}

/// yt-dlp arguments that download `url` as an MP4 to `path`.
pub open spec fn video_download_args(path: Seq<char>, url: Seq<char>) -> Seq<Seq<char>> {
    seq![
        "-f"@,
        "bestvideo[ext=mp4]+bestaudio[ext=m4a]/best[ext=mp4]/best"@,
        "--merge-output-format"@,
        "mp4"@,
        "-o"@,
        path,
        "--no-warnings"@,
        url,
    ]
}

/// The metadata arguments for `url`.
pub fn metadata_command_args(url: &str) -> (r: Vec<String>)
    ensures
        texts(r@) == metadata_args(url@),
{
    let mut v: Vec<String> = Vec::new();
    push_text(&mut v, String::from_str("-j"));
    push_text(&mut v, String::from_str("--no-warnings"));
    push_text(&mut v, String::from_str("--no-download"));
    push_text(&mut v, String::from_str(url));
    assert(texts(v@) =~= metadata_args(url@));
    v
}

/// The download arguments for `url` into `path`: MP3 for `audio`, MP4 otherwise.
pub fn download_command_args(media_type: &str, path: &str, url: &str) -> (r: Vec<String>)
    ensures
        texts(r@) == if media_type@ == "audio"@ {
            audio_download_args(path@, url@)
        } else {
            video_download_args(path@, url@)
        },
{
    let mut v: Vec<String> = Vec::new();
    if chars_equal_str(&chars_of(media_type), "audio") {
        push_text(&mut v, String::from_str("-x"));
        push_text(&mut v, String::from_str("--audio-format"));
        push_text(&mut v, String::from_str("mp3"));
        push_text(&mut v, String::from_str("--audio-quality"));
        push_text(&mut v, String::from_str("0"));
        push_text(&mut v, String::from_str("-o"));
        push_text(&mut v, String::from_str(path));
        push_text(&mut v, String::from_str("--no-warnings"));
        push_text(&mut v, String::from_str(url));
        assert(texts(v@) =~= audio_download_args(path@, url@));
    } else {
        push_text(&mut v, String::from_str("-f"));
        push_text(&mut v, String::from_str("bestvideo[ext=mp4]+bestaudio[ext=m4a]/best[ext=mp4]/best"));
        push_text(&mut v, String::from_str("--merge-output-format"));
        push_text(&mut v, String::from_str("mp4"));
        push_text(&mut v, String::from_str("-o"));
        push_text(&mut v, String::from_str(path));
        push_text(&mut v, String::from_str("--no-warnings"));
        push_text(&mut v, String::from_str(url));
        assert(texts(v@) =~= video_download_args(path@, url@));
    }
    v
}

/// What a yt-dlp download run reported.
pub struct DownloadOutput {
    /// The output directory could not be made (the error's text).
    pub setup_error: Option<String>,
    /// yt-dlp could not be started (the error's text).
    pub launch_error: Option<String>,
    /// yt-dlp exited successfully.
    pub success: bool,
    /// What yt-dlp wrote to its error stream.
    pub stderr: String,
    /// The output file exists after the run.
    pub file_exists: bool,
}

/// The outcome of a download into `path`: the path, or the error.
pub open spec fn download_outcome(media_type: Seq<char>, path: Seq<char>, out: DownloadOutput) -> Result<Seq<char>, Seq<char>> {
    match out.setup_error {
        Some(e) => Err(e@),
        None => match out.launch_error {
            Some(e) => Err("yt-dlp: "@ + e@),
            None => if !out.success {
                Err("yt-dlp download error: "@ + out.stderr@)
            } else if !out.file_exists {
                Err(if media_type == "audio"@ {
                    "No se encontró archivo mp3 generado"@
                } else {
                    "No se encontró archivo mp4 generado"@
                })
            } else {
                Ok(path)
            },
        },
    }
}

/// The view of a path-or-error result.
pub open spec fn text_result_view(r: Result<String, String>) -> Result<Seq<char>, Seq<char>> {
    match r {
        Ok(s) => Ok(s@),
        Err(e) => Err(e@),
    }
}

/// Decides the outcome of a download (see `download_outcome`).
pub fn download_result(media_type: &str, path: &str, out: DownloadOutput) -> (r: Result<String, String>)
    ensures
        text_result_view(r) == download_outcome(media_type@, path@, out),
{
    let ghost o = out;
    let DownloadOutput { setup_error, launch_error, success, stderr, file_exists } = out;
    if let Some(e) = setup_error {
        return Err(e);
    }
    if let Some(e) = launch_error {
        return Err(concat_str("yt-dlp: ", e.as_str()));
    }
    if !success {
        return Err(concat_str("yt-dlp download error: ", stderr.as_str()));
    }
    if !file_exists {
        if chars_equal_str(&chars_of(media_type), "audio") {
            return Err(String::from_str("No se encontró archivo mp3 generado"));
        } else {
            return Err(String::from_str("No se encontró archivo mp4 generado"));
        }
    }
    Ok(String::from_str(path))
}

/// The stream URL of a library item: `/api/media/stream?id=<id>&source=local`.
pub open spec fn local_stream_url(id: Seq<char>) -> Seq<char> {
    "/api/media/stream?id="@ + id + "&source=local"@
}

/// Builds `local_stream_url(id)`.
pub fn local_stream_url_of(id: &str) -> (r: String)
    ensures
        r@ == local_stream_url(id@),
{
    concat_str("/api/media/stream?id=", id).concat("&source=local")
}


/// The steps of a download job.
#[derive(Clone, Copy, Debug, PartialEq, Eq, Structural)]
pub enum JobStage {
    /// The job is being marked `downloading`.
    MarkingDownloading,
    /// yt-dlp is printing the video's metadata.
    FetchingMetadata,
    /// The artist's directory is being made.
    CreatingDir,
    /// yt-dlp is downloading the file.
    Downloading,
    /// The job is being marked `failed`.
    MarkingFailed,
    /// The file is being entered in the media library.
    InsertingLibrary,
    /// The job is being marked `done`.
    MarkingDone,
    /// The play queue entries of the job get their stream URL.
    UpdatingQueue,
    /// Nothing more to do.
    Finished,
}

/// What a yt-dlp run that prints metadata reported.
pub struct ProcessOutput {
    /// yt-dlp could not be started (the error's text).
    pub launch_error: Option<String>,
    /// yt-dlp exited successfully.
    pub success: bool,
    /// What yt-dlp printed.
    pub stdout: Vec<u8>,
    /// What yt-dlp wrote to its error stream, as text.
    pub stderr: String,
}

/// A new entry of the media library.
pub struct LibraryEntry {
    pub id: String,
    pub title: String,
    pub artist: Option<String>,
    pub album: Option<String>,
    pub source: String,
    pub file_path: String,
    pub duration_seconds: Option<i64>,
    pub thumbnail_url: Option<String>,
    pub media_type: String,
    pub external_id: Option<String>,
}

/// What the caller does next for a job.
pub enum JobAction {
    /// Update the job's row: status, progress in percent, file path, error.
    UpdateStatus { status: String, progress_percent: Option<u32>, file_path: Option<String>, error: Option<String> },
    /// Run yt-dlp with these arguments and report its output.
    FetchMetadata { args: Vec<String> },
    /// Make this directory (and its parents).
    CreateDir { path: String },
    /// Make the parent of `output_path`, run yt-dlp with these arguments and report.
    Download { args: Vec<String>, output_path: String },
    /// Insert this entry in the media library.
    InsertLibrary { entry: LibraryEntry },
    /// Set this stream URL on the queue entries of the job.
    UpdateQueueStream { stream_url: String },
    /// The job is over, with this result.
    Finish { result: Result<(), String> },
}

/// `a` updates the job row as given.
pub open spec fn is_status(
    a: JobAction,
    status: Seq<char>,
    progress: Option<u32>,
    file_path: Option<Seq<char>>,
    error: Option<Seq<char>>,
) -> bool {
    a matches JobAction::UpdateStatus { status: s, progress_percent: p, file_path: f, error: e } && s@ == status
        && p == progress && match f {
        Some(x) => file_path == Some(x@),
        None => file_path is None,
    } && match e {
        Some(x) => error == Some(x@),
        None => error is None,
    }
}

/// `a` ends the job with `res`.
pub open spec fn is_finish(a: JobAction, res: Result<(), Seq<char>>) -> bool {
    a matches JobAction::Finish { result } && match result {
        Ok(_) => res is Ok,
        Err(e) => res == Err::<(), Seq<char>>(e@),
    }
}

/// `a` ends the job because even the clock-based file name in `dir` is taken.
pub open spec fn finished_name_taken(a: JobAction, dir: Seq<char>, base: Seq<char>, ext: Seq<char>) -> bool {
    match a {
        JobAction::Finish { result: Err(e) } => exists|h: nat|
            h < 0xFFFF && e@ == name_taken_message(spec_join(dir, #[trigger] fallback_name(base, ext, h))),
        _ => false,
    }
}

/// The sub-directory of the media root for a media type.
pub open spec fn media_kind(media_type: Seq<char>) -> Seq<char> {
    if media_type == "audio"@ {
        "audio"@
    } else {
        "video"@
    }
}

/// The file extension for a media type.
pub open spec fn media_ext(media_type: Seq<char>) -> Seq<char> {
    if media_type == "audio"@ {
        "mp3"@
    } else {
        "mp4"@
    }
}

/// Title and artist as read from a metadata run.
pub open spec fn metadata_outcome(out: ProcessOutput) -> Result<(Seq<char>, Seq<char>), Seq<char>> {
    match out.launch_error {
        Some(e) => Err(e@),
        None => if !out.success {
            Err(out.stderr@)
        } else {
            video_metadata(
                json_text_field(out.stdout@, "title"@),
                json_text_field(out.stdout@, "uploader"@),
                json_text_field(out.stdout@, "channel"@),
            )
        },
    }
}

/// The database path of a downloaded file: relative to the media root, with `/`.
pub open spec fn relative_for_db(media_root: Seq<char>, path: Seq<char>) -> Seq<char> {
    match path_strip_prefix(path, media_root) {
        Some(rest) => backslashes_to_slashes(rest),
        None => path,
    }
}

/// One download job being run.
pub struct DownloadRun {
    pub job_id: String,
    pub youtube_id: String,
    pub media_type: String,
    pub media_root: String,
    pub stage: JobStage,
    /// The video's watch URL.
    pub url: String,
    pub title: String,
    pub artist: String,
    /// The sanitised title, the file's base name.
    pub title_name: String,
    /// The artist's directory.
    pub dir: String,
    pub output_path: String,
    /// The file's path as stored in the database.
    pub relative: String,
    /// The id of the library entry.
    pub lib_id: String,
    /// The error of a failed download.
    pub error: String,
}

/// `b` is the same job as `a`.
pub open spec fn same_job(a: DownloadRun, b: DownloadRun) -> bool {
    &&& a.job_id == b.job_id
    &&& a.youtube_id == b.youtube_id
    &&& a.media_type == b.media_type
    &&& a.media_root == b.media_root
    &&& a.url == b.url
}

/// `b` is `a` with at most its stage changed.
pub open spec fn same_record(a: DownloadRun, b: DownloadRun) -> bool {
    &&& same_job(a, b)
    &&& a.title == b.title
    &&& a.artist == b.artist
    &&& a.title_name == b.title_name
    &&& a.dir == b.dir
    &&& a.output_path == b.output_path
    &&& a.relative == b.relative
    &&& a.lib_id == b.lib_id
    &&& a.error == b.error
}

impl DownloadRun {
    /// Starts a job: it is first marked `downloading` at progress 0.
    pub fn start(job_id: String, youtube_id: String, media_type: String, media_root: String) -> (r: (DownloadRun, JobAction))
        ensures
            r.0.job_id@ == job_id@,
            r.0.youtube_id@ == youtube_id@,
            r.0.media_type@ == media_type@,
            r.0.media_root@ == media_root@,
            r.0.url@ == "https://www.youtube.com/watch?v="@ + youtube_id@,
            r.0.stage == JobStage::MarkingDownloading,
            is_status(r.1, "downloading"@, Some(0u32), None, None),
    {
        let url = youtube_url_from_id(youtube_id.as_str());
        let run = DownloadRun {
            job_id,
            youtube_id,
            media_type,
            media_root,
            stage: JobStage::MarkingDownloading,
            url,
            title: String::new(),
            artist: String::new(),
            title_name: String::new(),
            dir: String::new(),
            output_path: String::new(),
            relative: String::new(),
            lib_id: String::new(),
            error: String::new(),
        };
        let a = JobAction::UpdateStatus {
            status: String::from_str("downloading"),
            progress_percent: Some(0),
            file_path: None,
            error: None,
        };
        (run, a)
    }

    /// A database write of the job finished with `res`.
    pub fn on_store(&mut self, res: Result<(), String>) -> (a: JobAction)
        requires
            old(self).stage == JobStage::MarkingDownloading || old(self).stage == JobStage::MarkingFailed
                || old(self).stage == JobStage::InsertingLibrary || old(self).stage == JobStage::MarkingDone
                || old(self).stage == JobStage::UpdatingQueue,
        ensures
            same_record(*old(self), *final(self)),
            old(self).stage == JobStage::MarkingDownloading ==> match res {
                Ok(_) => final(self).stage == JobStage::FetchingMetadata
                    && (a matches JobAction::FetchMetadata { args } && texts(args@) == metadata_args(old(self).url@)),
                Err(e) => final(self).stage == JobStage::Finished && is_finish(a, Err(e@)),
            },
            old(self).stage == JobStage::MarkingFailed ==> final(self).stage == JobStage::Finished
                && is_finish(a, Err(old(self).error@)),
            old(self).stage == JobStage::InsertingLibrary ==> match res {
                Ok(_) => final(self).stage == JobStage::MarkingDone
                    && is_status(a, "done"@, Some(100u32), Some(old(self).relative@), None),
                Err(e) => final(self).stage == JobStage::Finished && is_finish(a, Err(e@)),
            },
            old(self).stage == JobStage::MarkingDone ==> match res {
                Ok(_) => final(self).stage == JobStage::UpdatingQueue
                    && (a matches JobAction::UpdateQueueStream { stream_url } && stream_url@ == local_stream_url(old(self).lib_id@)),
                Err(e) => final(self).stage == JobStage::Finished && is_finish(a, Err(e@)),
            },
            old(self).stage == JobStage::UpdatingQueue ==> final(self).stage == JobStage::Finished && match res {
                Ok(_) => is_finish(a, Ok(())),
                Err(e) => is_finish(a, Err(e@)),
            },
    {
        match self.stage {
            JobStage::MarkingDownloading => match res {
                Ok(_) => {
                    self.stage = JobStage::FetchingMetadata;
                    JobAction::FetchMetadata { args: metadata_command_args(self.url.as_str()) }
                },
                Err(e) => {
                    self.stage = JobStage::Finished;
                    JobAction::Finish { result: Err(e) }
                },
            },
            JobStage::MarkingFailed => {
                self.stage = JobStage::Finished;
                JobAction::Finish { result: Err(self.error.clone()) }
            },
            JobStage::InsertingLibrary => match res {
                Ok(_) => {
                    self.stage = JobStage::MarkingDone;
                    JobAction::UpdateStatus {
                        status: String::from_str("done"),
                        progress_percent: Some(100),
                        file_path: Some(self.relative.clone()),
                        error: None,
                    }
                },
                Err(e) => {
                    self.stage = JobStage::Finished;
                    JobAction::Finish { result: Err(e) }
                },
            },
            JobStage::MarkingDone => match res {
                Ok(_) => {
                    self.stage = JobStage::UpdatingQueue;
                    JobAction::UpdateQueueStream { stream_url: local_stream_url_of(self.lib_id.as_str()) }
                },
                Err(e) => {
                    self.stage = JobStage::Finished;
                    JobAction::Finish { result: Err(e) }
                },
            },
            _ => {
                self.stage = JobStage::Finished;
                match res {
                    Ok(_) => JobAction::Finish { result: Ok(()) },
                    Err(e) => JobAction::Finish { result: Err(e) },
                }
            },
        }
    }

    /// The metadata run finished: on success the artist's directory is made next.
    pub fn on_metadata(&mut self, out: ProcessOutput) -> (a: JobAction)
        requires
            old(self).stage == JobStage::FetchingMetadata,
        ensures
            same_job(*old(self), *final(self)),
            match metadata_outcome(out) {
                Err(e) => final(self).stage == JobStage::Finished && is_finish(a, Err(e)),
                Ok((t, ar)) => {
                    &&& final(self).stage == JobStage::CreatingDir
                    &&& final(self).title@ == t
                    &&& final(self).artist@ == ar
                    &&& final(self).title_name@ == spec_sanitize(t)
                    &&& final(self).dir@ == spec_join(
                        spec_join(old(self).media_root@, media_kind(old(self).media_type@)),
                        spec_sanitize(ar),
                    )
                    &&& a matches JobAction::CreateDir { path } && path@ == final(self).dir@
                },
            },
    {
        let ghost o = out;
        let ProcessOutput { launch_error, success, stdout, stderr } = out;
        let parsed = if let Some(e) = launch_error {
            Err(e)
        } else if !success {
            Err(stderr)
        } else {
            read_video_metadata(stdout.as_slice())
        };
        assert(pair_result_view(parsed) == metadata_outcome(o));
        match parsed {
            Err(e) => {
                self.stage = JobStage::Finished;
                JobAction::Finish { result: Err(e) }
            },
            Ok((t, ar)) => {
                let kind = if chars_equal_str(&chars_of(self.media_type.as_str()), "audio") { "audio" } else { "video" };
                let dir = media_artist_dir(self.media_root.as_str(), kind, ar.as_str());
                self.title_name = sanitize_path_component(t.as_str());
                self.title = t;
                self.artist = ar;
                self.dir = dir.clone();
                self.stage = JobStage::CreatingDir;
                JobAction::CreateDir { path: dir }
            },
        }
    }

    /// The artist's directory was made (or not): on success the file name is chosen
    /// and the download runs.
    pub fn on_dir_created(&mut self, res: Result<(), String>) -> (a: JobAction)
        requires
            old(self).stage == JobStage::CreatingDir,
        ensures
            same_job(*old(self), *final(self)),
            final(self).lib_id == old(self).lib_id,
            final(self).title_name == old(self).title_name,
            final(self).dir == old(self).dir,
            match res {
                Err(e) => final(self).stage == JobStage::Finished && is_finish(a, Err(e@)),
                Ok(_) => (final(self).stage == JobStage::Finished && finished_name_taken(
                    a,
                    old(self).dir@,
                    old(self).title_name@,
                    media_ext(old(self).media_type@),
                )) || {
                    &&& final(self).stage == JobStage::Downloading
                    &&& final(self).title == old(self).title
                    &&& final(self).artist == old(self).artist
                    &&& ((exists|n: nat| n <= 9998 && final(self).output_path@ == spec_join(
                        old(self).dir@,
                        #[trigger] candidate_name(old(self).title_name@, media_ext(old(self).media_type@), n),
                    )) || (exists|h: nat| h < 0xFFFF && final(self).output_path@ == spec_join(
                        old(self).dir@,
                        #[trigger] fallback_name(old(self).title_name@, media_ext(old(self).media_type@), h),
                    )))
                    &&& a matches JobAction::Download { args, output_path }
                    &&& output_path@ == final(self).output_path@
                    &&& texts(args@) == if old(self).media_type@ == "audio"@ {
                        audio_download_args(output_path@, old(self).url@)
                    } else {
                        video_download_args(output_path@, old(self).url@)
                    }
                },
            },
    {
        match res {
            Err(e) => {
                self.stage = JobStage::Finished;
                JobAction::Finish { result: Err(e) }
            },
            Ok(_) => {
                let ext = if chars_equal_str(&chars_of(self.media_type.as_str()), "audio") { "mp3" } else { "mp4" };
                assert(ext@ == media_ext(self.media_type@));
                let path = match unique_file_path(self.dir.as_str(), self.title_name.as_str(), ext) {
                    Ok(p) => p,
                    Err(e) => {
                        self.stage = JobStage::Finished;
                        return JobAction::Finish { result: Err(e) };
                    },
                };
                proof {
                    let e = media_ext(self.media_type@);
                    if exists|n: nat| n <= 9998 && path@ == spec_join(self.dir@, #[trigger] candidate_name(self.title_name@, ext@, n)) {
                        let n = choose|n: nat| n <= 9998 && path@ == spec_join(self.dir@, #[trigger] candidate_name(self.title_name@, ext@, n));
                        assert(path@ == spec_join(self.dir@, candidate_name(self.title_name@, e, n)));
                    } else {
                        let h = choose|h: nat| h < 0xFFFF && path@ == spec_join(self.dir@, #[trigger] fallback_name(self.title_name@, ext@, h));
                        assert(path@ == spec_join(self.dir@, fallback_name(self.title_name@, e, h)));
                    }
                }
                let args = download_command_args(self.media_type.as_str(), path.as_str(), self.url.as_str());
                self.output_path = path.clone();
                self.stage = JobStage::Downloading;
                JobAction::Download { args, output_path: path }
            },
        }
    }

    /// The download finished: a failure marks the job `failed` with the error; a
    /// file is entered in the media library under a fresh id.
    pub fn on_download(&mut self, out: DownloadOutput) -> (a: JobAction)
        requires
            old(self).stage == JobStage::Downloading,
        ensures
            same_job(*old(self), *final(self)),
            match download_outcome(old(self).media_type@, old(self).output_path@, out) {
                Err(e) => {
                    &&& final(self).stage == JobStage::MarkingFailed
                    &&& final(self).error@ == e
                    &&& is_status(a, "failed"@, None, None, Some(e))
                },
                Ok(p) => {
                    &&& final(self).stage == JobStage::InsertingLibrary
                    &&& final(self).relative@ == relative_for_db(old(self).media_root@, p)
                    &&& a matches JobAction::InsertLibrary { entry }
                    &&& entry.id == final(self).lib_id
                    &&& entry.title@ == old(self).title@
                    &&& entry.artist matches Some(x) && x@ == old(self).artist@
                    &&& entry.album is None
                    &&& entry.source@ == "youtube"@
                    &&& entry.file_path@ == final(self).relative@
                    &&& entry.duration_seconds is None
                    &&& entry.thumbnail_url is None
                    &&& entry.media_type@ == old(self).media_type@
                    &&& entry.external_id matches Some(x) && x@ == old(self).youtube_id@
                },
            },
    {
        let res = download_result(self.media_type.as_str(), self.output_path.as_str(), out);
        match res {
            Err(e) => {
                self.error = e.clone();
                self.stage = JobStage::MarkingFailed;
                JobAction::UpdateStatus {
                    status: String::from_str("failed"),
                    progress_percent: None,
                    file_path: None,
                    error: Some(e),
                }
            },
            Ok(p) => {
                let relative = match to_relative_path(self.media_root.as_str(), p.as_str()) {
                    Some(r) => r,
                    None => p,
                };
                let lib_id = random_uuid();
                self.lib_id = lib_id.clone();
                self.relative = relative.clone();
                self.stage = JobStage::InsertingLibrary;
                let entry = LibraryEntry {
                    id: lib_id,
                    title: self.title.clone(),
                    artist: Some(self.artist.clone()),
                    album: None,
                    source: String::from_str("youtube"),
                    file_path: relative,
                    duration_seconds: None,
                    thumbnail_url: None,
                    media_type: self.media_type.clone(),
                    external_id: Some(self.youtube_id.clone()),
                };
                JobAction::InsertLibrary { entry }
            },
        }
    }
}


/// A title made safe for a file name template: `/`, `\` and `:` become `-`.
pub open spec fn safe_title(s: Seq<char>) -> Seq<char>
    decreases s.len(),
{
    if s.len() == 0 {
        Seq::empty()
    } else {
        let c = s.last();
        safe_title(s.drop_last()).push(if c == '/' || c == '\\' || c == ':' { '-' } else { c })
    }
}

/// The yt-dlp output template of an audio download into `output_dir`:
/// `<output_dir>/<safe title>.%(ext)s`.
pub fn audio_output_template(output_dir: &str, title: &str) -> (r: String)
    ensures
        r@ == spec_join(output_dir@, safe_title(title@) + ".%(ext)s"@),
{
    let t = chars_of(title);
    let mut out: Vec<char> = Vec::new();
    let mut i: usize = 0;
    while i < t.len()
        invariant
            i <= t@.len(),
            out@ == safe_title(t@.take(i as int)),
        decreases t.len() - i,
    {
        assert(t@.take(i + 1).drop_last() =~= t@.take(i as int));
        let c = t[i];
        out.push(if c == '/' || c == '\\' || c == ':' { '-' } else { c });
        i += 1;
    }
    assert(t@.take(t.len() as int) =~= title@);
    let name = crate::text::string_from_chars(&out).concat(".%(ext)s");
    join_path(output_dir, name.as_str())
}

/// The yt-dlp output template of a video download into `output_dir`:
/// `<output_dir>/%(uploader)s - %(title)s.%(ext)s`.
pub fn video_output_template(output_dir: &str) -> (r: String)
    ensures
        r@ == spec_join(output_dir@, "%(uploader)s - %(title)s.%(ext)s"@),
{
    join_path(output_dir, "%(uploader)s - %(title)s.%(ext)s")
}

/// yt-dlp arguments that download `url` as an MP4 named by the template, with
/// restricted file names.
pub open spec fn video_template_args(template: Seq<char>, url: Seq<char>) -> Seq<Seq<char>> {
    seq![
        "-f"@,
        "bestvideo[ext=mp4]+bestaudio[ext=m4a]/best[ext=mp4]/best"@,
        "--merge-output-format"@,
        "mp4"@,
        "-o"@,
        template,
        "--restrict-filenames"@,
        "--no-warnings"@,
        url,
    ]
}

/// The arguments of a video download named by a template.
pub fn video_template_command_args(template: &str, url: &str) -> (r: Vec<String>)
    ensures
        texts(r@) == video_template_args(template@, url@),
{
    let mut v: Vec<String> = Vec::new();
    push_text(&mut v, String::from_str("-f"));
    push_text(&mut v, String::from_str("bestvideo[ext=mp4]+bestaudio[ext=m4a]/best[ext=mp4]/best"));
    push_text(&mut v, String::from_str("--merge-output-format"));
    push_text(&mut v, String::from_str("mp4"));
    push_text(&mut v, String::from_str("-o"));
    push_text(&mut v, String::from_str(template));
    push_text(&mut v, String::from_str("--restrict-filenames"));
    push_text(&mut v, String::from_str("--no-warnings"));
    push_text(&mut v, String::from_str(url));
    assert(texts(v@) =~= video_template_args(template@, url@));
    v
}

/// The path has the extension `ext`.
pub open spec fn has_extension(p: Seq<char>, ext: Seq<char>) -> bool {
    spec_extension(p) == Some(ext)
}

fn has_extension_of(p: &str, ext: &str) -> (r: bool)
    ensures
        r == has_extension(p@, ext@),
{
    match extension_of(&chars_of(p)) {
        Some(e) => chars_equal_str(&e, ext),
        None => false,
    }
}

/// The first path of a directory listing with the extension `ext`.
pub open spec fn first_with_extension(paths: Seq<Seq<char>>, ext: Seq<char>) -> Option<Seq<char>>
    decreases paths.len(),
{
    if paths.len() == 0 {
        None
    } else {
        match first_with_extension(paths.drop_last(), ext) {
            Some(p) => Some(p),
            None => if has_extension(paths.last(), ext) {
                Some(paths.last())
            } else {
                None
            },
        }
    }
}

/// The MP3 file found after an audio download into a directory: the first `.mp3`
/// of the listing.
pub fn first_mp3(paths: &Vec<String>) -> (r: Option<String>)
    ensures
        match r {
            Some(p) => first_with_extension(texts(paths@), "mp3"@) == Some(p@),
            None => first_with_extension(texts(paths@), "mp3"@) is None,
        },
{
    let mut i: usize = 0;
    while i < paths.len()
        invariant
            i <= paths@.len(),
            first_with_extension(texts(paths@).take(i as int), "mp3"@) is None,
        decreases paths.len() - i,
    {
        assert(texts(paths@).take(i + 1).drop_last() =~= texts(paths@).take(i as int));
        assert(texts(paths@).take(i + 1).last() == paths@[i as int]@);
        if has_extension_of(paths[i].as_str(), "mp3") {
            proof {
                lemma_first_with_extension_prefix(texts(paths@), "mp3"@, i + 1);
            }
            return Some(paths[i].clone());
        }
        i += 1;
    }
    assert(texts(paths@).take(paths.len() as int) =~= texts(paths@));
    None
}

proof fn lemma_first_with_extension_prefix(paths: Seq<Seq<char>>, ext: Seq<char>, n: int)
    requires
        0 <= n <= paths.len(),
        first_with_extension(paths.take(n), ext) is Some,
    ensures
        first_with_extension(paths, ext) == first_with_extension(paths.take(n), ext),
    decreases paths.len() - n,
{
    if n < paths.len() {
        assert(paths.take(n + 1).drop_last() =~= paths.take(n));
        lemma_first_with_extension_prefix(paths, ext, n + 1);
    } else {
        assert(paths.take(n) =~= paths);
    }
}

/// The newest MP4 of a directory listing: of the `.mp4` entries whose change time
/// is known, the first one with the latest time.
pub open spec fn newest_with_extension(entries: Seq<(Seq<char>, Option<u128>)>, ext: Seq<char>) -> Option<(Seq<char>, u128)>
    decreases entries.len(),
{
    if entries.len() == 0 {
        None
    } else {
        let best = newest_with_extension(entries.drop_last(), ext);
        let e = entries.last();
        if has_extension(e.0, ext) && e.1 is Some && (best is None || e.1->Some_0 > best->Some_0.1) {
            Some((e.0, e.1->Some_0))
        } else {
            best
        }
    }
}

/// The entries of a listing as texts.
pub open spec fn entries_view(v: Seq<(String, Option<u128>)>) -> Seq<(Seq<char>, Option<u128>)> {
    v.map_values(|e: (String, Option<u128>)| (e.0@, e.1))
}

/// The MP4 file found after a video download into a directory (see
/// `newest_with_extension`); entries carry their modification time in nanoseconds
/// since the epoch, when it could be read.
pub fn newest_mp4(entries: &Vec<(String, Option<u128>)>) -> (r: Option<String>)
    ensures
        match r {
            Some(p) => newest_with_extension(entries_view(entries@), "mp4"@) matches Some(b) && b.0 == p@,
            None => newest_with_extension(entries_view(entries@), "mp4"@) is None,
        },
{
    let mut best: Option<(String, u128)> = None;
    let mut i: usize = 0;
    while i < entries.len()
        invariant
            i <= entries@.len(),
            match best {
                Some(b) => newest_with_extension(entries_view(entries@).take(i as int), "mp4"@) == Some((b.0@, b.1)),
                None => newest_with_extension(entries_view(entries@).take(i as int), "mp4"@) is None,
            },
        decreases entries.len() - i,
    {
        assert(entries_view(entries@).take(i + 1).drop_last() =~= entries_view(entries@).take(i as int));
        assert(entries_view(entries@).take(i + 1).last() == (entries@[i as int].0@, entries@[i as int].1));
        let (p, t) = &entries[i];
        if has_extension_of(p.as_str(), "mp4") {
            if let Some(m) = t {
                let better = match &best {
                    None => true,
                    Some(b) => *m > b.1,
                };
                if better {
                    best = Some((p.clone(), *m));
                }
            }
        }
        i += 1;
    }
    assert(entries_view(entries@).take(entries.len() as int) =~= entries_view(entries@));
    match best {
        Some(b) => Some(b.0),
        None => None,
    }
}

/// The outcome of a download into a directory: yt-dlp must start and succeed, and
/// a file of the kind must be found.
pub open spec fn dir_download_outcome(
    launch_error: Option<Seq<char>>,
    success: bool,
    stderr: Seq<char>,
    found: Option<Seq<char>>,
    ext: Seq<char>,
) -> Result<Seq<char>, Seq<char>> {
    match launch_error {
        Some(e) => Err("yt-dlp: "@ + e),
        None => if !success {
            Err("yt-dlp download error: "@ + stderr)
        } else {
            match found {
                Some(p) => Ok(p),
                None => Err("No se encontró archivo "@ + ext + " generado"@),
            }
        },
    }
}

/// Decides `dir_download_outcome` (`ext` is `mp3` or `mp4`).
pub fn dir_download_result(
    launch_error: Option<&str>,
    success: bool,
    stderr: &str,
    found: Option<String>,
    ext: &str,
) -> (r: Result<String, String>)
    ensures
        text_result_view(r) == dir_download_outcome(
            match launch_error { Some(e) => Some(e@), None => None },
            success,
            stderr@,
            match found { Some(p) => Some(p@), None => None },
            ext@,
        ),
{
    if let Some(e) = launch_error {
        return Err(concat_str("yt-dlp: ", e));
    }
    if !success {
        return Err(concat_str("yt-dlp download error: ", stderr));
    }
    match found {
        Some(p) => Ok(p),
        None => Err(concat_str("No se encontró archivo ", ext).concat(" generado")),
    }
}

} // verus!
