//! Decisions of the play-queue, credits and download-retry endpoints.

use vstd::prelude::*;
use crate::models::{MediaItem, MediaLibraryRow};
use crate::text::{chars_of, chars_equal_str};
use crate::worker::{local_stream_url, local_stream_url_of};

verus! {

/// A refused request: HTTP status and message.
#[derive(Debug)]
pub struct Refusal {
    pub status: u16,
    pub message: String,
}

/// A character of a YouTube video id: ASCII letter or digit, `-` or `_`.
pub open spec fn is_video_id_char(c: char) -> bool {
    ('a' <= c && c <= 'z') || ('A' <= c && c <= 'Z') || ('0' <= c && c <= '9') || c == '-' || c == '_'
}

/// The item comes from YouTube: its source says so, or its id has the shape of a
/// video id (eleven id characters).
pub open spec fn spec_is_youtube_media(source: Seq<char>, id: Seq<char>) -> bool {
    source == "youtube"@ || (id.len() == 11 && forall|i: int| 0 <= i < id.len() ==> is_video_id_char(#[trigger] id[i]))
}

/// Whether a queued item comes from YouTube (see `spec_is_youtube_media`).
pub fn is_youtube_media(m: &MediaItem) -> (r: bool)
    ensures
        r == spec_is_youtube_media(m.source@, m.id@),
{
    if chars_equal_str(&chars_of(m.source.as_str()), "youtube") {
        return true;
    }
    let id = chars_of(m.id.as_str());
    if id.len() != 11 {
        return false;
    }
    let mut i: usize = 0;
    while i < id.len()
        invariant
            i <= id@.len(),
            id@ == m.id@,
            id@.len() == 11,
            m.source@ != "youtube"@,
            forall|j: int| 0 <= j < i ==> is_video_id_char(#[trigger] id@[j]),
        decreases id.len() - i,
    {
        let c = id[i];
        if !(('a' <= c && c <= 'z') || ('A' <= c && c <= 'Z') || ('0' <= c && c <= '9') || c == '-' || c == '_') {
            assert(!is_video_id_char(id@[i as int]));
            return false;
        }
        i += 1;
    }
    true
}

/// How an item joins the queue.
#[derive(Clone, Copy, Debug, PartialEq, Eq, Structural)]
pub enum QueueRoute {
    /// Queue it as it was sent.
    AsSent,
    /// Look it up in the local library by its YouTube id first.
    FromYouTube,
}

/// The first decision of `POST /api/queue`, once the song's cost was (or could
/// not be) taken from the credits: without credits the request is refused with
/// 402; a YouTube item goes through the library; anything else is queued as sent.
pub fn route_add_to_queue(credits_taken: bool, media: &MediaItem) -> (r: Result<QueueRoute, Refusal>)
    ensures
        match r {
            Err(e) => !credits_taken && e.status == 402 && e.message@ == "Créditos insuficientes"@,
            Ok(QueueRoute::FromYouTube) => credits_taken && spec_is_youtube_media(media.source@, media.id@),
            Ok(QueueRoute::AsSent) => credits_taken && !spec_is_youtube_media(media.source@, media.id@),
        },
{
    if !credits_taken {
        return Err(Refusal { status: 402, message: String::from_str("Créditos insuficientes") });
    }
    if is_youtube_media(media) {
        Ok(QueueRoute::FromYouTube)
    } else {
        Ok(QueueRoute::AsSent)
    }
}

/// The characters of an optional string.
pub open spec fn opt_str(v: Option<String>) -> Option<Seq<char>> {
    match v {
        Some(s) => Some(s@),
        None => None,
    }
}

/// `m` is the library row `lib` as a queue item played from the local file.
pub open spec fn is_library_item(m: MediaItem, lib: MediaLibraryRow) -> bool {
    &&& m.id@ == lib.id@
    &&& m.source@ == "local"@
    &&& m.title@ == lib.title@
    &&& opt_str(m.artist) == opt_str(lib.artist)
    &&& opt_str(m.album) == opt_str(lib.album)
    &&& m.duration_seconds == match lib.duration_seconds {
        Some(d) => d,
        None => 0,
    }
    &&& opt_str(m.thumbnail_url) == opt_str(lib.thumbnail_url)
    &&& m.media_type@ == lib.media_type@
    &&& opt_str(m.stream_id) == Some(local_stream_url(lib.id@))
}

/// `m` is `sent` without a stream: it waits for its download.
pub open spec fn is_pending_item(m: MediaItem, sent: MediaItem) -> bool {
    &&& m.id@ == sent.id@
    &&& m.source@ == sent.source@
    &&& m.title@ == sent.title@
    &&& opt_str(m.artist) == opt_str(sent.artist)
    &&& opt_str(m.album) == opt_str(sent.album)
    &&& m.duration_seconds == sent.duration_seconds
    &&& opt_str(m.thumbnail_url) == opt_str(sent.thumbnail_url)
    &&& m.media_type@ == sent.media_type@
    &&& m.stream_id is None
}

fn clone_opt(v: &Option<String>) -> (r: Option<String>)
    ensures
        opt_str(r) == opt_str(*v),
{
    match v {
        Some(s) => Some(s.clone()),
        None => None,
    }
}

/// A library row as a queue item played from the local file.
pub fn library_queue_item(lib: &MediaLibraryRow) -> (r: MediaItem)
    ensures
        is_library_item(r, *lib),
{
    MediaItem {
        id: lib.id.clone(),
        source: String::from_str("local"),
        title: lib.title.clone(),
        artist: clone_opt(&lib.artist),
        album: clone_opt(&lib.album),
        duration_seconds: match lib.duration_seconds {
            Some(d) => d,
            None => 0,
        },
        thumbnail_url: clone_opt(&lib.thumbnail_url),
        media_type: lib.media_type.clone(),
        stream_id: Some(local_stream_url_of(lib.id.as_str())),
    }
}

/// Paying `cost` credits out of `balance`: the new balance when the balance covers
/// the cost, else none (the song is refused for want of credits).
pub fn charge_credits(balance: i64, cost: i64) -> (r: Option<i64>)
    requires
        balance - cost <= i64::MAX,
    ensures
        balance >= cost ==> r == Some((balance - cost) as i64),
        balance < cost ==> r is None,
{
    if balance >= cost {
        Some(balance - cost)
    } else {
        None
    }
}

/// The order of an item added to the queue: one past the largest order of the
/// items still to play, or 1 when none is left.
pub fn next_queue_order(orders: &Vec<i64>) -> (r: i64)
    requires
        forall|i: int| 0 <= i < orders@.len() ==> orders@[i] < i64::MAX,
    ensures
        orders@.len() == 0 ==> r == 1,
        forall|i: int| 0 <= i < orders@.len() ==> orders@[i] < r,
        orders@.len() > 0 ==> exists|i: int| 0 <= i < orders@.len() && r == orders@[i] + 1,
{
    if orders.len() == 0 {
        return 1;
    }
    let mut best: i64 = orders[0];
    let mut at: usize = 0;
    let mut i: usize = 1;
    while i < orders.len()
        invariant
            1 <= i <= orders@.len(),
            at < i,
            best == orders@[at as int],
            forall|j: int| 0 <= j < i ==> orders@[j] <= best,
            forall|j: int| 0 <= j < orders@.len() ==> orders@[j] < i64::MAX,
        decreases orders.len() - i,
    {
        if orders[i] > best {
            best = orders[i];
            at = i;
        }
        i += 1;
    }
    best + 1
}

/// The songs a search answers from the local library, which is searched first:
/// each matching row as a locally played item, in order; none when no row matched,
/// and then the search goes on to YouTube.
pub fn library_search_songs(rows: &Vec<MediaLibraryRow>) -> (r: Option<Vec<MediaItem>>)
    ensures
        r is None <==> rows@.len() == 0,
        r matches Some(v) ==> v@.len() == rows@.len()
            && forall|i: int| 0 <= i < rows@.len() ==> is_library_item(#[trigger] v@[i], rows@[i]),
{
    if rows.len() == 0 {
        return None;
    }
    let mut out: Vec<MediaItem> = Vec::new();
    let mut i: usize = 0;
    while i < rows.len()
        invariant
            i <= rows@.len(),
            out@.len() == i,
            forall|j: int| 0 <= j < i ==> is_library_item(#[trigger] out@[j], rows@[j]),
        decreases rows.len() - i,
    {
        out.push(library_queue_item(&rows[i]));
        i += 1;
    }
    Some(out)
}

/// The item as sent, without a stream, to wait for its download.
pub fn pending_queue_item(m: &MediaItem) -> (r: MediaItem)
    ensures
        is_pending_item(r, *m),
{
    MediaItem {
        id: m.id.clone(),
        source: m.source.clone(),
        title: m.title.clone(),
        artist: clone_opt(&m.artist),
        album: clone_opt(&m.album),
        duration_seconds: m.duration_seconds,
        thumbnail_url: clone_opt(&m.thumbnail_url),
        media_type: m.media_type.clone(),
        stream_id: None,
    }
}

/// What joins the queue for a YouTube item, given its library row if the lookup
/// found one (a failed lookup counts as none): the local copy, or the item without
/// a stream together with the need for a download job (`true`).
pub fn youtube_queue_item(media: &MediaItem, found: Option<MediaLibraryRow>) -> (r: (MediaItem, bool))
    ensures
        match found {
            Some(lib) => is_library_item(r.0, lib) && !r.1,
            None => is_pending_item(r.0, *media) && r.1,
        },
{
    match found {
        Some(lib) => (library_queue_item(&lib), false),
        None => (pending_queue_item(media), true),
    }
}

/// The amount added by `POST /api/credits/add`: negative amounts add nothing.
pub fn credit_amount(amount: i64) -> (r: i64)
    ensures
        r == if amount < 0 { 0 } else { amount },
{
    if amount < 0 {
        0
    } else {
        amount
    }
}

/// Whether a download job may be retried, from its status if it was found: a
/// missing job is 404, one that did not fail is 400.
pub fn check_retry(status: Option<&str>) -> (r: Result<(), Refusal>)
    ensures
        match status {
            None => r matches Err(e) && e.status == 404 && e.message@ == "Descarga no encontrada"@,
            Some(s) => if s@ == "failed"@ {
                r is Ok
            } else {
                r matches Err(e) && e.status == 400 && e.message@ == "Solo se puede reintentar un job con estado 'failed'"@
            },
        },
{
    match status {
        None => Err(Refusal { status: 404, message: String::from_str("Descarga no encontrada") }),
        Some(s) => {
            if chars_equal_str(&chars_of(s), "failed") {
                Ok(())
            } else {
                Err(Refusal { status: 400, message: String::from_str("Solo se puede reintentar un job con estado 'failed'") })
            }
        },
    }
}

} // verus!
