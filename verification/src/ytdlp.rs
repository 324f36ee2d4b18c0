//! YouTube search through yt-dlp: the command's query text, the reading of its
//! output lines, and the selection of songs and artists from the entries.

use vstd::prelude::*;
use crate::models::{ArtistSummary, MediaItem};
use crate::paths::split_chars;
use crate::text::{
    chars_of, concat_str, contains_chars, contains_sub, push_chars, push_decimal, push_str,
    spec_trim, string_from_chars, to_lowercase, trim_chars, unicode_lowercase, decimal, CharClass,
};
use crate::paths::split_on;

verus! {

/// A thumbnail of a yt-dlp entry.
#[derive(Debug, Clone)]
pub struct ThumbnailEntry {
    pub url: Option<String>,
}

/// One entry of `yt-dlp --flat-playlist -j` output. The duration is held in whole
/// seconds, as the float that yt-dlp reports is truncated when read.
#[derive(Debug, Clone)]
pub struct YtDlpEntry {
    pub id: Option<String>,
    pub title: Option<String>,
    pub duration_seconds: Option<i64>,
    pub thumbnail: Option<String>,
    pub thumbnails: Option<Vec<ThumbnailEntry>>,
    pub uploader: Option<String>,
    pub channel_id: Option<String>,
}

/// Shortest song, in seconds.
pub const MIN_SONG_SEC: i64 = 45;

/// Longest song, in seconds.
pub const MAX_SONG_SEC: i64 = 600;

/// At most this many artists are offered.
pub const MAX_ARTISTS: usize = 8;

/// The watch URL of a YouTube video id.
pub fn youtube_url_from_id(id: &str) -> (r: String)
    ensures
        r@ == "https://www.youtube.com/watch?v="@ + id@,
{
    concat_str("https://www.youtube.com/watch?v=", id)
}

/// The yt-dlp search argument: `ytsearch<limit>:<trimmed query>`.
pub fn youtube_search_term(limit: u32, query: &str) -> (r: String)
    ensures
        r@ == "ytsearch"@ + decimal(limit as nat) + seq![':'] + spec_trim(query@),
{
    let mut out: Vec<char> = Vec::new();
    push_str(&mut out, "ytsearch");
    push_decimal(&mut out, limit as u64);
    out.push(':');
    let q = trim_chars(&chars_of(query), CharClass::Whitespace);
    push_chars(&mut out, &q);
    string_from_chars(&out)
}

/// The error text when yt-dlp cannot be started: with installation advice when the
/// system reports the program missing.
pub open spec fn spec_launch_error(msg: Seq<char>) -> Seq<char> {
    if contains_sub(msg, "No such file"@) || contains_sub(msg, "os error 2"@) {
        "yt-dlp no encontrado o error: "@ + msg
            + ". Instala: sudo pacman -S yt-dlp (Arch) o pip install yt-dlp. Si está en otra ruta, define YT_DLP_PATH en backend/.env"@
    } else {
        "yt-dlp no encontrado o error: "@ + msg
    }
}

/// Builds the error text for a failure to start yt-dlp.
pub fn yt_dlp_launch_error(msg: &str) -> (r: String)
    ensures
        r@ == spec_launch_error(msg@),
{
    let m = chars_of(msg);
    let missing = contains_chars(&m, &chars_of("No such file")) || contains_chars(&m, &chars_of("os error 2"));
    let head = concat_str("yt-dlp no encontrado o error: ", msg);
    if missing {
        head.concat(". Instala: sudo pacman -S yt-dlp (Arch) o pip install yt-dlp. Si está en otra ruta, define YT_DLP_PATH en backend/.env")
    } else {
        head
    }
}

/// The non-empty trimmed lines of yt-dlp's output, in order.
pub open spec fn output_lines(pieces: Seq<Seq<char>>) -> Seq<Seq<char>>
    decreases pieces.len(),
{
    if pieces.len() == 0 {
        Seq::empty()
    } else {
        let r = output_lines(pieces.drop_last());
        let t = spec_trim(pieces.last());
        if t.len() == 0 {
            r
        } else {
            r.push(t)
        }
    }
}

/// Splits yt-dlp's output into trimmed, non-empty lines (one JSON entry each).
pub fn yt_dlp_output_lines(stdout: &str) -> (r: Vec<String>)
    ensures
        r@.len() == output_lines(split_on(stdout@, '\n')).len(),
        forall|i: int| 0 <= i < r@.len() ==> #[trigger] r@[i]@ == output_lines(split_on(stdout@, '\n'))[i],
{
    let pieces = split_chars(&chars_of(stdout), '\n');
    let ghost ps = split_on(stdout@, '\n');
    let mut out: Vec<String> = Vec::new();
    let mut i: usize = 0;
    while i < pieces.len()
        invariant
            pieces@.len() == ps.len(),
            forall|j: int| 0 <= j < pieces@.len() ==> #[trigger] pieces@[j]@ == ps[j],
            i <= pieces.len(),
            out@.len() == output_lines(ps.take(i as int)).len(),
            forall|j: int| 0 <= j < out@.len() ==> #[trigger] out@[j]@ == output_lines(ps.take(i as int))[j],
        decreases pieces.len() - i,
    {
        assert(ps.take(i + 1).drop_last() =~= ps.take(i as int));
        let t = trim_chars(&pieces[i], CharClass::Whitespace);
        if t.len() > 0 {
            out.push(string_from_chars(&t));
        }
        i += 1;
    }
    assert(ps.take(pieces.len() as int) =~= ps);
    out
}

/// The entry has a non-empty id.
pub open spec fn entry_has_id(e: YtDlpEntry) -> bool {
    e.id matches Some(i) && i@.len() > 0
}

/// The entry's thumbnail: the URL of its first listed thumbnail, else its
/// `thumbnail` field.
pub open spec fn entry_thumb(e: YtDlpEntry) -> Option<String> {
    match e.thumbnails {
        Some(v) => if v@.len() > 0 && v@[0].url is Some {
            v@[0].url
        } else {
            e.thumbnail
        },
        None => e.thumbnail,
    }
}

/// The entry's duration in seconds, zero when unknown.
pub open spec fn entry_duration(e: YtDlpEntry) -> i64 {
    match e.duration_seconds {
        Some(d) => d,
        None => 0,
    }
}

/// The entry is a song: it has an id and lasts from 45 seconds to 10 minutes.
pub open spec fn is_song(e: YtDlpEntry) -> bool {
    entry_has_id(e) && MIN_SONG_SEC <= entry_duration(e) <= MAX_SONG_SEC
}

/// The entries that are songs, in order.
pub open spec fn song_entries(es: Seq<YtDlpEntry>) -> Seq<YtDlpEntry>
    decreases es.len(),
{
    if es.len() == 0 {
        Seq::empty()
    } else {
        let r = song_entries(es.drop_last());
        if is_song(es.last()) {
            r.push(es.last())
        } else {
            r
        }
    }
}

/// `m` is the song item built from entry `e`.
pub open spec fn song_matches(e: YtDlpEntry, m: MediaItem) -> bool {
    &&& e.id matches Some(id) && m.id@ == id@ && (m.stream_id matches Some(s) && s@ == id@)
    &&& m.source@ == "youtube"@
    &&& m.title@ == match e.title {
        Some(t) => t@,
        None => e.id->Some_0@,
    }
    &&& m.artist == e.uploader
    &&& m.album is None
    &&& m.duration_seconds == entry_duration(e)
    &&& m.thumbnail_url == entry_thumb(e)
    &&& m.media_type@ == "video"@
}

/// A song item takes its artist from the uploader of its entry, whatever the
/// entry's channel id, and its id, stream and title from the entry too.
pub proof fn law_song_artist_is_uploader(e: YtDlpEntry, m: MediaItem)
    requires
        song_matches(e, m),
    ensures
        m.artist == e.uploader,
        e.id is Some && m.id@ == e.id->Some_0@,
        m.stream_id is Some && m.stream_id->Some_0@ == e.id->Some_0@,
        m.title@ == (if e.title is Some { e.title->Some_0@ } else { e.id->Some_0@ }),
{
}

/// A channel seen in the results: id, display name, thumbnail.
pub struct ChannelView {
    pub id: Seq<char>,
    pub name: Seq<char>,
    pub thumbnail: Option<String>,
}

/// The channel id `c` is already listed.
pub open spec fn channel_listed(chs: Seq<ChannelView>, c: Seq<char>) -> bool {
    exists|j: int| 0 <= j < chs.len() && (#[trigger] chs[j]).id == c
}

/// The channels of the entries that have an id, each once, in order of first
/// appearance; the name is the uploader, else the channel id.
pub open spec fn channels_of(es: Seq<YtDlpEntry>) -> Seq<ChannelView>
    decreases es.len(),
{
    if es.len() == 0 {
        Seq::empty()
    } else {
        let r = channels_of(es.drop_last());
        let e = es.last();
        if entry_has_id(e) && (e.channel_id matches Some(c) && c@.len() > 0 && !channel_listed(r, c@)) {
            r.push(
                ChannelView {
                    id: e.channel_id->Some_0@,
                    name: match e.uploader {
                        Some(u) => u@,
                        None => e.channel_id->Some_0@,
                    },
                    thumbnail: entry_thumb(e),
                },
            )
        } else {
            r
        }
    }
}

/// The channels whose lowercased name contains the lowercased query, in order.
pub open spec fn matching_channels(chs: Seq<ChannelView>, q: Seq<char>) -> Seq<ChannelView>
    decreases chs.len(),
{
    if chs.len() == 0 {
        Seq::empty()
    } else {
        let r = matching_channels(chs.drop_last(), q);
        if contains_sub(unicode_lowercase(chs.last().name), q) {
            r.push(chs.last())
        } else {
            r
        }
    }
}

/// The artists offered for a search: the matching channels, at most eight.
pub open spec fn search_artists(es: Seq<YtDlpEntry>, query: Seq<char>) -> Seq<ChannelView> {
    let m = matching_channels(channels_of(es), unicode_lowercase(query));
    if m.len() > MAX_ARTISTS {
        m.take(MAX_ARTISTS as int)
    } else {
        m
    }
}

/// The thumbnail of an entry.
fn thumb_of(e: &YtDlpEntry) -> (r: Option<String>)
    ensures
        r == entry_thumb(*e),
{
    match &e.thumbnails {
        Some(v) => {
            if v.len() > 0 {
                match &v[0].url {
                    Some(u) => {
                        return Some(u.clone());
                    },
                    None => {},
                }
            }
            e.thumbnail.clone()
        },
        None => e.thumbnail.clone(),
    }
}

/// Selects songs and artists from yt-dlp's entries for `query`: songs are the
/// entries with an id lasting 45 s to 10 min, in order; artists are the distinct
/// channels whose name contains the query (ignoring case), at most eight.
pub fn search_results(entries: &Vec<YtDlpEntry>, query: &str) -> (r: (Vec<ArtistSummary>, Vec<MediaItem>))
    ensures
        r.1@.len() == song_entries(entries@).len(),
        forall|i: int| 0 <= i < r.1@.len() ==> song_matches(song_entries(entries@)[i], #[trigger] r.1@[i]),
        r.0@.len() == search_artists(entries@, query@).len(),
        forall|i: int|
            0 <= i < r.0@.len() ==> {
                &&& (#[trigger] r.0@[i]).id@ == search_artists(entries@, query@)[i].id
                &&& r.0@[i].name@ == search_artists(entries@, query@)[i].name
                &&& r.0@[i].thumbnail_url == search_artists(entries@, query@)[i].thumbnail
            },
{
    let mut songs: Vec<MediaItem> = Vec::new();
    let mut chans: Vec<ArtistSummary> = Vec::new();
    let mut i: usize = 0;
    while i < entries.len()
        invariant
            i <= entries.len(),
            songs@.len() == song_entries(entries@.take(i as int)).len(),
            forall|j: int| 0 <= j < songs@.len() ==> song_matches(song_entries(entries@.take(i as int))[j], #[trigger] songs@[j]),
            chans@.len() == channels_of(entries@.take(i as int)).len(),
            forall|j: int|
                0 <= j < chans@.len() ==> {
                    &&& (#[trigger] chans@[j]).id@ == channels_of(entries@.take(i as int))[j].id
                    &&& chans@[j].name@ == channels_of(entries@.take(i as int))[j].name
                    &&& chans@[j].thumbnail_url == channels_of(entries@.take(i as int))[j].thumbnail
                },
        decreases entries.len() - i,
    {
        let e = &entries[i];
        assert(entries@.take(i + 1).drop_last() =~= entries@.take(i as int));
        let ghost prev_ch = channels_of(entries@.take(i as int));
        let id = match &e.id {
            Some(id) => id,
            None => {
                i += 1;
                continue;
            },
        };
        if id.as_str().unicode_len() == 0 {
            i += 1;
            continue;
        }
        let thumb = thumb_of(e);
        match &e.channel_id {
            Some(cid) => {
                if cid.as_str().unicode_len() > 0 {
                    let mut seen = false;
                    let mut k: usize = 0;
                    while k < chans.len()
                        invariant
                            k <= chans@.len(),
                            chans@.len() == prev_ch.len(),
                            forall|j: int| 0 <= j < chans@.len() ==> (#[trigger] chans@[j]).id@ == prev_ch[j].id,
                            seen == exists|j: int| 0 <= j < k && (#[trigger] prev_ch[j]).id == cid@,
                        decreases chans.len() - k,
                    {
                        if chans[k].id == *cid {
                            seen = true;
                        }
                        k += 1;
                    }
                    if !seen {
                        let name = match &e.uploader {
                            Some(u) => u.clone(),
                            None => cid.clone(),
                        };
                        chans.push(ArtistSummary { id: cid.clone(), name, thumbnail_url: thumb.clone() });
                    }
                }
            },
            None => {},
        }
        let d = match e.duration_seconds {
            Some(d) => d,
            None => 0,
        };
        if MIN_SONG_SEC <= d && d <= MAX_SONG_SEC {
            let title = match &e.title {
                Some(t) => t.clone(),
                None => id.clone(),
            };
            songs.push(
                MediaItem {
                    id: id.clone(),
                    source: String::from_str("youtube"),
                    title,
                    artist: e.uploader.clone(),
                    album: None,
                    duration_seconds: d,
                    thumbnail_url: thumb,
                    media_type: String::from_str("video"),
                    stream_id: Some(id.clone()),
                },
            );
        }
        i += 1;
    }
    assert(entries@.take(entries.len() as int) =~= entries@);
    // Artists: channels whose name contains the query, at most eight.
    let q = chars_of(to_lowercase(query).as_str());
    let mut artists: Vec<ArtistSummary> = Vec::new();
    let ghost chs = channels_of(entries@);
    let mut k: usize = 0;
    while k < chans.len()
        invariant
            k <= chans@.len(),
            chans@.len() == chs.len(),
            q@ == unicode_lowercase(query@),
            forall|j: int|
                0 <= j < chans@.len() ==> {
                    &&& (#[trigger] chans@[j]).id@ == chs[j].id
                    &&& chans@[j].name@ == chs[j].name
                    &&& chans@[j].thumbnail_url == chs[j].thumbnail
                },
            artists@.len() == matching_channels(chs.take(k as int), q@).len(),
            forall|j: int|
                0 <= j < artists@.len() ==> {
                    &&& (#[trigger] artists@[j]).id@ == matching_channels(chs.take(k as int), q@)[j].id
                    &&& artists@[j].name@ == matching_channels(chs.take(k as int), q@)[j].name
                    &&& artists@[j].thumbnail_url == matching_channels(chs.take(k as int), q@)[j].thumbnail
                },
        decreases chans.len() - k,
    {
        assert(chs.take(k + 1).drop_last() =~= chs.take(k as int));
        let name_l = chars_of(to_lowercase(chans[k].name.as_str()).as_str());
        if contains_chars(&name_l, &q) {
            artists.push(
                ArtistSummary {
                    id: chans[k].id.clone(),
                    name: chans[k].name.clone(),
                    thumbnail_url: chans[k].thumbnail_url.clone(),
                },
            );
        }
        k += 1;
    }
    assert(chs.take(chans.len() as int) =~= chs);
    if artists.len() > MAX_ARTISTS {
        artists.truncate(MAX_ARTISTS);
    }
    (artists, songs)
}


/// yt-dlp arguments of a search: flat playlist, JSON lines, no download.
pub open spec fn search_args(term: Seq<char>) -> Seq<Seq<char>> {
    seq!["--flat-playlist"@, "-j"@, "--no-warnings"@, "--no-download"@, term]
}

/// The arguments that search YouTube for `query` (see `youtube_search_term`).
pub fn search_command_args(limit: u32, query: &str) -> (r: Vec<String>)
    ensures
        crate::worker::texts(r@) == search_args("ytsearch"@ + decimal(limit as nat) + seq![':'] + spec_trim(query@)),
{
    let term = youtube_search_term(limit, query);
    let ghost t = term@;
    let mut v: Vec<String> = Vec::new();
    crate::worker::push_text(&mut v, String::from_str("--flat-playlist"));
    crate::worker::push_text(&mut v, String::from_str("-j"));
    crate::worker::push_text(&mut v, String::from_str("--no-warnings"));
    crate::worker::push_text(&mut v, String::from_str("--no-download"));
    crate::worker::push_text(&mut v, term);
    assert(crate::worker::texts(v@) =~= search_args(t));
    v
}

/// The error of a search run: the start failure, or yt-dlp's error output when
/// it failed; none when it succeeded.
pub open spec fn search_failure(launch_error: Option<Seq<char>>, success: bool, stderr: Seq<char>) -> Option<Seq<char>> {
    match launch_error {
        Some(e) => Some(spec_launch_error(e)),
        None => if success {
            None
        } else {
            Some("yt-dlp error: "@ + stderr)
        },
    }
}

/// Decides `search_failure`.
pub fn search_error(launch_error: Option<&str>, success: bool, stderr: &str) -> (r: Option<String>)
    ensures
        match r {
            Some(e) => search_failure(match launch_error { Some(l) => Some(l@), None => None }, success, stderr@) == Some(e@),
            None => search_failure(match launch_error { Some(l) => Some(l@), None => None }, success, stderr@) is None,
        },
{
    match launch_error {
        Some(e) => Some(yt_dlp_launch_error(e)),
        None => if success {
            None
        } else {
            Some(concat_str("yt-dlp error: ", stderr))
        },
    }
}

/// How many results a search asks yt-dlp for.
pub const SEARCH_LIMIT: u32 = 20;

/// The text searched for: the query trimmed, none when nothing is left (the search
/// then answers with no artists and no songs).
pub fn search_text(q: Option<&str>) -> (r: Option<String>)
    ensures
        match q {
            None => r is None,
            Some(s) => if spec_trim(s@).len() == 0 {
                r is None
            } else {
                r matches Some(t) && t@ == spec_trim(s@)
            },
        },
{
    match q {
        None => None,
        Some(s) => {
            let t = trim_chars(&chars_of(s), CharClass::Whitespace);
            if t.len() == 0 {
                None
            } else {
                Some(string_from_chars(&t))
            }
        },
    }
}


proof fn lemma_song_entries_are_songs(es: Seq<YtDlpEntry>)
    ensures
        forall|i: int| 0 <= i < song_entries(es).len() ==> is_song(#[trigger] song_entries(es)[i]),
    decreases es.len(),
{
    if es.len() > 0 {
        lemma_song_entries_are_songs(es.drop_last());
        let r = song_entries(es);
        let p = song_entries(es.drop_last());
        assert forall|i: int| 0 <= i < r.len() implies is_song(#[trigger] r[i]) by {
            if i < p.len() {
                assert(r[i] == p[i]);
            }
        }
    }
}

proof fn lemma_channels_distinct(es: Seq<YtDlpEntry>)
    ensures
        forall|i: int, j: int| 0 <= i < j < channels_of(es).len() ==> (#[trigger] channels_of(es)[i]).id != (#[trigger] channels_of(es)[j]).id,
    decreases es.len(),
{
    if es.len() > 0 {
        lemma_channels_distinct(es.drop_last());
        let r = channels_of(es);
        let p = channels_of(es.drop_last());
        assert forall|i: int, j: int| 0 <= i < j < r.len() implies (#[trigger] r[i]).id != (#[trigger] r[j]).id by {
            if j < p.len() {
                assert(r[i] == p[i] && r[j] == p[j]);
            } else {
                assert(r[i] == p[i]);
                if r[i].id == r[j].id {
                    assert(channel_listed(p, r[j].id));
                }
            }
        }
    }
}

proof fn lemma_matching_channels(chs: Seq<ChannelView>, q: Seq<char>)
    requires
        forall|i: int, j: int| 0 <= i < j < chs.len() ==> (#[trigger] chs[i]).id != (#[trigger] chs[j]).id,
    ensures
        forall|i: int| 0 <= i < matching_channels(chs, q).len() ==> contains_sub(
            unicode_lowercase((#[trigger] matching_channels(chs, q)[i]).name),
            q,
        ),
        forall|i: int| 0 <= i < matching_channels(chs, q).len() ==> chs.contains(#[trigger] matching_channels(chs, q)[i]),
        forall|i: int, j: int|
            0 <= i < j < matching_channels(chs, q).len() ==> (#[trigger] matching_channels(chs, q)[i]).id
                != (#[trigger] matching_channels(chs, q)[j]).id,
    decreases chs.len(),
{
    if chs.len() > 0 {
        let d = chs.drop_last();
        assert forall|i: int, j: int| 0 <= i < j < d.len() implies (#[trigger] d[i]).id != (#[trigger] d[j]).id by {
            assert(d[i] == chs[i] && d[j] == chs[j]);
        }
        lemma_matching_channels(d, q);
        let r = matching_channels(chs, q);
        let p = matching_channels(d, q);
        assert forall|i: int| 0 <= i < r.len() implies chs.contains(#[trigger] r[i]) by {
            if i < p.len() {
                assert(r[i] == p[i]);
                let k = choose|k: int| 0 <= k < d.len() && d[k] == p[i];
                assert(chs[k] == p[i]);
            } else {
                assert(chs[chs.len() - 1] == r[i]);
            }
        }
        assert forall|i: int| 0 <= i < r.len() implies contains_sub(unicode_lowercase((#[trigger] r[i]).name), q) by {
            if i < p.len() {
                assert(r[i] == p[i]);
            }
        }
        assert forall|i: int, j: int| 0 <= i < j < r.len() implies (#[trigger] r[i]).id != (#[trigger] r[j]).id by {
            if j < p.len() {
                assert(r[i] == p[i] && r[j] == p[j]);
            } else {
                assert(r[i] == p[i]);
                let k = choose|k: int| 0 <= k < d.len() && d[k] == p[i];
                assert(chs[k] == r[i] && chs[chs.len() - 1] == r[j]);
            }
        }
    }
}

/// Search results keep their promises: every song lasts 45 s to 10 min; at most
/// eight artists are offered, no channel twice, and each one's name contains the
/// query, case ignored.
pub proof fn law_search_results_shape(es: Seq<YtDlpEntry>, query: Seq<char>)
    ensures
        forall|i: int|
            0 <= i < song_entries(es).len() ==> MIN_SONG_SEC <= entry_duration(#[trigger] song_entries(es)[i])
                <= MAX_SONG_SEC,
        search_artists(es, query).len() <= MAX_ARTISTS,
        forall|i: int, j: int|
            0 <= i < j < search_artists(es, query).len() ==> (#[trigger] search_artists(es, query)[i]).id
                != (#[trigger] search_artists(es, query)[j]).id,
        forall|i: int|
            0 <= i < search_artists(es, query).len() ==> contains_sub(
                unicode_lowercase((#[trigger] search_artists(es, query)[i]).name),
                unicode_lowercase(query),
            ),
{
    lemma_song_entries_are_songs(es);
    assert forall|i: int| 0 <= i < song_entries(es).len() implies MIN_SONG_SEC <= entry_duration(#[trigger] song_entries(es)[i]) <= MAX_SONG_SEC by {
        assert(is_song(song_entries(es)[i]));
    }
    lemma_channels_distinct(es);
    let q = unicode_lowercase(query);
    lemma_matching_channels(channels_of(es), q);
    let m = matching_channels(channels_of(es), q);
    let a = search_artists(es, query);
    if m.len() > MAX_ARTISTS {
        assert forall|i: int, j: int| 0 <= i < j < a.len() implies (#[trigger] a[i]).id != (#[trigger] a[j]).id by {
            assert(a[i] == m[i] && a[j] == m[j]);
        }
        assert forall|i: int| 0 <= i < a.len() implies contains_sub(unicode_lowercase((#[trigger] a[i]).name), q) by {
            assert(a[i] == m[i]);
        }
    }
}

} // verus!
