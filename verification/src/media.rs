//! Serving media files: which file a stream request names, whether it may be
//! served, and the content type it is served with.

use vstd::prelude::*;
use crate::models::{MediaLibraryRow, StreamQuery};
use crate::paths::{components_of, join_path, path_components, spec_extension, spec_is_absolute, spec_join};
use crate::queue::Refusal;
use crate::storage::path_exists;
use crate::text::{chars_of, chars_equal_str};

verus! {

/// Where a stream request looks for its file.
#[derive(Clone, Copy, Debug, PartialEq, Eq, Structural)]
pub enum StreamSource {
    /// `id` is a media library id.
    Local,
    /// `id` is a YouTube id; only an already downloaded copy is served.
    YouTube,
}

/// The first decision of `GET /api/media/stream`: an id is required, and the
/// source is `local` (the default) or `youtube`.
pub fn route_stream(q: &StreamQuery) -> (r: Result<StreamSource, Refusal>)
    ensures
        q.id@.len() == 0 ==> (r matches Err(e) && e.status == 400 && e.message@ == "id requerido"@),
        q.id@.len() > 0 ==> match q.source {
            None => r == Ok::<StreamSource, Refusal>(StreamSource::Local),
            Some(s) => if s@ == "local"@ {
                r == Ok::<StreamSource, Refusal>(StreamSource::Local)
            } else if s@ == "youtube"@ {
                r == Ok::<StreamSource, Refusal>(StreamSource::YouTube)
            } else {
                r matches Err(e) && e.status == 400 && e.message@ == "source debe ser local o youtube"@
            },
        },
{
    if q.id.as_str().unicode_len() == 0 {
        return Err(Refusal { status: 400, message: String::from_str("id requerido") });
    }
    match &q.source {
        None => Ok(StreamSource::Local),
        Some(s) => {
            let c = chars_of(s.as_str());
            if chars_equal_str(&c, "local") {
                Ok(StreamSource::Local)
            } else if chars_equal_str(&c, "youtube") {
                Ok(StreamSource::YouTube)
            } else {
                Err(Refusal { status: 400, message: String::from_str("source debe ser local o youtube") })
            }
        },
    }
}

/// What `Path::starts_with` answers: `path` begins with the components of `base`.
pub uninterp spec fn path_starts_with(path: Seq<char>, base: Seq<char>) -> bool;

/// Calls `std::path::Path::starts_with`; the result is the named component-wise
/// prefix test of `path` by `base`.
#[verifier::external_body]
fn starts_with_path(path: &str, base: &str) -> (r: bool)
    ensures
        r == path_starts_with(path@, base@),
{
    std::path::Path::new(path).starts_with(base)
}

/// `p` has a `..` component, which could climb out of the directory it is joined to.
pub open spec fn has_parent_component(p: Seq<char>) -> bool {
    exists|i: int| 0 <= i < path_components(p).len() && #[trigger] path_components(p)[i] == seq!['.', '.']
}

/// Whether the path `p` has a `..` component.
pub fn parent_component_in(p: &str) -> (r: bool)
    ensures
        r == has_parent_component(p@),
{
    let comps = components_of(&chars_of(p));
    let mut i: usize = 0;
    while i < comps.len()
        invariant
            i <= comps@.len(),
            comps@.len() == path_components(p@).len(),
            forall|j: int| 0 <= j < comps@.len() ==> #[trigger] comps@[j]@ == path_components(p@)[j],
            forall|j: int| 0 <= j < i ==> path_components(p@)[j] != seq!['.', '.'],
        decreases comps.len() - i,
    {
        let c = &comps[i];
        if c.len() == 2 && c[0] == '.' && c[1] == '.' {
            assert(c@ =~= seq!['.', '.']);
            assert(path_components(p@)[i as int] == seq!['.', '.']);
            return true;
        }
        assert(c@ != seq!['.', '.']) by {
            if c@ == seq!['.', '.'] {
                assert(c@.len() == 2 && c@[0] == '.' && c@[1] == '.');
            }
        }
        i += 1;
    }
    false
}

/// The file of a library item for a local stream: 404 when the item is unknown or
/// has no local file, 403 when the file would not lie inside the media root: its
/// stored path has a `..` component, or the joined path does not begin with the root.
pub fn local_stream_file(media_root: &str, row: Option<MediaLibraryRow>) -> (r: Result<String, Refusal>)
    ensures
        match row {
            None => r matches Err(e) && e.status == 404 && e.message@ == "Media no encontrado"@,
            Some(m) => match m.local_path {
                None => r matches Err(e) && e.status == 404 && e.message@ == "Archivo local no disponible"@,
                Some(lp) => if !has_parent_component(lp@) && path_starts_with(spec_join(media_root@, lp@), media_root@) {
                    r matches Ok(p) && p@ == spec_join(media_root@, lp@)
                } else {
                    r matches Err(e) && e.status == 403 && e.message@ == "Ruta no permitida"@
                },
            },
        },
{
    let m = match row {
        None => return Err(Refusal { status: 404, message: String::from_str("Media no encontrado") }),
        Some(m) => m,
    };
    let lp = match m.local_path {
        None => return Err(Refusal { status: 404, message: String::from_str("Archivo local no disponible") }),
        Some(lp) => lp,
    };
    if parent_component_in(lp.as_str()) {
        return Err(Refusal { status: 403, message: String::from_str("Ruta no permitida") });
    }
    let path = join_path(media_root, lp.as_str());
    if !starts_with_path(path.as_str(), media_root) {
        return Err(Refusal { status: 403, message: String::from_str("Ruta no permitida") });
    }
    Ok(path)
}

/// The file of a YouTube stream: the local copy of the video when the library has
/// one and it is on disk; otherwise 404, as nothing is downloaded on the fly.
pub fn youtube_stream_file(media_root: &str, row: Option<MediaLibraryRow>) -> (r: Result<String, Refusal>)
    ensures
        match r {
            Ok(p) => row matches Some(m) && m.local_path matches Some(lp) && p@ == spec_join(media_root@, lp@),
            Err(e) => e.status == 404 && e.message@ == "No descargado; añádelo a la cola para descargar"@,
        },
        row is None ==> r is Err,
        (row matches Some(m) && m.local_path is None) ==> r is Err,
{
    if let Some(m) = row {
        if let Some(lp) = m.local_path {
            let path = join_path(media_root, lp.as_str());
            if path_exists(path.as_str()) {
                return Ok(path);
            }
        }
    }
    Err(Refusal { status: 404, message: String::from_str("No descargado; añádelo a la cola para descargar") })
}

/// What `mime_guess::from_path(path).first_or_octet_stream()` gives, as text.
pub uninterp spec fn guessed_mime(path: Seq<char>) -> Seq<char>;

/// Calls `mime_guess::from_path(path).first_or_octet_stream()` and renders the type
/// as text. The guess depends on the extension alone; a path without an extension
/// gets `application/octet-stream`.
#[verifier::external_body]
fn mime_of_path(path: &str) -> (r: String)
    ensures
        r@ == guessed_mime(path@),
        spec_extension(path@) is None ==> r@ == "application/octet-stream"@,
{
    mime_guess::from_path(path).first_or_octet_stream().to_string()
}

/// The content type a file is served with, guessed from its extension.
pub fn content_type_for(path: &str) -> (r: String)
    ensures
        r@ == guessed_mime(path@),
        spec_extension(path@) is None ==> r@ == "application/octet-stream"@,
{
    mime_of_path(path)
}

/// What `percent_encoding::percent_decode_str(s).decode_utf8_lossy()` gives.
pub uninterp spec fn percent_decoded(s: Seq<char>) -> Seq<char>;

/// Calls `percent_decode_str(s).decode_utf8_lossy()` of `percent-encoding`: `%`
/// followed by two hexadecimal digits becomes that byte, the bytes are read as
/// UTF-8 with U+FFFD for invalid sequences. Text without `%` comes back unchanged.
#[verifier::external_body]
fn percent_decode_lossy(s: &str) -> (r: String)
    ensures
        r@ == percent_decoded(s@),
        !s@.contains('%') ==> r@ == s@,
{
    percent_encoding::percent_decode_str(s).decode_utf8_lossy().to_string()
}

/// The file asked of the desktop media server: the percent-decoded `path`, which
/// must be absolute (else 400).
pub fn desktop_media_path(encoded: &str) -> (r: Result<String, Refusal>)
    ensures
        spec_is_absolute(percent_decoded(encoded@)) ==> (r matches Ok(p) && p@ == percent_decoded(encoded@)),
        !spec_is_absolute(percent_decoded(encoded@)) ==> (r matches Err(e) && e.status == 400 && e.message@ == "path must be absolute"@),
        !encoded@.contains('%') ==> (r is Ok <==> spec_is_absolute(encoded@)),
{
    let decoded = percent_decode_lossy(encoded);
    let c = chars_of(decoded.as_str());
    if c.len() > 0 && c[0] == '/' {
        Ok(decoded)
    } else {
        Err(Refusal { status: 400, message: String::from_str("path must be absolute") })
    }
}

} // verus!
