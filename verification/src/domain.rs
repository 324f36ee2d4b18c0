//! Domain model of the jukebox and its pure helpers. Artists are unified by a
//! normalised `artist_key`.

use unicode_normalization::UnicodeNormalization;
use vstd::prelude::*;
use crate::paths::{extension_of, file_stem_of, spec_extension, spec_file_stem};
use crate::text::{
    chars_of, chars_equal_str, collapse, collapse_chars, equals_any, is_alphanumeric,
    push_decimal, push_decimal_pad2, push_str, spec_trim, string_from_chars, to_lowercase,
    trim_chars, unicode_lowercase, char_alphanumeric, decimal, decimal_pad2, CharClass,
    class_has, lemma_collapse_from_shape, lemma_collapse_of_collapsed, separated, remove_class,
    lemma_remove_class_collapse, lemma_remove_class_concat, lemma_remove_class_one, all_ascii, ascii_alnum, ascii_uppercase,
    is_ascii_char, lemma_ascii_lower_of_upper, lemma_ascii_lowercase_ascii,
    lemma_ascii_uppercase_ascii, lemma_trim_ascii, lemma_trim_of_upper,
    trim_end_class, trim_start_class,
};
use crate::scan::{ascii_lowercase, lemma_no_uppercase_lowercase};

verus! {

/// Normalised artist identity.
#[derive(Debug, Clone, PartialEq, Eq, Hash)]
pub struct ArtistKey(pub String);

/// A media element of the library.
#[derive(Debug, Clone)]
pub struct MediaItem {
    pub id: i64,
    pub title: String,
    pub artist: String,
    pub media_type: MediaType,
    pub file_path: String,
    pub duration_ms: Option<i64>,
    pub size_bytes: i64,
    pub mtime_unix: i64,
}

/// Kind of media.
#[derive(Debug, Clone, Copy, PartialEq, Eq, Structural)]
pub enum MediaType {
    Audio,
    Video,
    Unknown,
}

/// The name under which a media type is displayed and stored.
pub open spec fn media_type_name(t: MediaType) -> Seq<char> {
    match t {
        MediaType::Audio => "audio"@,
        MediaType::Video => "video"@,
        MediaType::Unknown => "unknown"@,
    }
}

/// The media type a stored name denotes once lowercased.
pub open spec fn media_type_of_name(s: Seq<char>) -> MediaType {
    let l = unicode_lowercase(s);
    if l == "audio"@ {
        MediaType::Audio
    } else if l == "video"@ {
        MediaType::Video
    } else {
        MediaType::Unknown
    }
}

impl MediaType {
    /// The displayed name: `audio`, `video` or `unknown`.
    pub fn to_display_string(&self) -> (r: String)
        ensures
            r@ == media_type_name(*self),
    {
        match self {
            MediaType::Audio => String::from_str("audio"),
            MediaType::Video => String::from_str("video"),
            MediaType::Unknown => String::from_str("unknown"),
        }
    }

    /// Reads a media type from its name, ignoring case; any other name is `Unknown`.
    fn from_name(s: &str) -> (r: MediaType)
        ensures
            r == media_type_of_name(s@),
    {
        let lower = to_lowercase(s);
        let l = chars_of(lower.as_str());
        if chars_equal_str(&l, "audio") {
            MediaType::Audio
        } else if chars_equal_str(&l, "video") {
            MediaType::Video
        } else {
            MediaType::Unknown
        }
    }
}

impl<'a> From<&'a str> for MediaType {
    /// `audio` and `video`, in any case, give those types; anything else is `Unknown`.
    fn from(s: &'a str) -> (r: MediaType) {
        MediaType::from_name(s)
    }
}

impl<'a> vstd::std_specs::convert::FromSpecImpl<&'a str> for MediaType {
    open spec fn obeys_from_spec() -> bool {
        true
    }

    open spec fn from_spec(s: &'a str) -> MediaType {
        media_type_of_name(s@)
    }
}

/// An artist.
#[derive(Debug, Clone)]
pub struct Artist {
    pub id: i64,
    pub display_name: String,
    pub artist_key: ArtistKey,
}

/// A media source (a root folder).
#[derive(Debug, Clone)]
pub struct MediaSource {
    pub id: i64,
    pub root_path: String,
    pub enabled: bool,
    pub status: String,
    pub last_scan_at: Option<i64>,
    pub last_seen_at: i64,
}

/// What the canonical compatibility decomposition (NFKD) of a string is.
pub uninterp spec fn nfkd_decomposition(s: Seq<char>) -> Seq<char>;

/// Calls `UnicodeNormalization::nfkd` of `unicode-normalization` and collects the
/// characters; the result is the named NFKD decomposition of `s`. ASCII characters
/// never decompose and are starters, so ASCII text comes back unchanged.
#[verifier::external_body]
fn nfkd_chars(s: &str) -> (r: Vec<char>)
    ensures
        r@ == nfkd_decomposition(s@),
        all_ascii(s@) ==> r@ == s@,
{
    s.nfkd().collect()
}

/// Combining diacritical marks (the blocks U+0300–036F, U+1AB0–1AFF, U+1DC0–1DFF,
/// U+20D0–20FF and U+FE20–FE2F).
pub open spec fn spec_is_combining_mark(c: char) -> bool {
    let u = c as u32;
    ||| (0x0300 <= u && u <= 0x036F)
    ||| (0x1AB0 <= u && u <= 0x1AFF)
    ||| (0x1DC0 <= u && u <= 0x1DFF)
    ||| (0x20D0 <= u && u <= 0x20FF)
    ||| (0xFE20 <= u && u <= 0xFE2F)
}

/// Decides `spec_is_combining_mark`.
pub fn is_combining_mark(c: char) -> (r: bool)
    ensures
        r == spec_is_combining_mark(c),
{
    let u = c as u32;
    (0x0300 <= u && u <= 0x036F) || (0x1AB0 <= u && u <= 0x1AFF) || (0x1DC0 <= u && u <= 0x1DFF)
        || (0x20D0 <= u && u <= 0x20FF) || (0xFE20 <= u && u <= 0xFE2F)
}

/// Per-character step of the artist key: combining marks vanish, alphanumeric
/// characters stay, everything else becomes a space.
pub open spec fn artist_key_chars(s: Seq<char>) -> Seq<char>
    decreases s.len(),
{
    if s.len() == 0 {
        Seq::empty()
    } else {
        let r = artist_key_chars(s.drop_last());
        let c = s.last();
        if spec_is_combining_mark(c) {
            r
        } else if char_alphanumeric(c) {
            r.push(c)
        } else {
            r.push(' ')
        }
    }
}

/// The artist key of a name: trimmed, lowercased, NFKD-decomposed, diacritics
/// dropped, other non-alphanumerics turned into spaces, whitespace runs collapsed.
pub open spec fn spec_normalize_artist_key(input: Seq<char>) -> Seq<char> {
    collapse(
        artist_key_chars(nfkd_decomposition(unicode_lowercase(spec_trim(input)))),
        CharClass::Whitespace,
        ' ',
    )
}

/// The artist key of an ASCII name, whose lowercase is its ASCII lowercase.
pub open spec fn spec_ascii_artist_key(input: Seq<char>) -> Seq<char> {
    collapse(ascii_key_chars(ascii_lowercase(spec_trim(input))), CharClass::Whitespace, ' ')
}

/// `artist_key_chars` on ASCII text: letters and digits stay, all others become a
/// space (no ASCII character is a combining mark).
pub open spec fn ascii_key_chars(s: Seq<char>) -> Seq<char>
    decreases s.len(),
{
    if s.len() == 0 {
        Seq::empty()
    } else {
        let r = ascii_key_chars(s.drop_last());
        if ascii_alnum(s.last()) {
            r.push(s.last())
        } else {
            r.push(' ')
        }
    }
}

/// Normalises an artist name into its unification key.
pub fn normalize_artist_key(input: &str) -> (r: ArtistKey)
    ensures
        r.0@ == spec_normalize_artist_key(input@),
        all_ascii(input@) ==> r.0@ == spec_ascii_artist_key(input@),
{
    let trimmed = trim_chars(&chars_of(input), CharClass::Whitespace);
    let trimmed_s = string_from_chars(&trimmed);
    proof {
        if all_ascii(input@) {
            lemma_trim_ascii(input@, CharClass::Whitespace);
            lemma_ascii_lowercase_ascii(trimmed_s@);
        }
    }
    let lower = to_lowercase(trimmed_s.as_str());
    let decomposed = nfkd_chars(lower.as_str());
    let mut out: Vec<char> = Vec::new();
    let mut i: usize = 0;
    while i < decomposed.len()
        invariant
            i <= decomposed.len(),
            out@ == artist_key_chars(decomposed@.take(i as int)),
            all_ascii(input@) ==> all_ascii(decomposed@) && decomposed@ == ascii_lowercase(spec_trim(input@))
                && out@ == ascii_key_chars(decomposed@.take(i as int)),
        decreases decomposed.len() - i,
    {
        let ch = decomposed[i];
        assert(decomposed@.take(i + 1).drop_last() =~= decomposed@.take(i as int));
        proof {
            if all_ascii(input@) {
                assert(is_ascii_char(decomposed@[i as int]));
            }
        }
        if is_combining_mark(ch) {
        } else if is_alphanumeric(ch) {
            out.push(ch);
        } else {
            out.push(' ');
        }
        i += 1;
    }
    assert(decomposed@.take(decomposed.len() as int) =~= decomposed@);
    let collapsed = collapse_chars(&out, CharClass::Whitespace, ' ');
    ArtistKey(string_from_chars(&collapsed))
}

/// Per-character step of a slug: alphanumeric characters stay, all others become `-`.
pub open spec fn slug_chars(s: Seq<char>) -> Seq<char>
    decreases s.len(),
{
    if s.len() == 0 {
        Seq::empty()
    } else {
        let r = slug_chars(s.drop_last());
        if char_alphanumeric(s.last()) {
            r.push(s.last())
        } else {
            r.push('-')
        }
    }
}

/// The slug of a title: trimmed, lowercased, non-alphanumerics turned into `-`,
/// dash runs collapsed and no dash at either end.
pub open spec fn spec_generate_slug(input: Seq<char>) -> Seq<char> {
    collapse(slug_chars(unicode_lowercase(spec_trim(input))), CharClass::Dash, '-')
}

/// `slug_chars` on ASCII text: letters and digits stay, all others become `-`.
pub open spec fn ascii_slug_chars(s: Seq<char>) -> Seq<char>
    decreases s.len(),
{
    if s.len() == 0 {
        Seq::empty()
    } else {
        let r = ascii_slug_chars(s.drop_last());
        if ascii_alnum(s.last()) {
            r.push(s.last())
        } else {
            r.push('-')
        }
    }
}

/// The slug of an ASCII title.
pub open spec fn spec_ascii_slug(input: Seq<char>) -> Seq<char> {
    collapse(ascii_slug_chars(ascii_lowercase(spec_trim(input))), CharClass::Dash, '-')
}

/// Builds a slug from a title or name.
pub fn generate_slug(input: &str) -> (r: String)
    ensures
        r@ == spec_generate_slug(input@),
        all_ascii(input@) ==> r@ == spec_ascii_slug(input@),
{
    let trimmed = trim_chars(&chars_of(input), CharClass::Whitespace);
    let trimmed_s = string_from_chars(&trimmed);
    proof {
        if all_ascii(input@) {
            lemma_trim_ascii(input@, CharClass::Whitespace);
            lemma_ascii_lowercase_ascii(trimmed_s@);
        }
    }
    let lower = to_lowercase(trimmed_s.as_str());
    let cs = chars_of(lower.as_str());
    let mut out: Vec<char> = Vec::new();
    let mut i: usize = 0;
    while i < cs.len()
        invariant
            i <= cs.len(),
            out@ == slug_chars(cs@.take(i as int)),
            all_ascii(input@) ==> all_ascii(cs@) && out@ == ascii_slug_chars(cs@.take(i as int)),
        decreases cs.len() - i,
    {
        let ch = cs[i];
        assert(cs@.take(i + 1).drop_last() =~= cs@.take(i as int));
        proof {
            if all_ascii(input@) {
                assert(is_ascii_char(cs@[i as int]));
            }
        }
        if is_alphanumeric(ch) {
            out.push(ch);
        } else {
            out.push('-');
        }
        i += 1;
    }
    assert(cs@.take(cs.len() as int) =~= cs@);
    let collapsed = collapse_chars(&out, CharClass::Dash, '-');
    string_from_chars(&collapsed)
}

/// The file name of a path without its extension, or the empty string.
pub open spec fn spec_filename_without_extension(p: Seq<char>) -> Seq<char> {
    match spec_file_stem(p) {
        Some(s) => s,
        None => Seq::empty(),
    }
}

/// Extracts the file name without extension.
pub fn get_filename_without_extension(file_path: &str) -> (r: String)
    ensures
        r@ == spec_filename_without_extension(file_path@),
{
    match file_stem_of(&chars_of(file_path)) {
        Some(s) => string_from_chars(&s),
        None => String::new(),
    }
}

/// The lowercased extension of a path, or the empty string.
pub open spec fn spec_file_extension(p: Seq<char>) -> Seq<char> {
    unicode_lowercase(raw_extension(p))
}

/// The extension of a path as written, or the empty text.
pub open spec fn raw_extension(p: Seq<char>) -> Seq<char> {
    match spec_extension(p) {
        Some(e) => e,
        None => Seq::empty(),
    }
}

/// Extracts the file extension, lowercased; an ASCII extension is lowercased
/// letter by letter.
pub fn get_file_extension(file_path: &str) -> (r: String)
    ensures
        r@ == spec_file_extension(file_path@),
        all_ascii(raw_extension(file_path@)) ==> r@ == ascii_lowercase(raw_extension(file_path@)),
{
    let ext = match extension_of(&chars_of(file_path)) {
        Some(e) => string_from_chars(&e),
        None => String::new(),
    };
    to_lowercase(ext.as_str())
}

/// The extensions recognised as media by `is_media_file`.
pub open spec fn media_file_extensions() -> Seq<&'static str> {
    seq![
        "mp3", "flac", "wav", "m4a", "aac", "ogg", "opus", "wma", "aiff", "mp4", "mkv", "webm",
        "mov", "avi", "m4v", "mpg", "mpeg", "ts", "wmv", "flv", "f4v", "m2ts", "mts", "3gp",
        "3g2", "mxf",
    ]
}

/// Whether a path names a media file by its (lowercased) extension.
pub open spec fn spec_is_media_file(p: Seq<char>) -> bool {
    exists|i: int|
        0 <= i < media_file_extensions().len() && spec_file_extension(p) == (
        #[trigger] media_file_extensions()[i])@
}

/// Checks whether a file is a media file by its extension; for an ASCII extension
/// the case of its letters does not matter.
pub fn is_media_file(file_path: &str) -> (r: bool)
    ensures
        r == spec_is_media_file(file_path@),
        all_ascii(raw_extension(file_path@)) ==> (r <==> exists|i: int|
            0 <= i < media_file_extensions().len() && ascii_lowercase(raw_extension(file_path@)) == (
            #[trigger] media_file_extensions()[i])@),
{
    let ext = get_file_extension(file_path);
    let e = chars_of(ext.as_str());
    let lits: [&str; 26] = [
        "mp3", "flac", "wav", "m4a", "aac", "ogg", "opus", "wma", "aiff", "mp4", "mkv", "webm",
        "mov", "avi", "m4v", "mpg", "mpeg", "ts", "wmv", "flv", "f4v", "m2ts", "mts", "3gp",
        "3g2", "mxf",
    ];
    assert(lits@ =~= media_file_extensions());
    equals_any(&e, &lits)
}

/// `format_duration_ms`: `--:--` without a duration, `0:00` for a non-positive one,
/// otherwise `M:SS`, or `H:MM:SS` once there is at least one hour.
pub open spec fn spec_format_duration(duration_ms: Option<i64>) -> Seq<char> {
    match duration_ms {
        None => "--:--"@,
        Some(ms) => if ms <= 0 {
            "0:00"@
        } else {
            let total = (ms / 1000) as nat;
            let h = total / 3600;
            let m = (total % 3600) / 60;
            let s = total % 60;
            if h > 0 {
                decimal(h) + seq![':'] + decimal_pad2(m) + seq![':'] + decimal_pad2(s)
            } else {
                decimal(m) + seq![':'] + decimal_pad2(s)
            }
        },
    }
}

/// Formats a duration in milliseconds as `H:MM:SS` or `M:SS`.
pub fn format_duration_ms(duration_ms: Option<i64>) -> (r: String)
    ensures
        r@ == spec_format_duration(duration_ms),
{
    match duration_ms {
        None => String::from_str("--:--"),
        Some(ms) => {
            if ms <= 0 {
                return String::from_str("0:00");
            }
            let total = (ms / 1000) as u64;
            let h = total / 3600;
            let m = (total % 3600) / 60;
            let s = total % 60;
            let mut out: Vec<char> = Vec::new();
            if h > 0 {
                push_decimal(&mut out, h);
                out.push(':');
                push_decimal_pad2(&mut out, m);
                out.push(':');
                push_decimal_pad2(&mut out, s);
            } else {
                push_decimal(&mut out, m);
                out.push(':');
                push_decimal_pad2(&mut out, s);
            }
            string_from_chars(&out)
        },
    }
}


/// `2^e`.
pub open spec fn pow2(e: nat) -> nat
    decreases e,
{
    if e == 0 {
        1
    } else {
        2 * pow2((e - 1) as nat)
    }
}

/// `1024^k`.
pub open spec fn pow1024(k: nat) -> nat
    decreases k,
{
    if k == 0 {
        1
    } else {
        1024 * pow1024((k - 1) as nat)
    }
}

/// Integers below `2^53` are exact in an `f64`.
pub open spec fn f64_exact_limit() -> nat {
    0x20_0000_0000_0000
}

/// The smallest shift from `s` on that brings `n` under `2^53`.
pub open spec fn mantissa_shift(n: nat, s: nat) -> nat
    decreases 64 - s,
{
    if s >= 64 || n / pow2(s) < f64_exact_limit() {
        s
    } else {
        mantissa_shift(n, s + 1)
    }
}

/// `q` rounded by the remainder `r` of a division by `d`: to nearest, ties to even.
pub open spec fn round_half_even(q: nat, r: nat, d: nat) -> nat {
    if 2 * r > d || (2 * r == d && q % 2 == 1) {
        q + 1
    } else {
        q
    }
}

/// The value of `n as f64` for `0 <= n < 2^63`: `n` rounded to 53 significant
/// bits, to nearest with ties to even.
pub open spec fn f64_of(n: nat) -> nat {
    if n < f64_exact_limit() {
        n
    } else {
        let s = mantissa_shift(n, 1);
        round_half_even(n / pow2(s), n % pow2(s), pow2(s)) * pow2(s)
    }
}

/// How many times `format_file_size` divides by 1024: as long as the size is at
/// least 1024, at most four times (up to TB).
pub open spec fn unit_steps(f: nat, k: nat) -> nat
    decreases 4 - k,
{
    if k >= 4 || f < pow1024(k + 1) {
        k
    } else {
        unit_steps(f, k + 1)
    }
}

/// The name of the unit after `k` divisions.
pub open spec fn unit_name(k: nat) -> Seq<char> {
    if k == 0 {
        "B"@
    } else if k == 1 {
        "KB"@
    } else if k == 2 {
        "MB"@
    } else if k == 3 {
        "GB"@
    } else {
        "TB"@
    }
}

/// Two decimal places of the hundredths count `h`: `<h / 100>.<h % 100, two digits>`.
pub open spec fn two_places(h: nat) -> Seq<char> {
    decimal(h / 100) + seq!['.'] + decimal_pad2(h % 100)
}

/// The decimal text of an integer, with `-` when negative.
pub open spec fn signed_decimal(n: int) -> Seq<char> {
    if n < 0 {
        seq!['-'] + decimal((-n) as nat)
    } else {
        decimal(n as nat)
    }
}

/// `format_file_size`: under 1024 the byte count itself (`1023 B`); otherwise the
/// size as an `f64` divided by 1024 per unit up to TB, with two decimals rounded to
/// nearest, ties to even (`1.00 KB`).
pub open spec fn spec_format_file_size(bytes: i64) -> Seq<char> {
    if bytes < 1024 {
        signed_decimal(bytes as int) + " B"@
    } else {
        let f = f64_of(bytes as nat);
        let k = unit_steps(f, 0);
        let d = pow1024(k);
        two_places(round_half_even((f * 100) / d, (f * 100) % d, d)) + seq![' '] + unit_name(k)
    }
}

proof fn lemma_pow2_values()
    ensures
        pow2(0) == 1, pow2(1) == 2, pow2(2) == 4, pow2(3) == 8, pow2(4) == 16, pow2(5) == 32,
        pow2(6) == 64, pow2(7) == 128, pow2(8) == 256, pow2(9) == 512, pow2(10) == 1024,
        pow2(11) == 2048,
{
    reveal_with_fuel(pow2, 12);
}

proof fn lemma_pow1024_values()
    ensures
        pow1024(0) == 1, pow1024(1) == 1024, pow1024(2) == 0x10_0000, pow1024(3) == 0x4000_0000,
        pow1024(4) == 0x100_0000_0000, pow1024(5) == 0x4_0000_0000_0000,
{
    reveal_with_fuel(pow1024, 6);
}

/// `bytes as f64` for a non-negative `i64`, as an exact integer.
fn nearest_f64(n: u64) -> (r: u64)
    requires
        n < 0x8000_0000_0000_0000,
    ensures
        r == f64_of(n as nat),
        n >= 1024 ==> r >= 1024,
{
    if n < 0x20_0000_0000_0000 {
        return n;
    }
    proof {
        lemma_pow2_values();
    }
    let mut s: u64 = 1;
    let mut p: u64 = 2;
    while n / p >= 0x20_0000_0000_0000
        invariant
            1 <= s <= 11,
            p == pow2(s as nat),
            n < 0x8000_0000_0000_0000,
            n >= 0x20_0000_0000_0000,
            mantissa_shift(n as nat, 1) == mantissa_shift(n as nat, s as nat),
            pow2(0) == 1, pow2(1) == 2, pow2(2) == 4, pow2(3) == 8, pow2(4) == 16, pow2(5) == 32,
            pow2(6) == 64, pow2(7) == 128, pow2(8) == 256, pow2(9) == 512, pow2(10) == 1024,
            pow2(11) == 2048,
        decreases 11 - s,
    {
        proof {
            if s == 11 {
                assert(n / 2048 < 0x20_0000_0000_0000);
            }
        }
        assert(s <= 10);
        assert(mantissa_shift(n as nat, s as nat) == mantissa_shift(n as nat, (s + 1) as nat));
        s = s + 1;
        p = p * 2;
        assert(p == pow2(s as nat));
    }
    assert(mantissa_shift(n as nat, s as nat) == s);
    let q = n / p;
    let r = n % p;
    let q2 = if 2 * r > p || (2 * r == p && q % 2 == 1) { q + 1 } else { q };
    assert(q2 * p <= n + p && q2 * p >= 1024) by (nonlinear_arith)
        requires
            q == n / p, r == n % p, 0 < p <= 2048, q <= q2 <= q + 1, n >= 0x20_0000_0000_0000,
    {
        assert(q * p == n - r);
    }
    q2 * p
}

/// Formats a byte count with its unit (`B`, `KB`, `MB`, `GB`, `TB`).
pub fn format_file_size(bytes: i64) -> (r: String)
    ensures
        r@ == spec_format_file_size(bytes),
{
    let mut out: Vec<char> = Vec::new();
    if bytes < 1024 {
        if bytes < 0 {
            out.push('-');
            let m: u64 = (-(bytes as i128)) as u64;
            push_decimal(&mut out, m);
        } else {
            push_decimal(&mut out, bytes as u64);
        }
        push_str(&mut out, " B");
        proof {
            reveal_strlit(" B");
        }
        assert(out@ =~= spec_format_file_size(bytes));
        return string_from_chars(&out);
    }
    let f = nearest_f64(bytes as u64);
    proof {
        lemma_pow1024_values();
    }
    let mut k: u64 = 0;
    let mut d: u128 = 1;
    while k < 4 && (f as u128) >= d * 1024
        invariant
            k <= 4,
            d == pow1024(k as nat),
            unit_steps(f as nat, 0) == unit_steps(f as nat, k as nat),
            f >= 1024,
            k == 0 ==> d == 1,
            pow1024(0) == 1, pow1024(1) == 1024, pow1024(2) == 0x10_0000, pow1024(3) == 0x4000_0000,
            pow1024(4) == 0x100_0000_0000, pow1024(5) == 0x4_0000_0000_0000,
        decreases 4 - k,
    {
        assert(pow1024((k + 1) as nat) == 1024 * pow1024(k as nat));
        k = k + 1;
        d = d * 1024;
    }
    assert(pow1024((k + 1) as nat) == 1024 * pow1024(k as nat));
    assert(unit_steps(f as nat, k as nat) == k);
    let n: u128 = (f as u128) * 100;
    let q = n / d;
    let rem = n % d;
    let h = if 2 * rem > d || (2 * rem == d && q % 2 == 1) { q + 1 } else { q };
    assert(h <= n + 1);
    assert(k >= 1);
    assert(h == round_half_even((f as nat * 100) / (d as nat), (f as nat * 100) % (d as nat), d as nat));
    let hu: u64 = (h / 100) as u64;
    let hl: u64 = (h % 100) as u64;
    push_decimal(&mut out, hu);
    out.push('.');
    push_decimal_pad2(&mut out, hl);
    out.push(' ');
    if k == 1 {
        push_str(&mut out, "KB");
    } else if k == 2 {
        push_str(&mut out, "MB");
    } else if k == 3 {
        push_str(&mut out, "GB");
    } else {
        push_str(&mut out, "TB");
    }
    assert(out@ =~= spec_format_file_size(bytes));
    string_from_chars(&out)
}


proof fn lemma_artist_key_chars(s: Seq<char>)
    ensures
        forall|i: int|
            0 <= i < artist_key_chars(s).len() ==> (#[trigger] artist_key_chars(s)[i] == ' ' || (char_alphanumeric(
                artist_key_chars(s)[i],
            ) && !spec_is_combining_mark(artist_key_chars(s)[i]))),
    decreases s.len(),
{
    if s.len() > 0 {
        lemma_artist_key_chars(s.drop_last());
        let r = artist_key_chars(s);
        let p = artist_key_chars(s.drop_last());
        assert forall|i: int| 0 <= i < r.len() implies (#[trigger] r[i] == ' ' || (char_alphanumeric(r[i]) && !spec_is_combining_mark(r[i]))) by {
            if i < p.len() {
                assert(r[i] == p[i]);
            }
        }
    }
}

proof fn lemma_slug_chars(s: Seq<char>)
    ensures
        forall|i: int| 0 <= i < slug_chars(s).len() ==> (#[trigger] slug_chars(s)[i] == '-' || char_alphanumeric(slug_chars(s)[i])),
    decreases s.len(),
{
    if s.len() > 0 {
        lemma_slug_chars(s.drop_last());
        let r = slug_chars(s);
        let p = slug_chars(s.drop_last());
        assert forall|i: int| 0 <= i < r.len() implies (#[trigger] r[i] == '-' || char_alphanumeric(r[i])) by {
            if i < p.len() {
                assert(r[i] == p[i]);
            }
        }
    }
}

/// Artist keys have one shape: words of alphanumeric characters without
/// diacritics, separated by single spaces, with no space at either end.
pub proof fn law_artist_key_shape(input: Seq<char>)
    ensures
        separated(spec_normalize_artist_key(input), CharClass::Whitespace, ' ', false),
        forall|i: int|
            0 <= i < spec_normalize_artist_key(input).len() ==> (#[trigger] spec_normalize_artist_key(input)[i] == ' '
                || (char_alphanumeric(spec_normalize_artist_key(input)[i]) && !spec_is_combining_mark(
                spec_normalize_artist_key(input)[i],
            ))),
{
    let a = artist_key_chars(nfkd_decomposition(unicode_lowercase(spec_trim(input))));
    assert(class_has(CharClass::Whitespace, ' '));
    lemma_collapse_from_shape(a, CharClass::Whitespace, ' ', false, false);
    lemma_artist_key_chars(nfkd_decomposition(unicode_lowercase(spec_trim(input))));
    let r = spec_normalize_artist_key(input);
    assert forall|i: int| 0 <= i < r.len() implies (#[trigger] r[i] == ' ' || (char_alphanumeric(r[i]) && !spec_is_combining_mark(r[i]))) by {
        if r[i] != ' ' {
            let j = choose|j: int| 0 <= j < a.len() && a[j] == r[i];
            assert(a[j] == ' ' || (char_alphanumeric(a[j]) && !spec_is_combining_mark(a[j])));
        }
    }
}

/// Slugs have one shape: runs of alphanumeric characters joined by single dashes,
/// with no dash at either end.
pub proof fn law_slug_shape(input: Seq<char>)
    ensures
        separated(spec_generate_slug(input), CharClass::Dash, '-', false),
        forall|i: int|
            0 <= i < spec_generate_slug(input).len() ==> (#[trigger] spec_generate_slug(input)[i] == '-'
                || char_alphanumeric(spec_generate_slug(input)[i])),
{
    let a = slug_chars(unicode_lowercase(spec_trim(input)));
    lemma_collapse_from_shape(a, CharClass::Dash, '-', false, false);
    lemma_slug_chars(unicode_lowercase(spec_trim(input)));
    let r = spec_generate_slug(input);
    assert forall|i: int| 0 <= i < r.len() implies (#[trigger] r[i] == '-' || char_alphanumeric(r[i])) by {
        if r[i] != '-' {
            let j = choose|j: int| 0 <= j < a.len() && a[j] == r[i];
            assert(a[j] == '-' || char_alphanumeric(a[j]));
        }
    }
}


/// A character a slug of ASCII text is made of: a lowercase letter, a digit or `-`.
pub open spec fn ascii_slug_char(c: char) -> bool {
    c == '-' || ('a' <= c && c <= 'z') || ('0' <= c && c <= '9')
}

/// The slug characters of lowercased text are lowercase letters, digits and dashes.
proof fn lemma_ascii_slug_chars_of_lower(t: Seq<char>)
    ensures
        ascii_slug_chars(ascii_lowercase(t)).len() == t.len(),
        forall|i: int| 0 <= i < t.len() ==> ascii_slug_char(#[trigger] ascii_slug_chars(ascii_lowercase(t))[i]),
    decreases t.len(),
{
    if t.len() > 0 {
        lemma_ascii_slug_chars_of_lower(t.drop_last());
        let l = ascii_lowercase(t);
        assert(l.drop_last() =~= ascii_lowercase(t.drop_last()));
        let r = ascii_slug_chars(l);
        let p = ascii_slug_chars(ascii_lowercase(t.drop_last()));
        assert(r == p.push(if ascii_alnum(l.last()) { l.last() } else { '-' }));
        assert forall|i: int| 0 <= i < t.len() implies ascii_slug_char(#[trigger] r[i]) by {
            if i < t.len() - 1 {
                assert(r[i] == p[i]);
            }
        }
    }
}

/// Text made of slug characters is its own `ascii_slug_chars`.
proof fn lemma_ascii_slug_chars_fixed(r: Seq<char>)
    requires
        forall|i: int| 0 <= i < r.len() ==> ascii_slug_char(#[trigger] r[i]),
    ensures
        ascii_slug_chars(r) == r,
    decreases r.len(),
{
    if r.len() > 0 {
        assert(ascii_slug_char(r[r.len() - 1]));
        lemma_ascii_slug_chars_fixed(r.drop_last());
        assert(ascii_slug_chars(r) =~= r);
    }
}

/// The slug of ASCII text is made of lowercase letters, digits and single dashes
/// between them.
proof fn lemma_ascii_slug_shape(s: Seq<char>)
    ensures
        separated(spec_ascii_slug(s), CharClass::Dash, '-', false),
        forall|i: int| 0 <= i < spec_ascii_slug(s).len() ==> ascii_slug_char(#[trigger] spec_ascii_slug(s)[i]),
{
    let t = spec_trim(s);
    let a = ascii_slug_chars(ascii_lowercase(t));
    lemma_ascii_slug_chars_of_lower(t);
    lemma_collapse_from_shape(a, CharClass::Dash, '-', false, false);
    let r = spec_ascii_slug(s);
    assert forall|i: int| 0 <= i < r.len() implies ascii_slug_char(#[trigger] r[i]) by {
        if r[i] != '-' {
            let j = choose|j: int| 0 <= j < a.len() && a[j] == r[i];
            assert(ascii_slug_char(a[j]));
        }
    }
}

/// A slug of ASCII text is its own slug, and is ASCII: slugging twice changes
/// nothing.
pub proof fn law_ascii_slug_idempotent(s: Seq<char>)
    ensures
        all_ascii(spec_ascii_slug(s)),
        spec_ascii_slug(spec_ascii_slug(s)) == spec_ascii_slug(s),
{
    let r = spec_ascii_slug(s);
    lemma_ascii_slug_shape(s);
    assert forall|i: int| 0 <= i < r.len() implies is_ascii_char(#[trigger] r[i]) by {
        assert(ascii_slug_char(r[i]));
    }
    if r.len() > 0 {
        assert(ascii_slug_char(r[0]) && ascii_slug_char(r[r.len() - 1]));
        assert(trim_start_class(r, CharClass::Whitespace) == r);
        assert(trim_end_class(r, CharClass::Whitespace) == r);
    } else {
        assert(trim_start_class(r, CharClass::Whitespace) == r);
    }
    assert(spec_trim(r) == r);
    assert forall|i: int| 0 <= i < r.len() implies !('A' <= #[trigger] r[i] && r[i] <= 'Z') by {
        assert(ascii_slug_char(r[i]));
    }
    lemma_no_uppercase_lowercase(r);
    lemma_ascii_slug_chars_fixed(r);
    lemma_collapse_of_collapsed(r, CharClass::Dash, '-');
}

/// The artist key does not depend on the case of ASCII letters: a name and its
/// ASCII uppercase give the same key, and an ASCII name stays ASCII uppercased.
pub proof fn law_artist_key_ignores_ascii_case(s: Seq<char>)
    ensures
        spec_ascii_artist_key(ascii_uppercase(s)) == spec_ascii_artist_key(s),
        all_ascii(s) ==> all_ascii(ascii_uppercase(s)),
{
    lemma_trim_of_upper(s);
    lemma_ascii_lower_of_upper(spec_trim(s));
    if all_ascii(s) {
        lemma_ascii_uppercase_ascii(s);
    }
}


/// The ASCII letters and digits of `s`, in order.
pub open spec fn ascii_alnum_only(s: Seq<char>) -> Seq<char>
    decreases s.len(),
{
    if s.len() == 0 {
        Seq::empty()
    } else if ascii_alnum(s.last()) {
        ascii_alnum_only(s.drop_last()).push(s.last())
    } else {
        ascii_alnum_only(s.drop_last())
    }
}

/// The characters of `s` that an artist key keeps: alphanumeric ones that are not
/// combining marks, in order.
pub open spec fn key_letters(s: Seq<char>) -> Seq<char>
    decreases s.len(),
{
    if s.len() == 0 {
        Seq::empty()
    } else if char_alphanumeric(s.last()) && !spec_is_combining_mark(s.last()) {
        key_letters(s.drop_last()).push(s.last())
    } else {
        key_letters(s.drop_last())
    }
}

proof fn lemma_key_chars_letters(t: Seq<char>)
    ensures
        remove_class(ascii_key_chars(t), CharClass::Whitespace) == ascii_alnum_only(t),
    decreases t.len(),
{
    if t.len() > 0 {
        let c = t.last();
        let a = ascii_key_chars(t.drop_last());
        lemma_key_chars_letters(t.drop_last());
        let x = if ascii_alnum(c) { c } else { ' ' };
        assert(ascii_key_chars(t) == a + seq![x]);
        lemma_remove_class_concat(a, seq![x], CharClass::Whitespace);
        lemma_remove_class_one(x, CharClass::Whitespace);
        if !ascii_alnum(c) {
            assert(remove_class(a, CharClass::Whitespace) + Seq::<char>::empty() =~= remove_class(a, CharClass::Whitespace));
        }
    }
}

proof fn lemma_artist_chars_letters(t: Seq<char>)
    ensures
        remove_class(artist_key_chars(t), CharClass::Whitespace) == remove_class(key_letters(t), CharClass::Whitespace),
    decreases t.len(),
{
    if t.len() > 0 {
        let c = t.last();
        let a = artist_key_chars(t.drop_last());
        let b = key_letters(t.drop_last());
        lemma_artist_chars_letters(t.drop_last());
        lemma_remove_class_one(c, CharClass::Whitespace);
        lemma_remove_class_one(' ', CharClass::Whitespace);
        if spec_is_combining_mark(c) {
        } else if char_alphanumeric(c) {
            lemma_remove_class_concat(a, seq![c], CharClass::Whitespace);
            lemma_remove_class_concat(b, seq![c], CharClass::Whitespace);
            assert(a.push(c) == a + seq![c]);
            assert(b.push(c) == b + seq![c]);
        } else {
            lemma_remove_class_concat(a, seq![' '], CharClass::Whitespace);
            assert(a.push(' ') == a + seq![' ']);
            assert(remove_class(a, CharClass::Whitespace) + Seq::<char>::empty() =~= remove_class(a, CharClass::Whitespace));
        }
    }
}

/// An artist key keeps every letter and digit of the name: for an ASCII name, the
/// key without its spaces is the name's letters and digits (trimmed and lowercased),
/// in order, and its spaces are single separators between words.
pub proof fn law_ascii_artist_key_keeps_letters_and_digits(s: Seq<char>)
    ensures
        remove_class(spec_ascii_artist_key(s), CharClass::Whitespace) == ascii_alnum_only(ascii_lowercase(spec_trim(s))),
        separated(spec_ascii_artist_key(s), CharClass::Whitespace, ' ', false),
{
    let t = ascii_lowercase(spec_trim(s));
    assert(class_has(CharClass::Whitespace, ' '));
    lemma_remove_class_collapse(ascii_key_chars(t), CharClass::Whitespace, ' ', false, false);
    lemma_key_chars_letters(t);
    lemma_collapse_from_shape(ascii_key_chars(t), CharClass::Whitespace, ' ', false, false);
}

/// For any name, the artist key without its whitespace is the alphanumeric,
/// non-combining characters of the lowercased, decomposed name, in order: nothing
/// alphanumeric is dropped.
pub proof fn law_artist_key_keeps_alphanumerics(s: Seq<char>)
    ensures
        remove_class(spec_normalize_artist_key(s), CharClass::Whitespace) == remove_class(
            key_letters(nfkd_decomposition(unicode_lowercase(spec_trim(s)))),
            CharClass::Whitespace,
        ),
{
    let t = nfkd_decomposition(unicode_lowercase(spec_trim(s)));
    assert(class_has(CharClass::Whitespace, ' '));
    lemma_remove_class_collapse(artist_key_chars(t), CharClass::Whitespace, ' ', false, false);
    lemma_artist_chars_letters(t);
}
} // verus!
