//! Local storage paths: sanitising names for the file system, unique file paths and
//! paths relative to the media root. Layout: `<root>/video/<artist>/<title>.mp4` and
//! `<root>/audio/<artist>/<title>.mp3`.

use vstd::prelude::*;
use crate::paths::{chars_take, spec_join, join_path};
use crate::text::{
    chars_of, class_has, concat_str, spec_is_whitespace, spec_trim, string_from_chars, trim_chars, trim_class, push_chars, push_lower_hex, lower_hex,
    trim_end_class, trim_start_class, CharClass, decimal, push_decimal,
};

verus! {

/// Longest sanitised component, in bytes.
pub const MAX_COMPONENT_LEN: usize = 120;

/// Characters not allowed in file names on Windows or Unix.
pub open spec fn is_forbidden(c: char) -> bool {
    c == '/' || c == '\\' || c == ':' || c == '*' || c == '?' || c == '"' || c == '<' || c == '>'
        || c == '|'
}

/// Every forbidden character replaced by `-`.
pub open spec fn replace_forbidden(s: Seq<char>) -> Seq<char>
    decreases s.len(),
{
    if s.len() == 0 {
        Seq::empty()
    } else {
        replace_forbidden(s.drop_last()).push(if is_forbidden(s.last()) { '-' } else { s.last() })
    }
}

/// `s` holds the two-character sequence `a b`.
pub open spec fn has_pair(s: Seq<char>, a: char, b: char) -> bool
    decreases s.len(),
{
    s.len() >= 2 && ((s[0] == a && s[1] == b) || has_pair(s.drop_first(), a, b))
}

/// `str::replace` of the two-character pattern `a b` by the single character `to`:
/// matches taken left to right without overlap.
pub open spec fn replace_pair(s: Seq<char>, a: char, b: char, to: char) -> Seq<char>
    decreases s.len(),
{
    if s.len() == 0 {
        Seq::empty()
    } else if s.len() >= 2 && s[0] == a && s[1] == b {
        seq![to] + replace_pair(s.skip(2), a, b, to)
    } else {
        seq![s[0]] + replace_pair(s.drop_first(), a, b, to)
    }
}

/// One round of the clean-up loop: `--` to `-`, two spaces to one, then dashes and
/// spaces trimmed at both ends.
pub open spec fn cleanup_round(s: Seq<char>) -> Seq<char> {
    trim_class(
        replace_pair(replace_pair(s, '-', '-', '-'), ' ', ' ', ' '),
        CharClass::DashOrSpace,
    )
}

/// The text holds a run of dashes or a run of spaces.
pub open spec fn has_run(s: Seq<char>) -> bool {
    has_pair(s, '-', '-') || has_pair(s, ' ', ' ')
}

/// The clean-up loop: rounds repeat while the text holds a run of dashes.
pub open spec fn cleanup(s: Seq<char>) -> Seq<char>
    decreases s.len(),
{
    if has_pair(s, '-', '-') {
        proof {
            lemma_round_shrinks(s);
        }
        cleanup(cleanup_round(s))
    } else {
        s
    }
}

/// Runs of spaces squeezed to one space: two spaces become one until none are left.
pub open spec fn squeeze_spaces(s: Seq<char>) -> Seq<char>
    decreases s.len(),
{
    if has_pair(s, ' ', ' ') {
        proof {
            lemma_replace_len(s, ' ', ' ', ' ');
        }
        squeeze_spaces(replace_pair(s, ' ', ' ', ' '))
    } else {
        s
    }
}

/// Replacing never lengthens, and shortens when the pattern occurs.
pub proof fn lemma_replace_len(s: Seq<char>, a: char, b: char, to: char)
    ensures
        replace_pair(s, a, b, to).len() <= s.len(),
        has_pair(s, a, b) ==> replace_pair(s, a, b, to).len() < s.len(),
    decreases s.len(),
{
    if s.len() == 0 {
    } else if s.len() >= 2 && s[0] == a && s[1] == b {
        lemma_replace_len(s.skip(2), a, b, to);
    } else {
        lemma_replace_len(s.drop_first(), a, b, to);
    }
}

/// Trimming never lengthens.
pub proof fn lemma_trim_len(s: Seq<char>, k: CharClass)
    ensures
        trim_start_class(s, k).len() <= s.len(),
        trim_end_class(s, k).len() <= s.len(),
        trim_class(s, k).len() <= s.len(),
    decreases s.len(),
{
    if s.len() > 0 {
        lemma_trim_len(s.drop_first(), k);
        lemma_trim_len(s.drop_last(), k);
    }
    lemma_trim_len_end(trim_start_class(s, k), k);
}

/// Trimming the end never lengthens.
pub proof fn lemma_trim_len_end(s: Seq<char>, k: CharClass)
    ensures
        trim_end_class(s, k).len() <= s.len(),
    decreases s.len(),
{
    if s.len() > 0 {
        lemma_trim_len_end(s.drop_last(), k);
    }
}

/// Replacing a pattern that does not occur changes nothing.
pub proof fn lemma_replace_absent(s: Seq<char>, a: char, b: char, to: char)
    requires
        !has_pair(s, a, b),
    ensures
        replace_pair(s, a, b, to) == s,
    decreases s.len(),
{
    if s.len() > 0 {
        lemma_replace_absent(s.drop_first(), a, b, to);
        assert(s =~= seq![s[0]] + s.drop_first());
    }
}

/// A round shortens any text holding a run, so the clean-up loop ends.
pub proof fn lemma_round_shrinks(s: Seq<char>)
    requires
        has_run(s),
    ensures
        cleanup_round(s).len() < s.len(),
{
    lemma_replace_len(s, '-', '-', '-');
    let r1 = replace_pair(s, '-', '-', '-');
    if !has_pair(s, '-', '-') {
        lemma_replace_absent(s, '-', '-', '-');
    }
    lemma_replace_len(r1, ' ', ' ', ' ');
    lemma_trim_len(replace_pair(r1, ' ', ' ', ' '), CharClass::DashOrSpace);
}

/// Bytes of `c` in UTF-8.
pub open spec fn utf8_len(c: char) -> nat {
    let u = c as u32;
    if u < 0x80 {
        1
    } else if u < 0x800 {
        2
    } else if u < 0x10000 {
        3
    } else {
        4
    }
}

/// Bytes of `s` in UTF-8 (`str::len`).
pub open spec fn byte_len(s: Seq<char>) -> nat
    decreases s.len(),
{
    if s.len() == 0 {
        0
    } else {
        byte_len(s.drop_last()) + utf8_len(s.last())
    }
}

/// The cleaned name before truncation: trimmed, forbidden characters replaced,
/// clean-up loop applied, runs of spaces squeezed.
pub open spec fn sanitize_stage(s: Seq<char>) -> Seq<char> {
    squeeze_spaces(cleanup(replace_forbidden(spec_trim(s))))
}

/// The number of leading characters of `s` that fit in `n` bytes, counting on
/// from `k` characters.
pub open spec fn fit_count(s: Seq<char>, n: nat, k: nat) -> nat
    decreases s.len() - k,
{
    if k < s.len() && byte_len(s.take(k + 1int)) <= n {
        fit_count(s, n, k + 1)
    } else {
        k
    }
}

/// The longest prefix of `s` that is at most `n` bytes long: a cut at a character
/// boundary.
pub open spec fn prefix_within_bytes(s: Seq<char>, n: nat) -> Seq<char> {
    s.take(fit_count(s, n, 0) as int)
}

/// `sanitize_path_component`: the cleaned name; when longer than 120 bytes, its
/// longest prefix of at most 120 bytes that ends at a character boundary, without
/// trailing dashes and spaces; `Unknown` when empty.
pub open spec fn spec_sanitize(s: Seq<char>) -> Seq<char> {
    let st = sanitize_stage(s);
    let cut = if byte_len(st) > MAX_COMPONENT_LEN {
        trim_end_class(prefix_within_bytes(st, MAX_COMPONENT_LEN as nat), CharClass::DashOrSpace)
    } else {
        st
    };
    if cut.len() == 0 {
        "Unknown"@
    } else {
        cut
    }
}

/// Replaces forbidden characters by `-`.
fn replace_forbidden_chars(v: &Vec<char>) -> (r: Vec<char>)
    ensures
        r@ == replace_forbidden(v@),
{
    let mut out: Vec<char> = Vec::new();
    let mut i: usize = 0;
    while i < v.len()
        invariant
            i <= v.len(),
            out@ == replace_forbidden(v@.take(i as int)),
        decreases v.len() - i,
    {
        let c = v[i];
        assert(v@.take(i + 1).drop_last() =~= v@.take(i as int));
        if c == '/' || c == '\\' || c == ':' || c == '*' || c == '?' || c == '"' || c == '<' || c
            == '>' || c == '|' {
            out.push('-');
        } else {
            out.push(c);
        }
        i += 1;
    }
    assert(v@.take(v.len() as int) =~= v@);
    out
}

/// Whether `v` holds `a b`.
fn contains_pair(v: &Vec<char>, a: char, b: char) -> (r: bool)
    ensures
        r == has_pair(v@, a, b),
{
    if v.len() < 2 {
        return false;
    }
    let mut i: usize = 0;
    assert(v@.skip(0) =~= v@);
    while i < v.len() - 1
        invariant
            v.len() >= 2,
            i <= v.len(),
            has_pair(v@, a, b) == has_pair(v@.skip(i as int), a, b),
        decreases v.len() - i,
    {
        if v[i] == a && v[i + 1] == b {
            return true;
        }
        assert(v@.skip(i as int).drop_first() =~= v@.skip(i + 1));
        i += 1;
    }
    false
}

/// Replaces `a b` by `to`, left to right.
fn replace_pair_chars(v: &Vec<char>, a: char, b: char, to: char) -> (r: Vec<char>)
    ensures
        r@ == replace_pair(v@, a, b, to),
{
    let mut out: Vec<char> = Vec::new();
    let mut i: usize = 0;
    let n = v.len();
    assert(v@.skip(0) =~= v@);
    while i < n
        invariant
            n == v@.len(),
            i <= n,
            out@ + replace_pair(v@.skip(i as int), a, b, to) == replace_pair(v@, a, b, to),
        decreases n - i,
    {
        let ghost rest = v@.skip(i as int);
        if i + 1 < n && v[i] == a && v[i + 1] == b {
            assert(rest.skip(2) =~= v@.skip(i + 2));
            let ghost before = out@;
            out.push(to);
            assert(before + (seq![to] + replace_pair(rest.skip(2), a, b, to)) =~= out@
                + replace_pair(v@.skip(i + 2), a, b, to));
            i += 2;
        } else {
            assert(rest.drop_first() =~= v@.skip(i + 1));
            let ghost before = out@;
            out.push(v[i]);
            assert(before + (seq![v@[i as int]] + replace_pair(rest.drop_first(), a, b, to)) =~= out@
                + replace_pair(v@.skip(i + 1), a, b, to));
            i += 1;
        }
    }
    assert(v@.skip(n as int) =~= Seq::<char>::empty());
    assert(out@ + Seq::<char>::empty() =~= out@);
    out
}

/// Runs the clean-up loop.
fn cleanup_chars(v: Vec<char>) -> (r: Vec<char>)
    ensures
        r@ == cleanup(v@),
{
    let mut out = v;
    while contains_pair(&out, '-', '-')
        invariant
            cleanup(out@) == cleanup(v@),
        decreases out@.len(),
    {
        proof {
            lemma_round_shrinks(out@);
        }
        let r1 = replace_pair_chars(&out, '-', '-', '-');
        let r2 = replace_pair_chars(&r1, ' ', ' ', ' ');
        out = trim_chars(&r2, CharClass::DashOrSpace);
    }
    out
}

/// Squeezes runs of spaces to one space.
fn squeeze_space_chars(v: Vec<char>) -> (r: Vec<char>)
    ensures
        r@ == squeeze_spaces(v@),
{
    let mut out = v;
    while contains_pair(&out, ' ', ' ')
        invariant
            squeeze_spaces(out@) == squeeze_spaces(v@),
        decreases out@.len(),
    {
        proof {
            lemma_replace_len(out@, ' ', ' ', ' ');
        }
        out = replace_pair_chars(&out, ' ', ' ', ' ');
    }
    out
}

/// Byte length of a character in UTF-8.
fn char_utf8_len(c: char) -> (r: u64)
    ensures
        r == utf8_len(c),
{
    let u = c as u32;
    if u < 0x80 {
        1
    } else if u < 0x800 {
        2
    } else if u < 0x10000 {
        3
    } else {
        4
    }
}

/// Byte lengths grow with the prefix.
proof fn lemma_byte_len_prefix_mono(s: Seq<char>, i: int, j: int)
    requires
        0 <= i <= j <= s.len(),
    ensures
        byte_len(s.take(i)) <= byte_len(s.take(j)),
        i < j ==> byte_len(s.take(i)) < byte_len(s.take(j)),
    decreases j - i,
{
    if i < j {
        lemma_byte_len_prefix_mono(s, i, j - 1);
        assert(s.take(j).drop_last() =~= s.take(j - 1));
    }
}

proof fn lemma_fit_count(s: Seq<char>, n: nat, k: nat)
    requires
        k <= s.len(),
        byte_len(s.take(k as int)) <= n,
    ensures
        k <= fit_count(s, n, k) <= s.len(),
        byte_len(s.take(fit_count(s, n, k) as int)) <= n,
        fit_count(s, n, k) < s.len() ==> byte_len(s.take(fit_count(s, n, k) + 1int)) > n,
    decreases s.len() - k,
{
    if k < s.len() && byte_len(s.take(k + 1int)) <= n {
        lemma_fit_count(s, n, k + 1);
    }
}

/// Sanitises a string for use as a path component (artist or title): trims it,
/// replaces forbidden characters by `-`, collapses runs of dashes (trimming dashes
/// and spaces at the ends while it does) and squeezes runs of spaces,
/// cuts it to at most 120 bytes at a character boundary and falls back to
/// `Unknown`.
pub fn sanitize_path_component(s: &str) -> (r: String)
    ensures
        r@ == spec_sanitize(s@),
{
    let trimmed = trim_chars(&chars_of(s), CharClass::Whitespace);
    let replaced = replace_forbidden_chars(&trimmed);
    let cleaned = squeeze_space_chars(cleanup_chars(replaced));
    let ghost st = cleaned@;
    assert(st == sanitize_stage(s@));
    // The longest prefix of at most 120 bytes.
    let mut bytes: u64 = 0;
    let mut k: usize = 0;
    assert(st.take(0) =~= Seq::<char>::empty());
    while k < cleaned.len() && bytes + char_utf8_len(cleaned[k]) <= 120
        invariant
            k <= cleaned@.len(),
            cleaned@ == st,
            bytes == byte_len(st.take(k as int)),
            bytes <= 120,
            fit_count(st, 120, 0) == fit_count(st, 120, k as nat),
        decreases cleaned.len() - k,
    {
        assert(st.take(k + 1).drop_last() =~= st.take(k as int));
        bytes = bytes + char_utf8_len(cleaned[k]);
        k += 1;
    }
    proof {
        if k < cleaned.len() {
            assert(st.take(k + 1).drop_last() =~= st.take(k as int));
        }
        assert(fit_count(st, 120, k as nat) == k);
    }
    let too_long = k < cleaned.len();
    assert(too_long == (byte_len(st) > MAX_COMPONENT_LEN)) by {
        assert(st.take(st.len() as int) =~= st);
        if too_long {
            lemma_byte_len_prefix_mono(st, k + 1, st.len() as int);
        }
    }
    let cut = if too_long {
        let prefix = chars_take(&cleaned, k);
        let mut j = prefix.len();
        assert(prefix@.take(prefix@.len() as int) =~= prefix@);
        while j > 0 && (prefix[j - 1] == '-' || prefix[j - 1] == ' ')
            invariant
                j <= prefix@.len(),
                trim_end_class(prefix@, CharClass::DashOrSpace) == trim_end_class(
                    prefix@.take(j as int),
                    CharClass::DashOrSpace,
                ),
            decreases j,
        {
            assert(prefix@.take(j as int).drop_last() =~= prefix@.take(j - 1));
            j -= 1;
        }
        proof {
            assert(prefix@.take(prefix@.len() as int) =~= prefix@);
        }
        chars_take(&prefix, j)
    } else {
        cleaned
    };
    if cut.len() == 0 {
        String::from_str("Unknown")
    } else {
        string_from_chars(&cut)
    }
}


/// The `n`-th file name tried for `base.ext`: `base.ext` first, then `base (n).ext`.
pub open spec fn candidate_name(base: Seq<char>, ext: Seq<char>, n: nat) -> Seq<char> {
    if n == 0 {
        base + seq!['.'] + ext
    } else {
        base + seq![' ', '('] + decimal(n) + seq![')', '.'] + ext
    }
}

/// The last-resort file name `base-<hex>.ext`.
pub open spec fn fallback_name(base: Seq<char>, ext: Seq<char>, h: nat) -> Seq<char> {
    base + seq!['-'] + lower_hex(h) + seq!['.'] + ext
}

/// Calls `std::path::Path::exists`: whether something exists at `p` on disk.
/// Nothing is promised: the answer depends on the file system.
#[verifier::external_body]
pub(crate) fn path_exists(p: &str) -> bool {
    std::path::Path::new(p).exists()
}

/// Calls `SystemTime::now().elapsed()` (zero on error) and takes whole seconds.
/// Nothing is promised of the clock.
#[verifier::external_body]
fn elapsed_secs_now() -> u64 {
    std::time::SystemTime::now().elapsed().unwrap_or_default().as_secs()
}

/// Builds a candidate file name.
fn build_candidate(base: &Vec<char>, ext: &Vec<char>, n: u32) -> (r: Vec<char>)
    ensures
        r@ == candidate_name(base@, ext@, n as nat),
{
    let mut out: Vec<char> = Vec::new();
    push_chars(&mut out, base);
    if n == 0 {
        out.push('.');
    } else {
        out.push(' ');
        out.push('(');
        push_decimal(&mut out, n as u64);
        out.push(')');
        out.push('.');
    }
    push_chars(&mut out, ext);
    assert(out@ =~= candidate_name(base@, ext@, n as nat));
    out
}

/// The last candidate number that is asked about before the clock-based name.
pub const LAST_CANDIDATE: usize = 9998;

/// The first free candidate, given whether each candidate asked about is taken:
/// the least index not taken, or none when all are taken.
pub fn first_free(taken: &Vec<bool>) -> (r: Option<usize>)
    ensures
        match r {
            Some(k) => k < taken@.len() && !taken@[k as int] && forall|j: int| 0 <= j < k ==> taken@[j],
            None => forall|j: int| 0 <= j < taken@.len() ==> taken@[j],
        },
{
    let mut i: usize = 0;
    while i < taken.len()
        invariant
            i <= taken@.len(),
            forall|j: int| 0 <= j < i ==> taken@[j],
        decreases taken.len() - i,
    {
        if !taken[i] {
            return Some(i);
        }
        i += 1;
    }
    None
}

/// The file path chosen from the disk's answers about the candidates, asked in
/// order (`taken[k]`: candidate `k` exists): the least candidate that does not
/// exist, every lower one existing; none when all that were asked about exist.
pub fn path_from_answers(dir: &str, base_name: &str, ext: &str, taken: &Vec<bool>) -> (r: Option<String>)
    requires
        taken@.len() <= LAST_CANDIDATE + 1,
    ensures
        r is None <==> forall|j: int| 0 <= j < taken@.len() ==> taken@[j],
        r matches Some(p) ==> exists|k: int| {
            &&& 0 <= k < taken@.len()
            &&& !taken@[k]
            &&& (forall|j: int| 0 <= j < k ==> taken@[j])
            &&& p@ == spec_join(dir@, #[trigger] candidate_name(base_name@, ext@, k as nat))
        },
{
    let base = chars_of(base_name);
    let e = chars_of(ext);
    match first_free(taken) {
        Some(k) => {
            let name = build_candidate(&base, &e, k as u32);
            let p = join_path(dir, string_from_chars(&name).as_str());
            let ghost ki = k as int;
            assert(p@ == spec_join(dir@, candidate_name(base_name@, ext@, ki as nat)));
            assert(0 <= ki < taken@.len() && !taken@[ki] && forall|j: int| 0 <= j < ki ==> taken@[j]);
            Some(p)
        },
        None => None,
    }
}

/// The message when even the clock-based name of a file is taken.
pub open spec fn name_taken_message(path: Seq<char>) -> Seq<char> {
    "Ya existe: "@ + path
}

/// A path in `dir` for `base_name.ext` that does not exist yet. The candidates
/// `base_name.ext`, `base_name (1).ext`, ... up to number 9998 are asked about in
/// order until one is free, and the first free one is taken (`first_free`). When all
/// are taken, a name with a hexadecimal suffix from the clock is asked about too,
/// and refused when it is taken as well.
pub fn unique_file_path(dir: &str, base_name: &str, ext: &str) -> (r: Result<String, String>)
    ensures
        r matches Ok(p) ==> (exists|n: nat| n <= LAST_CANDIDATE && p@ == spec_join(dir@, #[trigger] candidate_name(base_name@, ext@, n)))
            || (exists|h: nat| h < 0xFFFF && p@ == spec_join(dir@, #[trigger] fallback_name(base_name@, ext@, h))),
        r matches Err(e) ==> exists|h: nat| h < 0xFFFF && e@ == name_taken_message(
            spec_join(dir@, #[trigger] fallback_name(base_name@, ext@, h)),
        ),
{
    let base = chars_of(base_name);
    let e = chars_of(ext);
    let mut taken: Vec<bool> = Vec::new();
    let mut last_taken = true;
    while last_taken && taken.len() <= LAST_CANDIDATE
        invariant
            taken@.len() <= LAST_CANDIDATE + 1,
            base@ == base_name@,
            e@ == ext@,
        decreases LAST_CANDIDATE + 1 - taken@.len(),
    {
        let n = taken.len() as u32;
        let path = join_path(dir, string_from_chars(&build_candidate(&base, &e, n)).as_str());
        last_taken = path_exists(path.as_str());
        taken.push(last_taken);
    }
    match path_from_answers(dir, base_name, ext, &taken) {
        Some(p) => Ok(p),
        None => {
            let h = elapsed_secs_now() % 0xFFFF;
            let mut name: Vec<char> = Vec::new();
            push_chars(&mut name, &base);
            name.push('-');
            push_lower_hex(&mut name, h);
            name.push('.');
            push_chars(&mut name, &e);
            assert(name@ =~= fallback_name(base_name@, ext@, h as nat));
            let fb = join_path(dir, string_from_chars(&name).as_str());
            if path_exists(fb.as_str()) {
                let msg = concat_str("Ya existe: ", fb.as_str());
                Err(msg)
            } else {
                Ok(fb)
            }
        },
    }
}

/// The directory for one artist's files of a kind: `<media_root>/<kind>/<artist>`,
/// with the artist name sanitised.
pub fn media_artist_dir(media_root: &str, kind: &str, artist: &str) -> (r: String)
    ensures
        r@ == spec_join(spec_join(media_root@, kind@), spec_sanitize(artist@)),
{
    let a = sanitize_path_component(artist);
    let k = join_path(media_root, kind);
    join_path(k.as_str(), a.as_str())
}

/// What `Path::strip_prefix` followed by `to_str` gives: the rest of `path` after
/// the components of `base`, or none when `base` is not a prefix of it.
pub uninterp spec fn path_strip_prefix(path: Seq<char>, base: Seq<char>) -> Option<Seq<char>>;

/// Calls `std::path::Path::strip_prefix` and `to_str`; the result is the named
/// remainder of `path` after `base`.
#[verifier::external_body]
pub(crate) fn strip_path_prefix(path: &str, base: &str) -> (r: Option<String>)
    ensures
        match r {
            Some(x) => path_strip_prefix(path@, base@) == Some(x@),
            None => path_strip_prefix(path@, base@) is None,
        },
{
    std::path::Path::new(path).strip_prefix(base).ok().and_then(|p| p.to_str()).map(|s| s.to_string())
}

/// Every `\` replaced by `/`.
pub open spec fn backslashes_to_slashes(s: Seq<char>) -> Seq<char>
    decreases s.len(),
{
    if s.len() == 0 {
        Seq::empty()
    } else {
        backslashes_to_slashes(s.drop_last()).push(if s.last() == '\\' { '/' } else { s.last() })
    }
}

/// The path of `absolute` relative to `media_root`, with `/` separators, for the
/// database; `absolute` itself when it is not under `media_root`.
pub fn to_relative_path(media_root: &str, absolute: &str) -> (r: Option<String>)
    ensures
        r matches Some(x) && x@ == match path_strip_prefix(absolute@, media_root@) {
            Some(rest) => backslashes_to_slashes(rest),
            None => absolute@,
        },
{
    match strip_path_prefix(absolute, media_root) {
        Some(rest) => {
            let v = chars_of(rest.as_str());
            let mut out: Vec<char> = Vec::new();
            let mut i: usize = 0;
            while i < v.len()
                invariant
                    i <= v.len(),
                    out@ == backslashes_to_slashes(v@.take(i as int)),
                decreases v.len() - i,
            {
                assert(v@.take(i + 1).drop_last() =~= v@.take(i as int));
                out.push(if v[i] == '\\' { '/' } else { v[i] });
                i += 1;
            }
            assert(v@.take(v.len() as int) =~= v@);
            Some(string_from_chars(&out))
        },
        None => Some(String::from_str(absolute)),
    }
}


/// No character of `s` is forbidden.
pub open spec fn no_forbidden(s: Seq<char>) -> bool {
    forall|i: int| 0 <= i < s.len() ==> !is_forbidden(#[trigger] s[i])
}

proof fn lemma_replace_forbidden_clean(s: Seq<char>)
    ensures
        no_forbidden(replace_forbidden(s)),
        replace_forbidden(s).len() == s.len(),
    decreases s.len(),
{
    if s.len() > 0 {
        lemma_replace_forbidden_clean(s.drop_last());
        let r = replace_forbidden(s);
        assert forall|i: int| 0 <= i < r.len() implies !is_forbidden(#[trigger] r[i]) by {
            if i < r.len() - 1 {
                assert(r[i] == replace_forbidden(s.drop_last())[i]);
            }
        }
    }
}

proof fn lemma_replace_pair_clean(s: Seq<char>, a: char, b: char, to: char)
    requires
        no_forbidden(s),
        !is_forbidden(to),
    ensures
        no_forbidden(replace_pair(s, a, b, to)),
    decreases s.len(),
{
    if s.len() == 0 {
    } else if s.len() >= 2 && s[0] == a && s[1] == b {
        lemma_replace_pair_clean(s.skip(2), a, b, to);
        let r = replace_pair(s, a, b, to);
        assert forall|i: int| 0 <= i < r.len() implies !is_forbidden(#[trigger] r[i]) by {
            if i > 0 {
                assert(r[i] == replace_pair(s.skip(2), a, b, to)[i - 1]);
            }
        }
    } else {
        lemma_replace_pair_clean(s.drop_first(), a, b, to);
        let r = replace_pair(s, a, b, to);
        assert forall|i: int| 0 <= i < r.len() implies !is_forbidden(#[trigger] r[i]) by {
            if i > 0 {
                assert(r[i] == replace_pair(s.drop_first(), a, b, to)[i - 1]);
            }
        }
    }
}

proof fn lemma_trim_start_is_suffix(s: Seq<char>, k: CharClass)
    ensures
        exists|j: int| 0 <= j <= s.len() && trim_start_class(s, k) == #[trigger] s.skip(j),
    decreases s.len(),
{
    if s.len() > 0 && class_has(k, s[0]) {
        lemma_trim_start_is_suffix(s.drop_first(), k);
        let j = choose|j: int| 0 <= j <= s.drop_first().len() && trim_start_class(s.drop_first(), k) == #[trigger] s.drop_first().skip(j);
        assert(s.drop_first().skip(j) =~= s.skip(j + 1));
    } else {
        assert(s.skip(0) =~= s);
    }
}

proof fn lemma_trim_end_is_prefix(s: Seq<char>, k: CharClass)
    ensures
        exists|j: int| 0 <= j <= s.len() && trim_end_class(s, k) == #[trigger] s.take(j),
    decreases s.len(),
{
    if s.len() > 0 && class_has(k, s.last()) {
        lemma_trim_end_is_prefix(s.drop_last(), k);
        let j = choose|j: int| 0 <= j <= s.drop_last().len() && trim_end_class(s.drop_last(), k) == #[trigger] s.drop_last().take(j);
        assert(s.drop_last().take(j) =~= s.take(j));
    } else {
        assert(s.take(s.len() as int) =~= s);
    }
}

proof fn lemma_trim_clean(s: Seq<char>, k: CharClass)
    requires
        no_forbidden(s),
    ensures
        no_forbidden(trim_class(s, k)),
        no_forbidden(trim_end_class(s, k)),
{
    lemma_trim_start_is_suffix(s, k);
    let j = choose|j: int| 0 <= j <= s.len() && trim_start_class(s, k) == #[trigger] s.skip(j);
    let t = s.skip(j);
    assert(no_forbidden(t)) by {
        assert forall|i: int| 0 <= i < t.len() implies !is_forbidden(#[trigger] t[i]) by {
            assert(t[i] == s[i + j]);
        }
    }
    lemma_trim_end_is_prefix(t, k);
    let m = choose|m: int| 0 <= m <= t.len() && trim_end_class(t, k) == #[trigger] t.take(m);
    let u = t.take(m);
    assert(no_forbidden(u)) by {
        assert forall|i: int| 0 <= i < u.len() implies !is_forbidden(#[trigger] u[i]) by {
            assert(u[i] == t[i]);
        }
    }
    lemma_trim_end_is_prefix(s, k);
    let m2 = choose|m: int| 0 <= m <= s.len() && trim_end_class(s, k) == #[trigger] s.take(m);
    let u2 = s.take(m2);
    assert(no_forbidden(u2)) by {
        assert forall|i: int| 0 <= i < u2.len() implies !is_forbidden(#[trigger] u2[i]) by {
            assert(u2[i] == s[i]);
        }
    }
}

proof fn lemma_cleanup_clean(s: Seq<char>)
    requires
        no_forbidden(s),
    ensures
        no_forbidden(cleanup(s)),
        !has_pair(cleanup(s), '-', '-'),
    decreases s.len(),
{
    if has_pair(s, '-', '-') {
        lemma_round_shrinks(s);
        let r1 = replace_pair(s, '-', '-', '-');
        lemma_replace_pair_clean(s, '-', '-', '-');
        lemma_replace_pair_clean(r1, ' ', ' ', ' ');
        lemma_trim_clean(replace_pair(r1, ' ', ' ', ' '), CharClass::DashOrSpace);
        lemma_cleanup_clean(cleanup_round(s));
    }
}

/// Squeezing spaces brings no two dashes together.
proof fn lemma_space_replace_no_dashes(s: Seq<char>)
    requires
        !has_pair(s, '-', '-'),
    ensures
        !has_pair(replace_pair(s, ' ', ' ', ' '), '-', '-'),
    decreases s.len(),
{
    if s.len() == 0 {
    } else if s.len() >= 2 && s[0] == ' ' && s[1] == ' ' {
        assert(s.skip(2) =~= s.drop_first().drop_first());
        assert(!has_pair(s.drop_first(), '-', '-'));
        lemma_space_replace_no_dashes(s.skip(2));
        let r = replace_pair(s, ' ', ' ', ' ');
        assert(r.drop_first() =~= replace_pair(s.skip(2), ' ', ' ', ' '));
    } else {
        lemma_space_replace_no_dashes(s.drop_first());
        let rest = replace_pair(s.drop_first(), ' ', ' ', ' ');
        let r = replace_pair(s, ' ', ' ', ' ');
        assert(r.drop_first() =~= rest);
        if s.len() >= 2 {
            lemma_replace_pair_first(s.drop_first(), ' ', ' ', ' ');
        }
    }
}

/// The first character after a replacement: the replacement when the text starts
/// with the pattern, else the text's own first character.
proof fn lemma_replace_pair_first(s: Seq<char>, a: char, b: char, to: char)
    requires
        s.len() > 0,
    ensures
        replace_pair(s, a, b, to).len() > 0,
        replace_pair(s, a, b, to)[0] == (if s.len() >= 2 && s[0] == a && s[1] == b { to } else { s[0] }),
{
}

/// After squeezing, the text holds no run of spaces, and neither a forbidden
/// character nor a run of dashes when it held none.
proof fn lemma_squeeze_clean(s: Seq<char>)
    requires
        no_forbidden(s),
        !has_pair(s, '-', '-'),
    ensures
        no_forbidden(squeeze_spaces(s)),
        !has_run(squeeze_spaces(s)),
    decreases s.len(),
{
    if has_pair(s, ' ', ' ') {
        lemma_replace_len(s, ' ', ' ', ' ');
        lemma_replace_pair_clean(s, ' ', ' ', ' ');
        lemma_space_replace_no_dashes(s);
        lemma_squeeze_clean(replace_pair(s, ' ', ' ', ' '));
    }
}

proof fn lemma_pair_in_prefix(s: Seq<char>, j: int, a: char, b: char)
    requires
        0 <= j <= s.len(),
        has_pair(s.take(j), a, b),
    ensures
        has_pair(s, a, b),
    decreases j,
{
    let t = s.take(j);
    if !(t[0] == a && t[1] == b) {
        assert(t.drop_first() =~= s.drop_first().take(j - 1));
        lemma_pair_in_prefix(s.drop_first(), j - 1, a, b);
    } else {
        assert(s[0] == t[0] && s[1] == t[1]);
    }
}

/// A sanitised name is safe as a file name, whatever the input: it is not empty,
/// holds no character that file systems forbid, has no run of dashes or of spaces,
/// and is at most 120 bytes long.
pub proof fn law_sanitized_name_is_safe(s: Seq<char>)
    ensures
        spec_sanitize(s).len() > 0,
        no_forbidden(spec_sanitize(s)),
        !has_run(spec_sanitize(s)),
        byte_len(spec_sanitize(s)) <= MAX_COMPONENT_LEN,
{
    reveal_strlit("Unknown");
    let st = sanitize_stage(s);
    lemma_replace_forbidden_clean(spec_trim(s));
    lemma_cleanup_clean(replace_forbidden(spec_trim(s)));
    lemma_squeeze_clean(cleanup(replace_forbidden(spec_trim(s))));
    let u = "Unknown"@;
    assert(u =~= seq!['U', 'n', 'k', 'n', 'o', 'w', 'n']);
    assert(no_forbidden(u)) by {
        assert forall|i: int| 0 <= i < u.len() implies !is_forbidden(#[trigger] u[i]) by {
        }
    }
    assert(!has_run(u)) by {
        reveal_with_fuel(has_pair, 8);
    }
    assert(byte_len(u) <= MAX_COMPONENT_LEN) by {
        reveal_with_fuel(byte_len, 8);
    }
    if byte_len(st) > MAX_COMPONENT_LEN {
        assert(st.take(0) =~= Seq::<char>::empty());
        lemma_fit_count(st, MAX_COMPONENT_LEN as nat, 0);
        let w = fit_count(st, MAX_COMPONENT_LEN as nat, 0) as int;
        let p = st.take(w);
        assert(p == prefix_within_bytes(st, MAX_COMPONENT_LEN as nat));
        assert(no_forbidden(p)) by {
            assert forall|i: int| 0 <= i < p.len() implies !is_forbidden(#[trigger] p[i]) by {
                assert(p[i] == st[i]);
            }
        }
        lemma_trim_clean(p, CharClass::DashOrSpace);
        lemma_trim_end_is_prefix(p, CharClass::DashOrSpace);
        let m = choose|m: int| 0 <= m <= p.len() && trim_end_class(p, CharClass::DashOrSpace) == #[trigger] p.take(m);
        assert(p.take(m) =~= st.take(m));
        lemma_byte_len_prefix_mono(st, m, w);
        if has_pair(st.take(m), '-', '-') {
            lemma_pair_in_prefix(st, m, '-', '-');
        }
        if has_pair(st.take(m), ' ', ' ') {
            lemma_pair_in_prefix(st, m, ' ', ' ');
        }
    }
}


/// Every character of `s` satisfies `p`.
pub open spec fn chars_all(s: Seq<char>, p: spec_fn(char) -> bool) -> bool {
    forall|i: int| 0 <= i < s.len() ==> p(#[trigger] s[i])
}

/// The only whitespace character `c` can be is the space.
pub open spec fn space_if_whitespace(c: char) -> bool {
    spec_is_whitespace(c) ==> c == ' '
}

/// The first and the last character of `s` are not whitespace.
pub open spec fn ends_not_whitespace(s: Seq<char>) -> bool {
    s.len() > 0 ==> !spec_is_whitespace(s[0]) && !spec_is_whitespace(s[s.len() - 1])
}

proof fn lemma_replace_forbidden_keeps(s: Seq<char>, p: spec_fn(char) -> bool)
    requires
        chars_all(s, p),
        p('-'),
    ensures
        chars_all(replace_forbidden(s), p),
    decreases s.len(),
{
    if s.len() > 0 {
        assert(p(s[s.len() - 1]));
        lemma_replace_forbidden_keeps(s.drop_last(), p);
        lemma_replace_forbidden_clean(s.drop_last());
        let r = replace_forbidden(s);
        assert forall|i: int| 0 <= i < r.len() implies p(#[trigger] r[i]) by {
            if i < r.len() - 1 {
                assert(r[i] == replace_forbidden(s.drop_last())[i]);
            }
        }
    }
}

proof fn lemma_replace_pair_keeps(s: Seq<char>, a: char, b: char, to: char, p: spec_fn(char) -> bool)
    requires
        chars_all(s, p),
        p(to),
    ensures
        chars_all(replace_pair(s, a, b, to), p),
    decreases s.len(),
{
    if s.len() == 0 {
    } else if s.len() >= 2 && s[0] == a && s[1] == b {
        assert(chars_all(s.skip(2), p)) by {
            assert forall|i: int| 0 <= i < s.skip(2).len() implies p(#[trigger] s.skip(2)[i]) by {
                assert(p(s[i + 2]));
            }
        }
        lemma_replace_pair_keeps(s.skip(2), a, b, to, p);
        let r = replace_pair(s, a, b, to);
        assert forall|i: int| 0 <= i < r.len() implies p(#[trigger] r[i]) by {
            if i > 0 {
                assert(r[i] == replace_pair(s.skip(2), a, b, to)[i - 1]);
            }
        }
    } else {
        assert(chars_all(s.drop_first(), p)) by {
            assert forall|i: int| 0 <= i < s.drop_first().len() implies p(#[trigger] s.drop_first()[i]) by {
                assert(p(s[i + 1]));
            }
        }
        lemma_replace_pair_keeps(s.drop_first(), a, b, to, p);
        let r = replace_pair(s, a, b, to);
        assert(p(s[0]));
        assert forall|i: int| 0 <= i < r.len() implies p(#[trigger] r[i]) by {
            if i > 0 {
                assert(r[i] == replace_pair(s.drop_first(), a, b, to)[i - 1]);
            }
        }
    }
}

/// Trimming keeps every property of the characters, and leaves neither end in the
/// trimmed class.
proof fn lemma_trim_keeps(s: Seq<char>, k: CharClass, p: spec_fn(char) -> bool)
    requires
        chars_all(s, p),
    ensures
        chars_all(trim_class(s, k), p),
        trim_class(s, k).len() > 0 ==> !class_has(k, trim_class(s, k)[0])
            && !class_has(k, trim_class(s, k)[trim_class(s, k).len() - 1]),
{
    lemma_trim_start_is_suffix(s, k);
    let j = choose|j: int| 0 <= j <= s.len() && trim_start_class(s, k) == #[trigger] s.skip(j);
    let t = s.skip(j);
    lemma_trim_start_end(s, k);
    assert(chars_all(t, p)) by {
        assert forall|i: int| 0 <= i < t.len() implies p(#[trigger] t[i]) by {
            assert(t[i] == s[i + j]);
        }
    }
    lemma_trim_end_is_prefix(t, k);
    lemma_trim_end_end(t, k);
    let m = choose|m: int| 0 <= m <= t.len() && trim_end_class(t, k) == #[trigger] t.take(m);
    let u = t.take(m);
    assert(chars_all(u, p)) by {
        assert forall|i: int| 0 <= i < u.len() implies p(#[trigger] u[i]) by {
            assert(u[i] == t[i]);
        }
    }
    if u.len() > 0 {
        assert(u[0] == t[0]);
    }
}

proof fn lemma_trim_start_end(s: Seq<char>, k: CharClass)
    ensures
        trim_start_class(s, k).len() > 0 ==> !class_has(k, trim_start_class(s, k)[0]),
    decreases s.len(),
{
    if s.len() > 0 && class_has(k, s[0]) {
        lemma_trim_start_end(s.drop_first(), k);
    }
}

proof fn lemma_trim_end_end(s: Seq<char>, k: CharClass)
    ensures
        trim_end_class(s, k).len() > 0 ==> !class_has(k, trim_end_class(s, k)[trim_end_class(s, k).len() - 1]),
    decreases s.len(),
{
    if s.len() > 0 && class_has(k, s.last()) {
        lemma_trim_end_end(s.drop_last(), k);
    }
}

/// The clean-up loop keeps spaces the only whitespace and whitespace off both ends.
proof fn lemma_cleanup_ends(t: Seq<char>)
    requires
        chars_all(t, |c: char| space_if_whitespace(c)),
        ends_not_whitespace(t),
    ensures
        chars_all(cleanup(t), |c: char| space_if_whitespace(c)),
        ends_not_whitespace(cleanup(t)),
    decreases t.len(),
{
    let p = |c: char| space_if_whitespace(c);
    if has_pair(t, '-', '-') {
        lemma_round_shrinks(t);
        let r1 = replace_pair(t, '-', '-', '-');
        lemma_replace_pair_keeps(t, '-', '-', '-', p);
        lemma_replace_pair_keeps(r1, ' ', ' ', ' ', p);
        let r2 = replace_pair(r1, ' ', ' ', ' ');
        lemma_trim_keeps(r2, CharClass::DashOrSpace, p);
        let r = cleanup_round(t);
        if r.len() > 0 {
            assert(p(r[0]) && p(r[r.len() - 1]));
        }
        lemma_cleanup_ends(r);
    }
}

/// The last character after a replacement is the text's own last character when
/// that is not the pattern's second character.
proof fn lemma_replace_pair_last(s: Seq<char>, a: char, b: char, to: char)
    requires
        s.len() > 0,
        s.last() != b,
    ensures
        replace_pair(s, a, b, to).len() > 0,
        replace_pair(s, a, b, to).last() == s.last(),
    decreases s.len(),
{
    let r = replace_pair(s, a, b, to);
    if s.len() >= 2 && s[0] == a && s[1] == b {
        let rest = replace_pair(s.skip(2), a, b, to);
        assert(s.skip(2).last() == s.last());
        lemma_replace_pair_last(s.skip(2), a, b, to);
        assert(r == seq![to] + rest);
        assert(r.last() == rest.last());
    } else if s.len() >= 2 {
        let rest = replace_pair(s.drop_first(), a, b, to);
        assert(s.drop_first().last() == s.last());
        lemma_replace_pair_last(s.drop_first(), a, b, to);
        assert(r == seq![s[0]] + rest);
        assert(r.last() == rest.last());
    } else {
        assert(replace_pair(s.drop_first(), a, b, to) == Seq::<char>::empty());
        assert(r =~= seq![s[0]]);
    }
}

/// Squeezing spaces keeps spaces the only whitespace and whitespace off both ends.
proof fn lemma_squeeze_ends(t: Seq<char>)
    requires
        chars_all(t, |c: char| space_if_whitespace(c)),
        ends_not_whitespace(t),
    ensures
        chars_all(squeeze_spaces(t), |c: char| space_if_whitespace(c)),
        ends_not_whitespace(squeeze_spaces(t)),
    decreases t.len(),
{
    let p = |c: char| space_if_whitespace(c);
    if has_pair(t, ' ', ' ') {
        lemma_replace_len(t, ' ', ' ', ' ');
        lemma_replace_pair_keeps(t, ' ', ' ', ' ', p);
        lemma_replace_pair_first(t, ' ', ' ', ' ');
        lemma_replace_pair_last(t, ' ', ' ', ' ');
        lemma_squeeze_ends(replace_pair(t, ' ', ' ', ' '));
    }
}

/// A name that is already sanitised sanitises to itself.
proof fn lemma_sanitize_fixed(t: Seq<char>)
    requires
        t.len() > 0,
        ends_not_whitespace(t),
        no_forbidden(t),
        !has_run(t),
        byte_len(t) <= MAX_COMPONENT_LEN,
    ensures
        spec_sanitize(t) == t,
{
    assert(trim_start_class(t, CharClass::Whitespace) == t);
    assert(trim_end_class(t, CharClass::Whitespace) == t);
    lemma_replace_forbidden_fixed(t);
}

proof fn lemma_replace_forbidden_fixed(t: Seq<char>)
    requires
        no_forbidden(t),
    ensures
        replace_forbidden(t) == t,
    decreases t.len(),
{
    if t.len() > 0 {
        assert(!is_forbidden(t[t.len() - 1]));
        lemma_replace_forbidden_fixed(t.drop_last());
        assert(replace_forbidden(t) =~= t);
    }
}

/// Sanitising is idempotent for names whose only whitespace is the space
/// character: a sanitised name sanitises to itself.
pub proof fn law_sanitize_idempotent(s: Seq<char>)
    requires
        chars_all(s, |c: char| space_if_whitespace(c)),
    ensures
        spec_sanitize(spec_sanitize(s)) == spec_sanitize(s),
{
    let p = |c: char| space_if_whitespace(c);
    reveal_strlit("Unknown");
    law_sanitized_name_is_safe(s);
    let t = spec_trim(s);
    lemma_trim_keeps(s, CharClass::Whitespace, p);
    lemma_replace_forbidden_keeps(t, p);
    lemma_replace_forbidden_clean(t);
    let x = replace_forbidden(t);
    if x.len() > 0 {
        assert(x[0] == (if is_forbidden(t[0]) { '-' } else { t[0] })) by {
            lemma_replace_forbidden_index(t, 0);
        }
        lemma_replace_forbidden_index(t, t.len() - 1);
    }
    lemma_cleanup_ends(x);
    lemma_squeeze_ends(cleanup(x));
    let st = sanitize_stage(s);
    let r = spec_sanitize(s);
    if byte_len(st) > MAX_COMPONENT_LEN {
        let w = fit_count(st, MAX_COMPONENT_LEN as nat, 0) as int;
        lemma_fit_count(st, MAX_COMPONENT_LEN as nat, 0);
        let q = st.take(w);
        assert(chars_all(q, p)) by {
            assert forall|i: int| 0 <= i < q.len() implies p(#[trigger] q[i]) by {
                assert(q[i] == st[i]);
            }
        }
        lemma_trim_end_is_prefix(q, CharClass::DashOrSpace);
        lemma_trim_end_end(q, CharClass::DashOrSpace);
        let m = choose|m: int| 0 <= m <= q.len() && trim_end_class(q, CharClass::DashOrSpace) == #[trigger] q.take(m);
        if m > 0 {
            assert(r == q.take(m));
            assert(r[0] == st[0]);
            assert(p(q[m - 1]));
        }
    }
    if r.len() > 0 && r == "Unknown"@ {
        assert(r[0] == 'U' && r[r.len() - 1] == 'n');
    }
    lemma_sanitize_fixed(r);
}

/// The `i`-th character after replacing forbidden ones.
proof fn lemma_replace_forbidden_index(s: Seq<char>, i: int)
    requires
        0 <= i < s.len(),
    ensures
        replace_forbidden(s).len() == s.len(),
        replace_forbidden(s)[i] == (if is_forbidden(s[i]) { '-' } else { s[i] }),
    decreases s.len(),
{
    lemma_replace_forbidden_clean(s);
    if i < s.len() - 1 {
        lemma_replace_forbidden_index(s.drop_last(), i);
        lemma_replace_forbidden_clean(s.drop_last());
    }
}

} // verus!
