//! Unix path arithmetic on plain strings: pieces, components, file names,
//! extensions and joining, with the meaning `std::path::Path` gives them.

use vstd::prelude::*;
use crate::text::{chars_of, concat_str};

verus! {

/// The pieces of `s` between occurrences of `sep` (`str::split`): never empty.
pub open spec fn split_on(s: Seq<char>, sep: char) -> Seq<Seq<char>>
    decreases s.len(),
{
    if s.len() == 0 {
        seq![Seq::empty()]
    } else {
        let r = split_on(s.drop_last(), sep);
        if s.last() == sep {
            r.push(Seq::empty())
        } else {
            r.update(r.len() - 1, r.last().push(s.last()))
        }
    }
}

/// The pieces of a path that name something: the `/`-separated pieces that are
/// neither empty nor `.`.
pub open spec fn keep_named(ps: Seq<Seq<char>>) -> Seq<Seq<char>>
    decreases ps.len(),
{
    if ps.len() == 0 {
        Seq::empty()
    } else {
        let r = keep_named(ps.drop_last());
        if ps.last().len() == 0 || ps.last() == seq!['.'] {
            r
        } else {
            r.push(ps.last())
        }
    }
}

/// The components of a path, without the root and without `.` pieces.
pub open spec fn path_components(p: Seq<char>) -> Seq<Seq<char>> {
    keep_named(split_on(p, '/'))
}

/// `Path::file_name`: the last component, unless it is `..` or there is none.
pub open spec fn spec_file_name(p: Seq<char>) -> Option<Seq<char>> {
    let c = path_components(p);
    if c.len() == 0 || c.last() == seq!['.', '.'] {
        None
    } else {
        Some(c.last())
    }
}

/// `Path::parent` followed by `Path::file_name`: the component before the last one,
/// unless it is `..` or there is none.
pub open spec fn spec_parent_file_name(p: Seq<char>) -> Option<Seq<char>> {
    let c = path_components(p);
    if c.len() < 2 || c[c.len() - 2] == seq!['.', '.'] {
        None
    } else {
        Some(c[c.len() - 2])
    }
}

/// The position of the last `.` in `s`, if any.
pub open spec fn last_dot(s: Seq<char>) -> Option<int>
    decreases s.len(),
{
    if s.len() == 0 {
        None
    } else if s.last() == '.' {
        Some(s.len() - 1)
    } else {
        last_dot(s.drop_last())
    }
}

/// `Path::file_stem`: the file name up to its last `.`; the whole name when it has
/// no `.` or its only `.` comes first.
pub open spec fn spec_file_stem(p: Seq<char>) -> Option<Seq<char>> {
    match spec_file_name(p) {
        None => None,
        Some(n) => match last_dot(n) {
            Some(i) => if i == 0 { Some(n) } else { Some(n.take(i)) },
            None => Some(n),
        },
    }
}

/// `Path::extension`: the file name after its last `.`, when that `.` does not come first.
pub open spec fn spec_extension(p: Seq<char>) -> Option<Seq<char>> {
    match spec_file_name(p) {
        None => None,
        Some(n) => match last_dot(n) {
            Some(i) => if i == 0 { None } else { Some(n.skip(i + 1)) },
            None => None,
        },
    }
}

/// `Path::is_absolute` on Unix: the path starts with `/`.
pub open spec fn spec_is_absolute(p: Seq<char>) -> bool {
    p.len() > 0 && p[0] == '/'
}

/// `PathBuf::push` / `Path::join` on Unix: an absolute `name` replaces `dir`;
/// otherwise a `/` goes between them unless `dir` is empty or already ends in `/`.
pub open spec fn spec_join(dir: Seq<char>, name: Seq<char>) -> Seq<char> {
    if spec_is_absolute(name) {
        name
    } else if dir.len() > 0 && dir.last() != '/' {
        dir + seq!['/'] + name
    } else {
        dir + name
    }
}

/// Splits `v` at every `sep`.
pub fn split_chars(v: &Vec<char>, sep: char) -> (r: Vec<Vec<char>>)
    ensures
        r@.len() == split_on(v@, sep).len(),
        forall|i: int| 0 <= i < r@.len() ==> #[trigger] r@[i]@ == split_on(v@, sep)[i],
{
    let mut out: Vec<Vec<char>> = Vec::new();
    let mut cur: Vec<char> = Vec::new();
    let mut i: usize = 0;
    while i < v.len()
        invariant
            i <= v.len(),
            out@.len() + 1 == split_on(v@.take(i as int), sep).len(),
            forall|j: int| 0 <= j < out@.len() ==> #[trigger] out@[j]@ == split_on(v@.take(i as int), sep)[j],
            cur@ == split_on(v@.take(i as int), sep).last(),
        decreases v.len() - i,
    {
        let c = v[i];
        assert(v@.take(i + 1).drop_last() =~= v@.take(i as int));
        if c == sep {
            out.push(cur);
            cur = Vec::new();
        } else {
            cur.push(c);
        }
        i += 1;
    }
    assert(v@.take(v.len() as int) =~= v@);
    out.push(cur);
    out
}

/// The components of the path `p` (see `path_components`).
pub fn components_of(p: &Vec<char>) -> (r: Vec<Vec<char>>)
    ensures
        r@.len() == path_components(p@).len(),
        forall|i: int| 0 <= i < r@.len() ==> #[trigger] r@[i]@ == path_components(p@)[i],
{
    let pieces = split_chars(p, '/');
    let ghost ps = split_on(p@, '/');
    let mut out: Vec<Vec<char>> = Vec::new();
    let mut i: usize = 0;
    while i < pieces.len()
        invariant
            pieces@.len() == ps.len(),
            forall|j: int| 0 <= j < pieces@.len() ==> #[trigger] pieces@[j]@ == ps[j],
            i <= pieces.len(),
            out@.len() == keep_named(ps.take(i as int)).len(),
            forall|j: int| 0 <= j < out@.len() ==> #[trigger] out@[j]@ == keep_named(ps.take(i as int))[j],
        decreases pieces.len() - i,
    {
        assert(ps.take(i + 1).drop_last() =~= ps.take(i as int));
        let piece = &pieces[i];
        let dot = piece.len() == 1 && piece[0] == '.';
        assert(dot == (piece@ == seq!['.'])) by {
            if piece@.len() == 1 && piece@[0] == '.' {
                assert(piece@ =~= seq!['.']);
            }
        }
        if piece.len() != 0 && !dot {
            out.push(piece.clone());
        }
        i += 1;
    }
    assert(ps.take(pieces.len() as int) =~= ps);
    out
}

/// The file name of `p` (`Path::file_name`).
pub fn file_name_of(p: &Vec<char>) -> (r: Option<Vec<char>>)
    ensures
        r matches Some(n) ==> spec_file_name(p@) == Some(n@),
        r is None ==> spec_file_name(p@) is None,
{
    let c = components_of(p);
    if c.len() == 0 {
        return None;
    }
    let last = &c[c.len() - 1];
    let dotdot = last.len() == 2 && last[0] == '.' && last[1] == '.';
    assert(dotdot == (last@ == seq!['.', '.'])) by {
        if last@.len() == 2 && last@[0] == '.' && last@[1] == '.' {
            assert(last@ =~= seq!['.', '.']);
        }
    }
    if dotdot {
        None
    } else {
        Some(last.clone())
    }
}

/// The file name of the parent of `p` (`Path::parent` then `Path::file_name`).
pub fn parent_file_name_of(p: &Vec<char>) -> (r: Option<Vec<char>>)
    ensures
        r matches Some(n) ==> spec_parent_file_name(p@) == Some(n@),
        r is None ==> spec_parent_file_name(p@) is None,
{
    let c = components_of(p);
    if c.len() < 2 {
        return None;
    }
    let prev = &c[c.len() - 2];
    let dotdot = prev.len() == 2 && prev[0] == '.' && prev[1] == '.';
    assert(dotdot == (prev@ == seq!['.', '.'])) by {
        if prev@.len() == 2 && prev@[0] == '.' && prev@[1] == '.' {
            assert(prev@ =~= seq!['.', '.']);
        }
    }
    if dotdot {
        None
    } else {
        Some(prev.clone())
    }
}

/// The position of the last `.` in `v`.
pub fn find_last_dot(v: &Vec<char>) -> (r: Option<usize>)
    ensures
        r matches Some(i) ==> last_dot(v@) == Some(i as int) && i < v@.len(),
        r is None ==> last_dot(v@) is None,
{
    let mut j: usize = v.len();
    assert(v@.take(v.len() as int) =~= v@);
    while j > 0 && v[j - 1] != '.'
        invariant
            j <= v.len(),
            last_dot(v@) == last_dot(v@.take(j as int)),
        decreases j,
    {
        assert(v@.take(j as int).drop_last() =~= v@.take(j - 1));
        j -= 1;
    }
    if j == 0 {
        assert(v@.take(0) =~= Seq::<char>::empty());
        None
    } else {
        Some(j - 1)
    }
}

/// The characters of `v` from position `from` to the end.
pub fn chars_skip(v: &Vec<char>, from: usize) -> (r: Vec<char>)
    requires
        from <= v.len(),
    ensures
        r@ == v@.skip(from as int),
{
    let mut out: Vec<char> = Vec::new();
    let mut i = from;
    while i < v.len()
        invariant
            from <= i <= v.len(),
            out@ == v@.subrange(from as int, i as int),
        decreases v.len() - i,
    {
        out.push(v[i]);
        assert(v@.subrange(from as int, i + 1) =~= v@.subrange(from as int, i as int).push(v@[i as int]));
        i += 1;
    }
    assert(v@.subrange(from as int, v.len() as int) =~= v@.skip(from as int));
    out
}

/// The first `n` characters of `v`.
pub fn chars_take(v: &Vec<char>, n: usize) -> (r: Vec<char>)
    requires
        n <= v.len(),
    ensures
        r@ == v@.take(n as int),
{
    let mut out: Vec<char> = Vec::new();
    let mut i: usize = 0;
    while i < n
        invariant
            n <= v.len(),
            i <= n,
            out@ == v@.take(i as int),
        decreases n - i,
    {
        out.push(v[i]);
        assert(v@.take(i + 1) =~= v@.take(i as int).push(v@[i as int]));
        i += 1;
    }
    out
}

/// The file stem of `p` (`Path::file_stem`).
pub fn file_stem_of(p: &Vec<char>) -> (r: Option<Vec<char>>)
    ensures
        r matches Some(n) ==> spec_file_stem(p@) == Some(n@),
        r is None ==> spec_file_stem(p@) is None,
{
    match file_name_of(p) {
        None => None,
        Some(n) => match find_last_dot(&n) {
            Some(i) => if i == 0 { Some(n) } else { Some(chars_take(&n, i)) },
            None => Some(n),
        },
    }
}

/// The extension of `p` (`Path::extension`).
pub fn extension_of(p: &Vec<char>) -> (r: Option<Vec<char>>)
    ensures
        r matches Some(n) ==> spec_extension(p@) == Some(n@),
        r is None ==> spec_extension(p@) is None,
{
    match file_name_of(p) {
        None => None,
        Some(n) => match find_last_dot(&n) {
            Some(i) => if i == 0 { None } else { Some(chars_skip(&n, i + 1)) },
            None => None,
        },
    }
}

/// `Path::join` on Unix (see `spec_join`).
pub fn join_path(dir: &str, name: &str) -> (r: String)
    ensures
        r@ == spec_join(dir@, name@),
{
    let d = chars_of(dir);
    let n = chars_of(name);
    if n.len() > 0 && n[0] == '/' {
        String::from_str(name)
    } else if d.len() > 0 && d[d.len() - 1] != '/' {
        let with_sep = concat_str(dir, "/");
        proof {
            reveal_strlit("/");
        }
        assert(with_sep@ =~= dir@ + seq!['/']);
        with_sep.concat(name)
    } else {
        concat_str(dir, name)
    }
}

} // verus!
