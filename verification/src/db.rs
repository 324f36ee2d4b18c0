//! Library database handle and the computations around its statements: which
//! migration files apply and in what order, which files went missing, and the
//! clean-up cut-off.

use vstd::prelude::*;
use crate::paths::{chars_skip, extension_of, spec_extension};
use crate::text::{
    chars_equal_str, chars_of, parse_in_range, parse_integer_text, string_from_chars,
    trim_start_class, CharClass,
};

verus! {

/// A handle on the SQLite library database at a path.
#[derive(Debug, Clone)]
pub struct Db {
    path: String,
}

impl Db {
    /// The database file path.
    pub closed spec fn spec_path(&self) -> Seq<char> {
        self.path@
    }

    /// A handle on the database file at `db_path`.
    pub fn new(db_path: &str) -> (r: Db)
        ensures
            r.spec_path() == db_path@,
    {
        Db { path: String::from_str(db_path) }
    }

    /// The database file path.
    pub fn path(&self) -> (r: &str)
        ensures
            r@ == self.spec_path(),
    {
        self.path.as_str()
    }
}

/// `a` comes before `b` in the order of their characters (the byte order of
/// their UTF-8 text, which is how file paths sort).
pub open spec fn lex_lt(a: Seq<char>, b: Seq<char>) -> bool
    decreases a.len(),
{
    if a.len() == 0 {
        b.len() > 0
    } else if b.len() == 0 {
        false
    } else if a[0] != b[0] {
        a[0] < b[0]
    } else {
        lex_lt(a.drop_first(), b.drop_first())
    }
}

/// `a` does not come after `b`.
pub open spec fn lex_le(a: Seq<char>, b: Seq<char>) -> bool {
    a == b || lex_lt(a, b)
}

/// Any two texts are ordered one way or the other.
pub proof fn lemma_lex_total(a: Seq<char>, b: Seq<char>)
    ensures
        lex_lt(a, b) || a == b || lex_lt(b, a),
    decreases a.len(),
{
    if a.len() > 0 && b.len() > 0 && a[0] == b[0] {
        lemma_lex_total(a.drop_first(), b.drop_first());
        if a.drop_first() == b.drop_first() {
            assert(a =~= seq![a[0]] + a.drop_first());
            assert(b =~= seq![b[0]] + b.drop_first());
        }
    } else if a.len() == 0 && b.len() == 0 {
        assert(a =~= b);
    }
}

/// The order is transitive.
pub proof fn lemma_lex_trans(a: Seq<char>, b: Seq<char>, c: Seq<char>)
    requires
        lex_lt(a, b),
        lex_lt(b, c),
    ensures
        lex_lt(a, c),
    decreases a.len(),
{
    if a.len() > 0 && b.len() > 0 && c.len() > 0 && a[0] == b[0] && b[0] == c[0] {
        lemma_lex_trans(a.drop_first(), b.drop_first(), c.drop_first());
    }
}

/// No text comes before itself.
pub proof fn lemma_lex_irreflexive(a: Seq<char>)
    ensures
        !lex_lt(a, a),
    decreases a.len(),
{
    if a.len() > 0 {
        lemma_lex_irreflexive(a.drop_first());
    }
}

/// Texts are sorted when no one comes after a later one.
pub open spec fn sorted_texts(s: Seq<Seq<char>>) -> bool {
    forall|i: int, j: int| 0 <= i < j < s.len() ==> lex_le(#[trigger] s[i], #[trigger] s[j])
}

proof fn lemma_lex_common_prefix(a: Seq<char>, b: Seq<char>, i: int)
    requires
        0 <= i <= a.len(),
        i <= b.len(),
        a.take(i) == b.take(i),
    ensures
        lex_lt(a, b) == lex_lt(a.skip(i), b.skip(i)),
    decreases i,
{
    if i > 0 {
        assert(a[0] == a.take(i)[0]);
        assert(b[0] == b.take(i)[0]);
        assert(a.drop_first().take(i - 1) =~= a.take(i).drop_first());
        assert(b.drop_first().take(i - 1) =~= b.take(i).drop_first());
        lemma_lex_common_prefix(a.drop_first(), b.drop_first(), i - 1);
        assert(a.drop_first().skip(i - 1) =~= a.skip(i));
        assert(b.drop_first().skip(i - 1) =~= b.skip(i));
    } else {
        assert(a.skip(0) =~= a);
        assert(b.skip(0) =~= b);
    }
}

/// Whether `a` does not come after `b`.
fn lex_le_chars(a: &Vec<char>, b: &Vec<char>) -> (r: bool)
    ensures
        r == lex_le(a@, b@),
{
    let mut i: usize = 0;
    while i < a.len() && i < b.len() && a[i] == b[i]
        invariant
            i <= a@.len(),
            i <= b@.len(),
            a@.take(i as int) == b@.take(i as int),
        decreases a.len() - i,
    {
        assert(a@.take(i + 1) =~= a@.take(i as int).push(a@[i as int]));
        assert(b@.take(i + 1) =~= b@.take(i as int).push(b@[i as int]));
        i += 1;
    }
    proof {
        lemma_lex_common_prefix(a@, b@, i as int);
    }
    if i == a.len() {
        proof {
            if i == b.len() {
                assert(a@ =~= a@.take(i as int));
                assert(b@ =~= b@.take(i as int));
            }
        }
        true
    } else if i == b.len() {
        proof {
            assert(a@.skip(i as int).len() > 0);
            if a@ == b@ {
                assert(a@.len() == b@.len());
            }
        }
        false
    } else {
        assert(a@.skip(i as int)[0] == a@[i as int]);
        assert(b@.skip(i as int)[0] == b@[i as int]);
        proof {
            if a@ == b@ {
                assert(a@[i as int] == b@[i as int]);
            }
        }
        a[i] < b[i]
    }
}

/// The texts of a list of strings.
pub open spec fn texts_of(v: Seq<String>) -> Seq<Seq<char>> {
    v.map_values(|s: String| s@)
}

/// A migration file: its extension is `sql`.
pub open spec fn is_migration_file(name: Seq<char>) -> bool {
    spec_extension(name) == Some("sql"@)
}

/// The migration files among `names`, in the same order.
pub open spec fn migration_files(names: Seq<Seq<char>>) -> Seq<Seq<char>>
    decreases names.len(),
{
    if names.len() == 0 {
        Seq::empty()
    } else {
        let rest = migration_files(names.drop_last());
        if is_migration_file(names.last()) {
            rest.push(names.last())
        } else {
            rest
        }
    }
}

/// The migration files of a directory listing, sorted by name as the migrations are
/// applied.
pub fn sorted_migration_files(names: &Vec<String>) -> (r: Vec<String>)
    ensures
        sorted_texts(texts_of(r@)),
        texts_of(r@).to_multiset() == migration_files(texts_of(names@)).to_multiset(),
{
    let mut out: Vec<String> = Vec::new();
    let mut i: usize = 0;
    proof {
        assert(texts_of(out@) =~= Seq::<Seq<char>>::empty());
        assert(texts_of(names@).take(0) =~= Seq::<Seq<char>>::empty());
        assert(migration_files(texts_of(names@).take(0)) =~= texts_of(out@));
    }
    while i < names.len()
        invariant
            i <= names@.len(),
            sorted_texts(texts_of(out@)),
            texts_of(out@).to_multiset() == migration_files(texts_of(names@).take(i as int)).to_multiset(),
        decreases names.len() - i,
    {
        proof {
            assert(texts_of(names@).take(i + 1).drop_last() =~= texts_of(names@).take(i as int));
        }
        let name = &names[i];
        let ext = extension_of(&chars_of(name.as_str()));
        let is_sql = match ext {
            Some(e) => chars_equal_str(&e, "sql"),
            None => false,
        };
        if is_sql {
            let x = chars_of(name.as_str());
            let mut p: usize = 0;
            while p < out.len() && !lex_le_chars(&x, &chars_of(out[p].as_str()))
                invariant
                    p <= out@.len(),
                    x@ == name@,
                    forall|q: int| 0 <= q < p ==> lex_lt(#[trigger] texts_of(out@)[q], x@),
                decreases out.len() - p,
            {
                proof {
                    lemma_lex_total(x@, out@[p as int]@);
                }
                p += 1;
            }
            let ghost before = texts_of(out@);
            out.insert(p, name.clone());
            proof {
                let after = texts_of(out@);
                assert(after =~= before.insert(p as int, x@));
                assert forall|a: int, b: int| 0 <= a < b < after.len() implies lex_le(#[trigger] after[a], #[trigger] after[b]) by {
                    if a < p && b == p {
                    } else if a == p && b > p {
                        if p < before.len() {
                            assert(lex_le(x@, before[p as int]));
                            if b - 1 > p {
                                assert(lex_le(before[p as int], before[b - 1]));
                                if lex_lt(x@, before[p as int]) && lex_lt(before[p as int], before[b - 1]) {
                                    lemma_lex_trans(x@, before[p as int], before[b - 1]);
                                }
                            }
                        }
                    } else if a < p && b > p {
                        assert(lex_le(before[a], before[b - 1]));
                    } else if a > p {
                        assert(lex_le(before[a - 1], before[b - 1]));
                    } else {
                        assert(lex_le(before[a], before[b]));
                    }
                }
                vstd::seq_lib::to_multiset_insert(before, p as int, x@);
                vstd::seq_lib::to_multiset_build(migration_files(texts_of(names@).take(i as int)), x@);
            }
        }
        i += 1;
    }
    assert(texts_of(names@).take(names.len() as int) =~= texts_of(names@));
    out
}


/// The text of `s` before the first `c` (all of it when there is none): what
/// `str::split(c).next()` gives.
pub open spec fn before_first(s: Seq<char>, c: char) -> Seq<char>
    decreases s.len(),
{
    if s.len() == 0 {
        s
    } else if s[0] == c {
        Seq::empty()
    } else {
        seq![s[0]] + before_first(s.drop_first(), c)
    }
}

proof fn lemma_before_first_prefix(s: Seq<char>, c: char, i: int)
    requires
        0 <= i <= s.len(),
        forall|j: int| 0 <= j < i ==> s[j] != c,
    ensures
        before_first(s, c) == s.take(i) + before_first(s.skip(i), c),
    decreases i,
{
    if i > 0 {
        lemma_before_first_prefix(s.drop_first(), c, i - 1);
        assert(s.drop_first().take(i - 1) =~= s.take(i).drop_first());
        assert(s.drop_first().skip(i - 1) =~= s.skip(i));
        assert(s.take(i) =~= seq![s[0]] + s.take(i).drop_first());
    } else {
        assert(s.skip(0) =~= s);
    }
}

proof fn lemma_trim_zeros_prefix(s: Seq<char>, i: int)
    requires
        0 <= i <= s.len(),
        forall|j: int| 0 <= j < i ==> s[j] == '0',
    ensures
        trim_start_class(s, CharClass::Zero) == trim_start_class(s.skip(i), CharClass::Zero),
    decreases i,
{
    if i > 0 {
        lemma_trim_zeros_prefix(s.drop_first(), i - 1);
        assert(s.drop_first().skip(i - 1) =~= s.skip(i));
    } else {
        assert(s.skip(0) =~= s);
    }
}

/// The version of a migration file: the text before the first `_`, without its
/// leading zeros, read as an `i64`; 0 when that fails (`001_init.sql` is 1,
/// `000_x.sql` is 0).
pub open spec fn migration_version(name: Seq<char>) -> i64 {
    match parse_in_range(
        trim_start_class(before_first(name, '_'), CharClass::Zero),
        true,
        i64::MIN as int,
        i64::MAX as int,
    ) {
        Some(v) => v as i64,
        None => 0,
    }
}

/// Computes `migration_version(name)`.
pub fn migration_version_of(name: &str) -> (r: i64)
    ensures
        r == migration_version(name@),
{
    let v = chars_of(name);
    let mut i: usize = 0;
    while i < v.len() && v[i] != '_'
        invariant
            i <= v@.len(),
            forall|j: int| 0 <= j < i ==> v@[j] != '_',
        decreases v.len() - i,
    {
        i += 1;
    }
    proof {
        lemma_before_first_prefix(v@, '_', i as int);
        if i < v.len() {
            assert(v@.skip(i as int)[0] == '_');
        }
        assert(before_first(v@, '_') =~= v@.take(i as int));
    }
    let piece = crate::paths::chars_take(&v, i);
    let mut z: usize = 0;
    while z < piece.len() && piece[z] == '0'
        invariant
            z <= piece@.len(),
            forall|j: int| 0 <= j < z ==> piece@[j] == '0',
        decreases piece.len() - z,
    {
        z += 1;
    }
    proof {
        lemma_trim_zeros_prefix(piece@, z as int);
        if z < piece.len() {
            assert(piece@.skip(z as int)[0] != '0');
        }
        assert(trim_start_class(piece@.skip(z as int), CharClass::Zero) == piece@.skip(z as int));
    }
    let digits = string_from_chars(&chars_skip(&piece, z));
    match parse_integer_text(digits.as_str(), true, -0x8000_0000_0000_0000, 0x7FFF_FFFF_FFFF_FFFF) {
        Some(x) => x as i64,
        None => 0,
    }
}

/// Whether one of the planned migrations has version `v`.
pub open spec fn plan_has_version(p: Seq<(Seq<char>, i64)>, v: i64) -> bool {
    exists|i: int| 0 <= i < p.len() && (#[trigger] p[i]).1 == v
}

/// The migrations to apply from the sorted migration files: each file whose
/// version is neither applied already nor taken by an earlier file, in order.
pub open spec fn migration_plan(files: Seq<Seq<char>>, applied: Set<i64>) -> Seq<(Seq<char>, i64)>
    decreases files.len(),
{
    if files.len() == 0 {
        Seq::empty()
    } else {
        let prev = migration_plan(files.drop_last(), applied);
        let v = migration_version(files.last());
        if applied.contains(v) || plan_has_version(prev, v) {
            prev
        } else {
            prev.push((files.last(), v))
        }
    }
}

/// The planned migrations as texts and versions.
pub open spec fn plan_view(p: Seq<(String, i64)>) -> Seq<(Seq<char>, i64)> {
    p.map_values(|x: (String, i64)| (x.0@, x.1))
}

/// The migrations to apply, with their versions (see `migration_plan`), from the
/// sorted migration files and the versions already applied.
pub fn pending_migrations(files: &Vec<String>, applied: &Vec<i64>) -> (r: Vec<(String, i64)>)
    ensures
        plan_view(r@) == migration_plan(texts_of(files@), applied@.to_set()),
{
    let mut out: Vec<(String, i64)> = Vec::new();
    let mut i: usize = 0;
    proof {
        assert(texts_of(files@).take(0) =~= Seq::<Seq<char>>::empty());
        assert(plan_view(out@) =~= Seq::<(Seq<char>, i64)>::empty());
    }
    while i < files.len()
        invariant
            i <= files@.len(),
            plan_view(out@) == migration_plan(texts_of(files@).take(i as int), applied@.to_set()),
        decreases files.len() - i,
    {
        let ghost prev = plan_view(out@);
        proof {
            assert(texts_of(files@).take(i + 1).drop_last() =~= texts_of(files@).take(i as int));
            assert(texts_of(files@).take(i + 1).last() == files@[i as int]@);
        }
        let v = migration_version_of(files[i].as_str());
        let mut taken = false;
        let mut a: usize = 0;
        while a < applied.len()
            invariant
                a <= applied@.len(),
                taken == exists|j: int| 0 <= j < a && applied@[j] == v,
            decreases applied.len() - a,
        {
            if applied[a] == v {
                taken = true;
            }
            a += 1;
        }
        let mut b: usize = 0;
        while b < out.len()
            invariant
                b <= out@.len(),
                out@.len() == prev.len(),
                plan_view(out@) == prev,
                taken == ((exists|j: int| 0 <= j < applied@.len() && applied@[j] == v)
                    || exists|j: int| 0 <= j < b && (#[trigger] prev[j]).1 == v),
            decreases out.len() - b,
        {
            if out[b].1 == v {
                assert(prev[b as int].1 == v);
                taken = true;
            }
            b += 1;
        }
        proof {
            if applied@.to_set().contains(v) {
                let j = choose|j: int| 0 <= j < applied@.len() && applied@[j] == v;
            }
            assert(applied@.to_set().contains(v) == exists|j: int| 0 <= j < applied@.len() && applied@[j] == v);
        }
        proof {
            let fi = texts_of(files@).take(i + 1);
            assert(fi.drop_last() =~= texts_of(files@).take(i as int));
            assert(fi.last() == files@[i as int]@);
            assert(migration_version(fi.last()) == v);
            assert(plan_has_version(prev, v) == exists|j: int| 0 <= j < prev.len() && (#[trigger] prev[j]).1 == v);
            assert(b == prev.len());
            assert(taken == ((exists|j: int| 0 <= j < applied@.len() && applied@[j] == v)
                || exists|j: int| 0 <= j < prev.len() && (#[trigger] prev[j]).1 == v));
            assert(taken == (applied@.to_set().contains(v) || plan_has_version(prev, v)));
        }
        if !taken {
            let ghost before = out@;
            out.push((files[i].clone(), v));
            proof {
                assert(plan_view(out@) =~= plan_view(before).push((files@[i as int]@, v)));
            }
        }
        i += 1;
    }
    assert(texts_of(files@).take(files.len() as int) =~= texts_of(files@));
    out
}

/// A plan applies each version at most once, and none that was applied before.
pub proof fn law_plan_versions_fresh(files: Seq<Seq<char>>, applied: Set<i64>)
    ensures
        forall|i: int| 0 <= i < migration_plan(files, applied).len() ==> !applied.contains(
            (#[trigger] migration_plan(files, applied)[i]).1,
        ),
        forall|i: int, j: int|
            0 <= i < j < migration_plan(files, applied).len() ==> (#[trigger] migration_plan(files, applied)[i]).1
                != (#[trigger] migration_plan(files, applied)[j]).1,
    decreases files.len(),
{
    if files.len() > 0 {
        law_plan_versions_fresh(files.drop_last(), applied);
        let prev = migration_plan(files.drop_last(), applied);
        let v = migration_version(files.last());
        if !(applied.contains(v) || plan_has_version(prev, v)) {
            let p = migration_plan(files, applied);
            assert(p == prev.push((files.last(), v)));
            assert forall|i: int, j: int| 0 <= i < j < p.len() implies #[trigger] p[i].1 != #[trigger] p[j].1 by {
                if j == p.len() - 1 {
                    assert(p[i] == prev[i]);
                    if p[i].1 == v {
                        assert(plan_has_version(prev, v));
                    }
                } else {
                    assert(p[i] == prev[i] && p[j] == prev[j]);
                }
            }
            assert forall|i: int| 0 <= i < p.len() implies !applied.contains(#[trigger] p[i].1) by {
                if i < p.len() - 1 {
                    assert(p[i] == prev[i]);
                }
            }
        }
    }
}

/// The files of `active` (in order) that are not among `seen`: the items that went
/// missing from a source.
pub open spec fn missing_paths(active: Seq<Seq<char>>, seen: Seq<Seq<char>>) -> Seq<Seq<char>>
    decreases active.len(),
{
    if active.len() == 0 {
        Seq::empty()
    } else {
        let rest = missing_paths(active.drop_last(), seen);
        if seen.contains(active.last()) {
            rest
        } else {
            rest.push(active.last())
        }
    }
}

/// The active paths of a source that the last scan did not see (see `missing_paths`).
pub fn missing_for_source(active: &Vec<String>, seen: &Vec<String>) -> (r: Vec<String>)
    ensures
        texts_of(r@) == missing_paths(texts_of(active@), texts_of(seen@)),
{
    let mut out: Vec<String> = Vec::new();
    let mut i: usize = 0;
    proof {
        assert(texts_of(active@).take(0) =~= Seq::<Seq<char>>::empty());
        assert(texts_of(out@) =~= Seq::<Seq<char>>::empty());
    }
    while i < active.len()
        invariant
            i <= active@.len(),
            texts_of(out@) == missing_paths(texts_of(active@).take(i as int), texts_of(seen@)),
        decreases active.len() - i,
    {
        proof {
            assert(texts_of(active@).take(i + 1).drop_last() =~= texts_of(active@).take(i as int));
            assert(texts_of(active@).take(i + 1).last() == active@[i as int]@);
        }
        let p = chars_of(active[i].as_str());
        let mut found = false;
        let mut j: usize = 0;
        while j < seen.len()
            invariant
                j <= seen@.len(),
                p@ == active@[i as int]@,
                found == exists|k: int| 0 <= k < j && texts_of(seen@)[k] == p@,
            decreases seen.len() - j,
        {
            assert(texts_of(seen@)[j as int] == seen@[j as int]@);
            if crate::text::chars_equal(&chars_of(seen[j].as_str()), &p) {
                found = true;
            }
            j += 1;
        }
        proof {
            if texts_of(seen@).contains(p@) {
                let k = choose|k: int| 0 <= k < texts_of(seen@).len() && texts_of(seen@)[k] == p@;
                assert(found);
            }
        }
        if !found {
            let ghost before = texts_of(out@);
            out.push(active[i].clone());
            assert(texts_of(out@) =~= before.push(p@));
        }
        i += 1;
    }
    assert(texts_of(active@).take(active.len() as int) =~= texts_of(active@));
    out
}

/// Seconds in a day.
pub const SECS_PER_DAY: i64 = 86400;

/// The time before which missing items are deleted: `days` days before `now`.
pub fn cleanup_cutoff(now: i64, days: i64) -> (r: i64)
    requires
        i64::MIN <= days * 86400 <= i64::MAX,
        i64::MIN <= now - days * 86400 <= i64::MAX,
    ensures
        r == now - days * 86400,
{
    now - days * 24 * 60 * 60
}


/// The versions a plan applies.
pub open spec fn plan_versions(p: Seq<(Seq<char>, i64)>) -> Set<i64> {
    Set::new(|v: i64| plan_has_version(p, v))
}

/// Every file's version is applied already or planned.
proof fn lemma_plan_covers(files: Seq<Seq<char>>, applied: Set<i64>)
    ensures
        forall|k: int| 0 <= k < files.len() ==> applied.contains(migration_version(#[trigger] files[k]))
            || plan_has_version(migration_plan(files, applied), migration_version(files[k])),
    decreases files.len(),
{
    if files.len() > 0 {
        let init = files.drop_last();
        lemma_plan_covers(init, applied);
        let prev = migration_plan(init, applied);
        let p = migration_plan(files, applied);
        let v = migration_version(files.last());
        assert forall|w: i64| plan_has_version(prev, w) implies plan_has_version(p, w) by {
            let i = choose|i: int| 0 <= i < prev.len() && (#[trigger] prev[i]).1 == w;
            if !(applied.contains(v) || plan_has_version(prev, v)) {
                assert(p[i] == prev[i]);
            }
        }
        assert forall|k: int| 0 <= k < files.len() implies applied.contains(migration_version(#[trigger] files[k]))
            || plan_has_version(p, migration_version(files[k])) by {
            if k < files.len() - 1 {
                assert(files[k] == init[k]);
            } else if !(applied.contains(v) || plan_has_version(prev, v)) {
                assert(p[p.len() - 1].1 == v);
            }
        }
    }
}

/// With every file's version applied, the plan is empty.
proof fn lemma_plan_empty(files: Seq<Seq<char>>, applied: Set<i64>)
    requires
        forall|k: int| 0 <= k < files.len() ==> applied.contains(migration_version(#[trigger] files[k])),
    ensures
        migration_plan(files, applied).len() == 0,
    decreases files.len(),
{
    if files.len() > 0 {
        let init = files.drop_last();
        assert forall|k: int| 0 <= k < init.len() implies applied.contains(migration_version(#[trigger] init[k])) by {
            assert(init[k] == files[k]);
        }
        lemma_plan_empty(init, applied);
        assert(applied.contains(migration_version(files[files.len() - 1])));
    }
}

/// Migrating twice applies nothing the second time: once the versions of a plan are
/// recorded beside those applied before, the plan for the same files is empty.
pub proof fn law_second_plan_is_empty(files: Seq<Seq<char>>, applied: Set<i64>)
    ensures
        migration_plan(files, applied.union(plan_versions(migration_plan(files, applied)))).len() == 0,
{
    let p = migration_plan(files, applied);
    let all = applied.union(plan_versions(p));
    lemma_plan_covers(files, applied);
    assert forall|k: int| 0 <= k < files.len() implies all.contains(migration_version(#[trigger] files[k])) by {
        if !applied.contains(migration_version(files[k])) {
            assert(plan_versions(p).contains(migration_version(files[k])));
        }
    }
    lemma_plan_empty(files, all);
}

} // verus!
