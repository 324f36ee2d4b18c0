//! Character and string helpers shared by the rest of the library.

use vstd::prelude::*;
use crate::scan::ascii_lowercase;

verus! {

/// Unicode `White_Space` property, the definition `char::is_whitespace` uses.
pub open spec fn spec_is_whitespace(c: char) -> bool {
    let u = c as u32;
    ||| (0x09 <= u && u <= 0x0D)
    ||| u == 0x20
    ||| u == 0x85
    ||| u == 0xA0
    ||| u == 0x1680
    ||| (0x2000 <= u && u <= 0x200A)
    ||| u == 0x2028
    ||| u == 0x2029
    ||| u == 0x202F
    ||| u == 0x205F
    ||| u == 0x3000
}

/// Whitespace test with the meaning of `char::is_whitespace`.
pub fn is_whitespace(c: char) -> (r: bool)
    ensures
        r == spec_is_whitespace(c),
{
    let u = c as u32;
    (0x09 <= u && u <= 0x0D) || u == 0x20 || u == 0x85 || u == 0xA0 || u == 0x1680 || (0x2000
        <= u && u <= 0x200A) || u == 0x2028 || u == 0x2029 || u == 0x202F || u == 0x205F || u
        == 0x3000
}

/// `c` is an ASCII character.
pub open spec fn is_ascii_char(c: char) -> bool {
    (c as u32) < 128
}

/// Every character of `s` is ASCII.
pub open spec fn all_ascii(s: Seq<char>) -> bool {
    forall|i: int| 0 <= i < s.len() ==> is_ascii_char(#[trigger] s[i])
}

/// `c` is an ASCII letter or digit.
pub open spec fn ascii_alnum(c: char) -> bool {
    ('a' <= c && c <= 'z') || ('A' <= c && c <= 'Z') || ('0' <= c && c <= '9')
}

/// `c` with an ASCII lowercase letter made uppercase (`char::to_ascii_uppercase`).
pub open spec fn ascii_upper_char(c: char) -> char {
    if 'a' <= c && c <= 'z' {
        ((c as u32) - 32) as char
    } else {
        c
    }
}

/// `s` with its ASCII letters made uppercase (`str::to_ascii_uppercase`).
pub open spec fn ascii_uppercase(s: Seq<char>) -> Seq<char> {
    s.map_values(|c: char| ascii_upper_char(c))
}

/// Uppercasing keeps ASCII text ASCII.
pub proof fn lemma_ascii_uppercase_ascii(s: Seq<char>)
    requires
        all_ascii(s),
    ensures
        all_ascii(ascii_uppercase(s)),
{
    assert forall|i: int| 0 <= i < ascii_uppercase(s).len() implies is_ascii_char(#[trigger] ascii_uppercase(s)[i]) by {
        assert(is_ascii_char(s[i]));
    }
}

/// Lowercasing ASCII text keeps it ASCII.
pub proof fn lemma_ascii_lowercase_ascii(s: Seq<char>)
    requires
        all_ascii(s),
    ensures
        all_ascii(ascii_lowercase(s)),
        ascii_lowercase(s).len() == s.len(),
    decreases s.len(),
{
    if s.len() > 0 {
        assert(is_ascii_char(s[s.len() - 1]));
        lemma_ascii_lowercase_ascii(s.drop_last());
        let r = ascii_lowercase(s);
        assert forall|i: int| 0 <= i < r.len() implies is_ascii_char(#[trigger] r[i]) by {
            if i < r.len() - 1 {
                assert(r[i] == ascii_lowercase(s.drop_last())[i]);
            }
        }
    }
}

/// Lowercasing after uppercasing is lowercasing.
pub proof fn lemma_ascii_lower_of_upper(s: Seq<char>)
    ensures
        ascii_lowercase(ascii_uppercase(s)) == ascii_lowercase(s),
    decreases s.len(),
{
    if s.len() > 0 {
        lemma_ascii_lower_of_upper(s.drop_last());
        assert(ascii_uppercase(s).drop_last() =~= ascii_uppercase(s.drop_last()));
        assert(ascii_uppercase(s).last() == ascii_upper_char(s.last()));
    }
}

/// Uppercasing changes no character's whitespace class.
proof fn lemma_upper_char_whitespace(c: char)
    ensures
        spec_is_whitespace(ascii_upper_char(c)) == spec_is_whitespace(c),
{
}

/// Trimming and uppercasing commute.
pub proof fn lemma_trim_of_upper(s: Seq<char>)
    ensures
        spec_trim(ascii_uppercase(s)) == ascii_uppercase(spec_trim(s)),
{
    lemma_trim_start_upper(s);
    lemma_trim_end_upper(trim_start_class(s, CharClass::Whitespace));
}

proof fn lemma_trim_start_upper(s: Seq<char>)
    ensures
        trim_start_class(ascii_uppercase(s), CharClass::Whitespace) == ascii_uppercase(
            trim_start_class(s, CharClass::Whitespace),
        ),
    decreases s.len(),
{
    if s.len() > 0 {
        lemma_upper_char_whitespace(s[0]);
        assert(ascii_uppercase(s)[0] == ascii_upper_char(s[0]));
        if class_has(CharClass::Whitespace, s[0]) {
            assert(ascii_uppercase(s).drop_first() =~= ascii_uppercase(s.drop_first()));
            lemma_trim_start_upper(s.drop_first());
        }
    }
}

proof fn lemma_trim_end_upper(s: Seq<char>)
    ensures
        trim_end_class(ascii_uppercase(s), CharClass::Whitespace) == ascii_uppercase(
            trim_end_class(s, CharClass::Whitespace),
        ),
    decreases s.len(),
{
    if s.len() > 0 {
        lemma_upper_char_whitespace(s.last());
        assert(ascii_uppercase(s).last() == ascii_upper_char(s.last()));
        if class_has(CharClass::Whitespace, s.last()) {
            assert(ascii_uppercase(s).drop_last() =~= ascii_uppercase(s.drop_last()));
            lemma_trim_end_upper(s.drop_last());
        }
    }
}

/// Trimming keeps ASCII text ASCII.
pub proof fn lemma_trim_ascii(s: Seq<char>, k: CharClass)
    requires
        all_ascii(s),
    ensures
        all_ascii(trim_class(s, k)),
{
    lemma_trim_start_ascii(s, k);
    lemma_trim_end_ascii(trim_start_class(s, k), k);
}

proof fn lemma_trim_start_ascii(s: Seq<char>, k: CharClass)
    requires
        all_ascii(s),
    ensures
        all_ascii(trim_start_class(s, k)),
    decreases s.len(),
{
    if s.len() > 0 && class_has(k, s[0]) {
        assert forall|i: int| 0 <= i < s.drop_first().len() implies is_ascii_char(#[trigger] s.drop_first()[i]) by {
            assert(is_ascii_char(s[i + 1]));
        }
        lemma_trim_start_ascii(s.drop_first(), k);
    }
}

proof fn lemma_trim_end_ascii(s: Seq<char>, k: CharClass)
    requires
        all_ascii(s),
    ensures
        all_ascii(trim_end_class(s, k)),
    decreases s.len(),
{
    if s.len() > 0 && class_has(k, s.last()) {
        assert forall|i: int| 0 <= i < s.drop_last().len() implies is_ascii_char(#[trigger] s.drop_last()[i]) by {
            assert(is_ascii_char(s[i]));
        }
        lemma_trim_end_ascii(s.drop_last(), k);
    }
}

/// What `char::is_alphanumeric` answers for a character (Unicode `Alphabetic` or `Numeric`).
pub uninterp spec fn char_alphanumeric(c: char) -> bool;

/// Calls `char::is_alphanumeric`; the result is the named Unicode predicate of `c`.
/// Among ASCII characters exactly the letters and digits are alphanumeric.
#[verifier::external_body]
pub fn is_alphanumeric(c: char) -> (r: bool)
    ensures
        r == char_alphanumeric(c),
        is_ascii_char(c) ==> (r <==> ascii_alnum(c)),
{
    c.is_alphanumeric()
}

/// What `str::to_lowercase` returns for a string (full Unicode lowercase mapping).
pub uninterp spec fn unicode_lowercase(s: Seq<char>) -> Seq<char>;

/// Calls `str::to_lowercase`; the result is the named Unicode lowercase mapping of `s`.
/// On ASCII text it lowercases exactly the letters `A`-`Z`, as `to_ascii_lowercase` does.
#[verifier::external_body]
pub fn to_lowercase(s: &str) -> (r: String)
    ensures
        r@ == unicode_lowercase(s@),
        all_ascii(s@) ==> r@ == ascii_lowercase(s@),
{
    s.to_lowercase()
}

/// Calls `String::push`: appends one character.
#[verifier::external_body]
pub fn push_char(s: &mut String, c: char)
    ensures
        final(s)@ == old(s)@.push(c),
{
    s.push(c)
}

/// The characters of `s`, in order.
pub fn chars_of(s: &str) -> (r: Vec<char>)
    ensures
        r@ == s@,
{
    let n = s.unicode_len();
    let mut v: Vec<char> = Vec::new();
    let mut i: usize = 0;
    while i < n
        invariant
            n == s@.len(),
            i <= n,
            v@ == s@.take(i as int),
        decreases n - i,
    {
        let c = s.get_char(i);
        v.push(c);
        assert(s@.take(i + 1) =~= s@.take(i as int).push(c));
        i += 1;
    }
    assert(s@.take(n as int) =~= s@);
    v
}

/// A string holding exactly the characters of `v`.
pub fn string_from_chars(v: &Vec<char>) -> (r: String)
    ensures
        r@ == v@,
{
    let mut s = String::new();
    let mut i: usize = 0;
    while i < v.len()
        invariant
            i <= v.len(),
            s@ == v@.take(i as int),
        decreases v.len() - i,
    {
        push_char(&mut s, v[i]);
        assert(v@.take(i + 1) =~= v@.take(i as int).push(v@[i as int]));
        i += 1;
    }
    assert(v@.take(v.len() as int) =~= v@);
    s
}


/// The character classes that the trimming and collapsing helpers work with.
#[derive(Clone, Copy, Debug, PartialEq, Eq)]
pub enum CharClass {
    /// `char::is_whitespace`.
    Whitespace,
    /// The single character `-`.
    Dash,
    /// `-` or the space character.
    DashOrSpace,
    /// The digit `0`.
    Zero,
}

/// Membership of `c` in class `k`.
pub open spec fn class_has(k: CharClass, c: char) -> bool {
    match k {
        CharClass::Whitespace => spec_is_whitespace(c),
        CharClass::Dash => c == '-',
        CharClass::DashOrSpace => c == '-' || c == ' ',
        CharClass::Zero => c == '0',
    }
}

/// Decides `class_has(k, c)`.
pub fn in_class(k: CharClass, c: char) -> (r: bool)
    ensures
        r == class_has(k, c),
{
    match k {
        CharClass::Whitespace => is_whitespace(c),
        CharClass::Dash => c == '-',
        CharClass::DashOrSpace => c == '-' || c == ' ',
        CharClass::Zero => c == '0',
    }
}

/// `s` without its leading characters of class `k`.
pub open spec fn trim_start_class(s: Seq<char>, k: CharClass) -> Seq<char>
    decreases s.len(),
{
    if s.len() > 0 && class_has(k, s[0]) {
        trim_start_class(s.drop_first(), k)
    } else {
        s
    }
}

/// `s` without its trailing characters of class `k`.
pub open spec fn trim_end_class(s: Seq<char>, k: CharClass) -> Seq<char>
    decreases s.len(),
{
    if s.len() > 0 && class_has(k, s.last()) {
        trim_end_class(s.drop_last(), k)
    } else {
        s
    }
}

/// `s` without leading and trailing characters of class `k` (what `str::trim_matches` gives).
pub open spec fn trim_class(s: Seq<char>, k: CharClass) -> Seq<char> {
    trim_end_class(trim_start_class(s, k), k)
}

/// `str::trim`: leading and trailing whitespace removed.
pub open spec fn spec_trim(s: Seq<char>) -> Seq<char> {
    trim_class(s, CharClass::Whitespace)
}

/// Removes the leading and trailing characters of class `k`.
pub fn trim_chars(v: &Vec<char>, k: CharClass) -> (r: Vec<char>)
    ensures
        r@ == trim_class(v@, k),
{
    let n = v.len();
    let mut i: usize = 0;
    assert(v@.skip(0) =~= v@);
    while i < n && in_class(k, v[i])
        invariant
            n == v@.len(),
            i <= n,
            trim_start_class(v@, k) == trim_start_class(v@.skip(i as int), k),
        decreases n - i,
    {
        assert(v@.skip(i as int).drop_first() =~= v@.skip(i + 1));
        i += 1;
    }
    assert(trim_start_class(v@, k) == v@.subrange(i as int, n as int)) by {
        assert(v@.skip(i as int) =~= v@.subrange(i as int, n as int));
    }
    let mut j: usize = n;
    while j > i && in_class(k, v[j - 1])
        invariant
            n == v@.len(),
            i <= j <= n,
            trim_start_class(v@, k) == v@.subrange(i as int, n as int),
            trim_class(v@, k) == trim_end_class(v@.subrange(i as int, j as int), k),
        decreases j,
    {
        assert(v@.subrange(i as int, j as int).drop_last() =~= v@.subrange(i as int, j - 1));
        j -= 1;
    }
    let mut out: Vec<char> = Vec::new();
    let mut t: usize = i;
    while t < j
        invariant
            i <= t <= j <= n,
            n == v@.len(),
            out@ == v@.subrange(i as int, t as int),
        decreases j - t,
    {
        out.push(v[t]);
        assert(v@.subrange(i as int, t + 1) =~= v@.subrange(i as int, t as int).push(v@[t as int]));
        t += 1;
    }
    out
}

/// Splits `s` on runs of class-`k` characters, drops empty pieces and joins the
/// pieces with `sep`; `seen` says a piece was already emitted, `gap` that a separator
/// run follows it.
pub open spec fn collapse_from(s: Seq<char>, k: CharClass, sep: char, seen: bool, gap: bool) -> Seq<char>
    decreases s.len(),
{
    if s.len() == 0 {
        Seq::empty()
    } else if class_has(k, s[0]) {
        collapse_from(s.drop_first(), k, sep, seen, true)
    } else {
        (if seen && gap { seq![sep] } else { Seq::empty() }) + seq![s[0]] + collapse_from(
            s.drop_first(),
            k,
            sep,
            true,
            false,
        )
    }
}

/// The non-empty pieces of `s` between class-`k` characters, joined with `sep`
/// (`split_whitespace().join(" ")`, or `split('-').filter(non-empty).join("-")`).
pub open spec fn collapse(s: Seq<char>, k: CharClass, sep: char) -> Seq<char> {
    collapse_from(s, k, sep, false, false)
}

/// Every class-`k` character of `r` is a single `sep` with a character outside the
/// class on each side; the first is outside the class unless `seen`.
pub open spec fn separated(r: Seq<char>, k: CharClass, sep: char, seen: bool) -> bool {
    forall|i: int|
        0 <= i < r.len() && #[trigger] class_has(k, r[i]) ==> {
            &&& r[i] == sep
            &&& i + 1 < r.len()
            &&& !class_has(k, r[i + 1])
            &&& (i > 0 ==> !class_has(k, r[i - 1]))
            &&& (i == 0 ==> seen)
        }
}

/// `t` without its first character keeps the shape of `separated`, now with a
/// character before it.
proof fn lemma_separated_drop_first(t: Seq<char>, k: CharClass, sep: char, seen: bool)
    requires
        t.len() > 0,
        separated(t, k, sep, seen),
    ensures
        separated(t.drop_first(), k, sep, true),
{
    let u = t.drop_first();
    assert forall|i: int| 0 <= i < u.len() && #[trigger] class_has(k, u[i]) implies {
        &&& u[i] == sep
        &&& i + 1 < u.len()
        &&& !class_has(k, u[i + 1])
        &&& (i > 0 ==> !class_has(k, u[i - 1]))
        &&& (i == 0 ==> true)
    } by {
        assert(u[i] == t[i + 1]);
        assert(class_has(k, t[i + 1]));
        if i + 1 < u.len() {
            assert(u[i + 1] == t[i + 2]);
        }
        if i > 0 {
            assert(u[i - 1] == t[i]);
        }
    }
}

/// Collapsing a text that already has the collapsed shape, after a piece was
/// emitted, gives it back unchanged.
proof fn lemma_collapse_fixed(t: Seq<char>, k: CharClass, sep: char)
    requires
        class_has(k, sep),
        separated(t, k, sep, true),
    ensures
        collapse_from(t, k, sep, true, false) == t,
    decreases t.len(),
{
    if t.len() > 0 {
        if class_has(k, t[0]) {
            let u = t.drop_first();
            assert(t[0] == sep && 1 < t.len() && !class_has(k, t[1]));
            assert(u[0] == t[1]);
            lemma_separated_drop_first(t, k, sep, true);
            lemma_separated_drop_first(u, k, sep, true);
            lemma_collapse_fixed(u.drop_first(), k, sep);
            assert(collapse_from(t, k, sep, true, false) == collapse_from(u, k, sep, true, true));
            assert(seq![sep] + seq![u[0]] + u.drop_first() =~= t);
        } else {
            lemma_separated_drop_first(t, k, sep, true);
            lemma_collapse_fixed(t.drop_first(), k, sep);
            assert(seq![t[0]] + t.drop_first() =~= t);
            assert(Seq::<char>::empty() + seq![t[0]] + t.drop_first() =~= t);
        }
    }
}

/// Collapsing is idempotent: a text of the collapsed shape collapses to itself.
pub proof fn lemma_collapse_of_collapsed(r: Seq<char>, k: CharClass, sep: char)
    requires
        class_has(k, sep),
        separated(r, k, sep, false),
    ensures
        collapse(r, k, sep) == r,
{
    if r.len() > 0 {
        assert(!class_has(k, r[0]));
        lemma_separated_drop_first(r, k, sep, false);
        lemma_collapse_fixed(r.drop_first(), k, sep);
        assert(Seq::<char>::empty() + seq![r[0]] + r.drop_first() =~= r);
    }
}

/// `s` without its characters of class `k`.
pub open spec fn remove_class(s: Seq<char>, k: CharClass) -> Seq<char>
    decreases s.len(),
{
    if s.len() == 0 {
        Seq::empty()
    } else if class_has(k, s[0]) {
        remove_class(s.drop_first(), k)
    } else {
        seq![s[0]] + remove_class(s.drop_first(), k)
    }
}

/// Removing a class distributes over concatenation.
pub proof fn lemma_remove_class_concat(a: Seq<char>, b: Seq<char>, k: CharClass)
    ensures
        remove_class(a + b, k) == remove_class(a, k) + remove_class(b, k),
    decreases a.len(),
{
    if a.len() == 0 {
        assert(a + b =~= b);
        assert(Seq::<char>::empty() + remove_class(b, k) =~= remove_class(b, k));
    } else {
        assert((a + b).drop_first() =~= a.drop_first() + b);
        assert((a + b)[0] == a[0]);
        lemma_remove_class_concat(a.drop_first(), b, k);
        if !class_has(k, a[0]) {
            assert(seq![a[0]] + (remove_class(a.drop_first(), k) + remove_class(b, k)) =~= (seq![a[0]]
                + remove_class(a.drop_first(), k)) + remove_class(b, k));
        }
    }
}

/// Removing a class from a single character.
pub proof fn lemma_remove_class_one(c: char, k: CharClass)
    ensures
        remove_class(seq![c], k) == (if class_has(k, c) { Seq::<char>::empty() } else { seq![c] }),
{
    let d = seq![c].drop_first();
    assert(d.len() == 0);
    assert(remove_class(d, k) =~= Seq::<char>::empty());
    assert(seq![c][0] == c);
    assert(seq![c] + Seq::<char>::empty() =~= seq![c]);
}

/// Collapsing only drops and inserts characters of the class: with the class
/// removed, the collapsed text is the text.
pub proof fn lemma_remove_class_collapse(s: Seq<char>, k: CharClass, sep: char, seen: bool, gap: bool)
    requires
        class_has(k, sep),
    ensures
        remove_class(collapse_from(s, k, sep, seen, gap), k) == remove_class(s, k),
    decreases s.len(),
{
    if s.len() > 0 {
        if class_has(k, s[0]) {
            lemma_remove_class_collapse(s.drop_first(), k, sep, seen, true);
        } else {
            let pre: Seq<char> = if seen && gap { seq![sep] } else { Seq::empty() };
            let rest = collapse_from(s.drop_first(), k, sep, true, false);
            lemma_remove_class_collapse(s.drop_first(), k, sep, true, false);
            lemma_remove_class_concat(pre + seq![s[0]], rest, k);
            lemma_remove_class_concat(pre, seq![s[0]], k);
            lemma_remove_class_one(s[0], k);
            lemma_remove_class_one(sep, k);
            if !(seen && gap) {
                assert(remove_class(pre, k) == Seq::<char>::empty());
            }
            assert(Seq::<char>::empty() + seq![s[0]] =~= seq![s[0]]);
        }
    }
}

/// The shape of a collapsed text (see `separated`), and every character of it is
/// `sep` or one of the input's.
pub proof fn lemma_collapse_from_shape(s: Seq<char>, k: CharClass, sep: char, seen: bool, gap: bool)
    requires
        class_has(k, sep),
    ensures
        separated(collapse_from(s, k, sep, seen, gap), k, sep, seen),
        forall|i: int|
            0 <= i < collapse_from(s, k, sep, seen, gap).len() ==> (#[trigger] collapse_from(s, k, sep, seen, gap)[i] == sep
                || s.contains(collapse_from(s, k, sep, seen, gap)[i])),
    decreases s.len(),
{
    if s.len() == 0 {
    } else if class_has(k, s[0]) {
        lemma_collapse_from_shape(s.drop_first(), k, sep, seen, true);
        let r = collapse_from(s, k, sep, seen, gap);
        assert forall|i: int| 0 <= i < r.len() implies (#[trigger] r[i] == sep || s.contains(r[i])) by {
            if r[i] != sep {
                let j = choose|j: int| 0 <= j < s.drop_first().len() && s.drop_first()[j] == r[i];
                assert(s[j + 1] == r[i]);
            }
        }
    } else {
        let rest = collapse_from(s.drop_first(), k, sep, true, false);
        lemma_collapse_from_shape(s.drop_first(), k, sep, true, false);
        let pre: Seq<char> = if seen && gap { seq![sep] } else { Seq::empty() };
        let r = collapse_from(s, k, sep, seen, gap);
        assert(r == pre + seq![s[0]] + rest);
        let n = pre.len();
        assert forall|i: int| 0 <= i < r.len() && #[trigger] class_has(k, r[i]) implies {
            &&& r[i] == sep
            &&& i + 1 < r.len()
            &&& !class_has(k, r[i + 1])
            &&& (i > 0 ==> !class_has(k, r[i - 1]))
            &&& (i == 0 ==> seen)
        } by {
            if i < n {
                assert(r[i] == sep && r[i + 1] == s[0]);
            } else if i == n {
                assert(r[i] == s[0]);
            } else {
                assert(r[i] == rest[i - n - 1]);
                assert(class_has(k, rest[i - n - 1]));
                if i + 1 < r.len() {
                    assert(r[i + 1] == rest[i - n]);
                }
                if i - n - 1 > 0 {
                    assert(r[i - 1] == rest[i - n - 2]);
                } else {
                    assert(r[i - 1] == s[0]);
                }
            }
        }
        assert forall|i: int| 0 <= i < r.len() implies (#[trigger] r[i] == sep || s.contains(r[i])) by {
            if i < n {
            } else if i == n {
                assert(r[i] == s[0]);
                assert(s[0] == r[i]);
            } else {
                assert(r[i] == rest[i - n - 1]);
                if r[i] != sep {
                    let j = choose|j: int| 0 <= j < s.drop_first().len() && s.drop_first()[j] == r[i];
                    assert(s[j + 1] == r[i]);
                }
            }
        }
    }
}

/// Computes `collapse(v@, k, sep)`.
pub fn collapse_chars(v: &Vec<char>, k: CharClass, sep: char) -> (r: Vec<char>)
    ensures
        r@ == collapse(v@, k, sep),
{
    let n = v.len();
    let mut out: Vec<char> = Vec::new();
    let mut seen = false;
    let mut gap = false;
    let mut i: usize = 0;
    assert(v@.skip(0) =~= v@);
    while i < n
        invariant
            n == v@.len(),
            i <= n,
            out@ + collapse_from(v@.skip(i as int), k, sep, seen, gap) == collapse(v@, k, sep),
        decreases n - i,
    {
        let c = v[i];
        let ghost rest = v@.skip(i as int);
        assert(rest[0] == c);
        assert(rest.drop_first() =~= v@.skip(i + 1));
        if in_class(k, c) {
            gap = true;
        } else {
            let ghost before = out@;
            let ghost piece: Seq<char> = (if seen && gap { seq![sep] } else { Seq::empty() }) + seq![c];
            if seen && gap {
                out.push(sep);
            }
            out.push(c);
            assert(out@ =~= before + piece);
            assert(before + piece + collapse_from(v@.skip(i + 1), k, sep, true, false) =~= before
                + (piece + collapse_from(v@.skip(i + 1), k, sep, true, false)));
            seen = true;
            gap = false;
        }
        i += 1;
    }
    assert(v@.skip(n as int) =~= Seq::<char>::empty());
    out
}


/// `a` and `b` hold the same characters.
pub fn chars_equal(a: &Vec<char>, b: &Vec<char>) -> (r: bool)
    ensures
        r == (a@ == b@),
{
    if a.len() != b.len() {
        return false;
    }
    let mut i: usize = 0;
    while i < a.len()
        invariant
            a.len() == b.len(),
            i <= a.len(),
            forall|j: int| 0 <= j < i ==> a@[j] == b@[j],
        decreases a.len() - i,
    {
        if a[i] != b[i] {
            return false;
        }
        i += 1;
    }
    assert(a@ =~= b@);
    true
}

/// `v` holds exactly the characters of the literal `lit`.
pub fn chars_equal_str(v: &Vec<char>, lit: &str) -> (r: bool)
    ensures
        r == (v@ == lit@),
{
    let w = chars_of(lit);
    chars_equal(v, &w)
}

/// The string `a` followed by the string `b`.
pub fn concat_str(a: &str, b: &str) -> (r: String)
    ensures
        r@ == a@ + b@,
{
    let s = String::from_str(a);
    s.concat(b)
}


/// The decimal digit character for `d < 10`.
pub open spec fn digit_char(d: nat) -> char {
    ((48 + d) as u8) as char
}

/// The decimal representation of `n`, without leading zeros (`format!("{}", n)`).
pub open spec fn decimal(n: nat) -> Seq<char>
    decreases n,
{
    if n < 10 {
        seq![digit_char(n)]
    } else {
        decimal(n / 10).push(digit_char(n % 10))
    }
}

/// `format!("{:02}", n)`: the decimal representation padded with `0` to two characters.
pub open spec fn decimal_pad2(n: nat) -> Seq<char> {
    if n < 10 {
        seq!['0', digit_char(n)]
    } else {
        decimal(n)
    }
}

/// Appends the decimal representation of `n`.
pub fn push_decimal(out: &mut Vec<char>, n: u64)
    ensures
        final(out)@ == old(out)@ + decimal(n as nat),
    decreases n,
{
    if n >= 10 {
        push_decimal(out, n / 10);
    }
    let d = (n % 10) as u8;
    out.push((48u8 + d) as char);
    proof {
        if n >= 10 {
            assert(decimal(n as nat) == decimal((n / 10) as nat).push(digit_char((n % 10) as nat)));
        }
    }
    assert(final(out)@ =~= old(out)@ + decimal(n as nat));
}

/// Appends `format!("{:02}", n)`.
pub fn push_decimal_pad2(out: &mut Vec<char>, n: u64)
    ensures
        final(out)@ == old(out)@ + decimal_pad2(n as nat),
{
    if n < 10 {
        out.push('0');
        let d = n as u8;
        out.push((48u8 + d) as char);
        assert(final(out)@ =~= old(out)@ + decimal_pad2(n as nat));
    } else {
        push_decimal(out, n);
    }
}

/// Appends the characters of the literal `lit`.
pub fn push_str(out: &mut Vec<char>, lit: &str)
    ensures
        final(out)@ == old(out)@ + lit@,
{
    let w = chars_of(lit);
    let mut i: usize = 0;
    let ghost start = out@;
    while i < w.len()
        invariant
            i <= w.len(),
            w@ == lit@,
            out@ == start + w@.take(i as int),
        decreases w.len() - i,
    {
        out.push(w[i]);
        assert(w@.take(i + 1) =~= w@.take(i as int).push(w@[i as int]));
        i += 1;
    }
    assert(w@.take(w.len() as int) =~= w@);
}

/// Whether `v` equals one of the literals in `lits`.
pub fn equals_any(v: &Vec<char>, lits: &[&str]) -> (r: bool)
    ensures
        r == exists|i: int| 0 <= i < lits@.len() && v@ == (#[trigger] lits@[i])@,
{
    let mut i: usize = 0;
    while i < lits.len()
        invariant
            i <= lits@.len(),
            forall|j: int| 0 <= j < i ==> v@ != (#[trigger] lits@[j])@,
        decreases lits.len() - i,
    {
        if chars_equal_str(v, lits[i]) {
            return true;
        }
        i += 1;
    }
    false
}


/// The lowercase hexadecimal digit for `d < 16`.
pub open spec fn hex_digit_char(d: nat) -> char {
    if d < 10 {
        ((48 + d) as u8) as char
    } else {
        ((87 + d) as u8) as char
    }
}

/// The lowercase hexadecimal representation of `n` (`format!("{:x}", n)`).
pub open spec fn lower_hex(n: nat) -> Seq<char>
    decreases n,
{
    if n < 16 {
        seq![hex_digit_char(n)]
    } else {
        lower_hex(n / 16).push(hex_digit_char(n % 16))
    }
}

/// Appends the lowercase hexadecimal representation of `n`.
pub fn push_lower_hex(out: &mut Vec<char>, n: u64)
    ensures
        final(out)@ == old(out)@ + lower_hex(n as nat),
    decreases n,
{
    if n >= 16 {
        push_lower_hex(out, n / 16);
    }
    let d = (n % 16) as u8;
    if d < 10 {
        out.push((48u8 + d) as char);
    } else {
        out.push((87u8 + d) as char);
    }
    assert(final(out)@ =~= old(out)@ + lower_hex(n as nat));
}

/// Appends the characters of `w`.
pub fn push_chars(out: &mut Vec<char>, w: &Vec<char>)
    ensures
        final(out)@ == old(out)@ + w@,
{
    let mut i: usize = 0;
    let ghost start = out@;
    while i < w.len()
        invariant
            i <= w.len(),
            out@ == start + w@.take(i as int),
        decreases w.len() - i,
    {
        out.push(w[i]);
        assert(w@.take(i + 1) =~= w@.take(i as int).push(w@[i as int]));
        i += 1;
    }
    assert(w@.take(w.len() as int) =~= w@);
}


/// `t` occurs in `s` as a contiguous piece (`str::contains`).
pub open spec fn contains_sub(s: Seq<char>, t: Seq<char>) -> bool {
    exists|i: int| 0 <= i && i + t.len() <= s.len() && #[trigger] s.subrange(i, i + t.len()) == t
}

/// Whether `t` occurs in `s` at position `i`.
fn matches_at(s: &Vec<char>, t: &Vec<char>, i: usize) -> (r: bool)
    requires
        i + t@.len() <= s@.len(),
    ensures
        r == (s@.subrange(i as int, i + t@.len()) == t@),
{
    let mut j: usize = 0;
    while j < t.len()
        invariant
            i + t@.len() <= s@.len(),
            s@.len() == s.len(),
            t@.len() == t.len(),
            j <= t@.len(),
            forall|m: int| 0 <= m < j ==> s@[i + m] == t@[m],
        decreases t.len() - j,
    {
        if s[i + j] != t[j] {
            assert(s@.subrange(i as int, i + t@.len())[j as int] != t@[j as int]);
            return false;
        }
        j += 1;
    }
    assert(s@.subrange(i as int, i + t@.len()) =~= t@);
    true
}

/// Whether `s` begins with `t` (`str::starts_with`).
pub fn starts_with_chars(s: &Vec<char>, t: &Vec<char>) -> (r: bool)
    ensures
        r == (t@.len() <= s@.len() && s@.take(t@.len() as int) == t@),
{
    if t.len() > s.len() {
        return false;
    }
    let r = matches_at(s, t, 0);
    assert(s@.subrange(0, t@.len() as int) =~= s@.take(t@.len() as int));
    r
}

/// Decides `contains_sub(s@, t@)`.
pub fn contains_chars(s: &Vec<char>, t: &Vec<char>) -> (r: bool)
    ensures
        r == contains_sub(s@, t@),
{
    if t.len() > s.len() {
        return false;
    }
    let last = s.len() - t.len();
    let mut i: usize = 0;
    while i < last
        invariant
            last == s@.len() - t@.len(),
            t@.len() <= s@.len(),
            i <= last,
            forall|k: int| 0 <= k < i ==> #[trigger] s@.subrange(k, k + t@.len()) != t@,
        decreases last - i,
    {
        if matches_at(s, t, i) {
            return true;
        }
        i += 1;
    }
    if matches_at(s, t, last) {
        return true;
    }
    assert forall|k: int| 0 <= k && k + t@.len() <= s@.len() implies #[trigger] s@.subrange(
        k,
        k + t@.len(),
    ) != t@ by {
        assert(k <= last);
    }
    false
}


/// `c` is an ASCII decimal digit.
pub open spec fn is_digit(c: char) -> bool {
    '0' <= c && c <= '9'
}

/// Every character of `s` is an ASCII digit.
pub open spec fn all_digits(s: Seq<char>) -> bool {
    forall|i: int| 0 <= i < s.len() ==> is_digit(#[trigger] s[i])
}

/// The value of a string of decimal digits.
pub open spec fn digits_value(s: Seq<char>) -> nat
    decreases s.len(),
{
    if s.len() == 0 {
        0
    } else {
        digits_value(s.drop_last()) * 10 + ((s.last() as u32) - 48) as nat
    }
}

/// The integer that `str::parse` reads from `s` for an integer type: an optional
/// `+` (or `-` when `signed`), then at least one ASCII digit and nothing else. The
/// range of the type is checked by the caller.
pub open spec fn parse_integer(s: Seq<char>, signed: bool) -> Option<int> {
    let neg = signed && s.len() > 0 && s[0] == '-';
    let digits = if s.len() > 0 && (s[0] == '+' || neg) {
        s.drop_first()
    } else {
        s
    };
    if digits.len() == 0 || !all_digits(digits) {
        None
    } else if neg {
        Some(-(digits_value(digits) as int))
    } else {
        Some(digits_value(digits) as int)
    }
}

/// `str::parse` for an integer type with values `lo ..= hi`.
pub open spec fn parse_in_range(s: Seq<char>, signed: bool, lo: int, hi: int) -> Option<int> {
    match parse_integer(s, signed) {
        Some(v) => if lo <= v <= hi {
            Some(v)
        } else {
            None
        },
        None => None,
    }
}

/// Prefix values never exceed the value of the whole digit string.
pub proof fn lemma_digits_value_prefix(s: Seq<char>, i: int)
    requires
        0 <= i <= s.len(),
        all_digits(s),
    ensures
        digits_value(s.take(i)) <= digits_value(s),
    decreases s.len() - i,
{
    if i < s.len() {
        lemma_digits_value_prefix(s, i + 1);
        assert(s.take(i + 1).drop_last() =~= s.take(i));
    } else {
        assert(s.take(i) =~= s);
    }
}

/// Reading back the decimal text of `n` gives `n`.
pub proof fn lemma_decimal_reads_back(n: nat)
    ensures
        decimal(n).len() > 0,
        all_digits(decimal(n)),
        digits_value(decimal(n)) == n,
        parse_integer(decimal(n), false) == Some(n as int),
    decreases n,
{
    let d = digit_char(n % 10);
    assert((d as u32) - 48 == n % 10);
    if n < 10 {
        let s = decimal(n);
        assert(s.drop_last() =~= Seq::<char>::empty());
    } else {
        lemma_decimal_reads_back(n / 10);
        let s = decimal(n);
        assert(s.drop_last() =~= decimal(n / 10));
        assert forall|i: int| 0 <= i < s.len() implies is_digit(#[trigger] s[i]) by {
            if i < s.len() - 1 {
                assert(s[i] == decimal(n / 10)[i]);
            }
        }
    }
    let s = decimal(n);
    assert(s.last() == d);
    assert(n == (n / 10) * 10 + n % 10);
    assert(digits_value(s) == digits_value(s.drop_last()) * 10 + ((s.last() as u32) - 48) as nat);
    assert(is_digit(s[0]));
    assert(s[0] != '+');
}

/// Reads an integer as `str::parse` does for a type with values `lo ..= hi`.
pub fn parse_integer_text(s: &str, signed: bool, lo: i128, hi: i128) -> (r: Option<i128>)
    requires
        -0x8000_0000_0000_0000 <= lo <= 0 <= hi <= 0xFFFF_FFFF_FFFF_FFFF,
    ensures
        match r {
            Some(v) => parse_in_range(s@, signed, lo as int, hi as int) == Some(v as int),
            None => parse_in_range(s@, signed, lo as int, hi as int) is None,
        },
{
    let v = chars_of(s);
    let neg = signed && v.len() > 0 && v[0] == '-';
    let start: usize = if v.len() > 0 && (v[0] == '+' || neg) { 1 } else { 0 };
    let ghost digits = if v@.len() > 0 && (v@[0] == '+' || neg) { v@.drop_first() } else { v@ };
    assert(digits =~= v@.skip(start as int));
    assert(parse_integer(s@, signed) == (if digits.len() == 0 || !all_digits(digits) {
        None
    } else if neg {
        Some(-(digits_value(digits) as int))
    } else {
        Some(digits_value(digits) as int)
    }));
    if start >= v.len() {
        return None;
    }
    let bound: i128 = if neg { -lo } else { hi };
    let mut acc: i128 = 0;
    let mut i: usize = start;
    while i < v.len()
        invariant
            start <= i <= v@.len(),
            digits =~= v@.skip(start as int),
            0 <= bound <= 0xFFFF_FFFF_FFFF_FFFF,
            0 <= acc <= bound,
            all_digits(digits.take(i - start)),
            acc == digits_value(digits.take(i - start)),
            digits.len() > 0,
            bound == (if neg { -lo } else { hi as int }),
            -0x8000_0000_0000_0000 <= lo <= 0 <= hi <= 0xFFFF_FFFF_FFFF_FFFF,
            parse_integer(s@, signed) == (if !all_digits(digits) {
                None
            } else if neg {
                Some(-(digits_value(digits) as int))
            } else {
                Some(digits_value(digits) as int)
            }),
        decreases v.len() - i,
    {
        let c = v[i];
        if !('0' <= c && c <= '9') {
            proof {
                assert(digits[i - start] == c);
                assert(!is_digit(digits[i - start]));
                assert(!all_digits(digits));
                assert(parse_integer(s@, signed) is None);
            }
            return None;
        }
        let d = (c as u32 - 48) as i128;
        assert(digits.take(i + 1 - start).drop_last() =~= digits.take(i - start));
        acc = acc * 10 + d;
        i += 1;
        if acc > bound {
            proof {
                if all_digits(digits) {
                    lemma_digits_value_prefix(digits, i - start);
                    assert(digits_value(digits) > bound);
                    if neg {
                        assert(parse_integer(s@, signed) == Some(-(digits_value(digits) as int)));
                    } else {
                        assert(parse_integer(s@, signed) == Some(digits_value(digits) as int));
                    }
                }
            }
            return None;
        }
    }
    assert(digits.take(i - start) =~= digits);
    if neg {
        Some(-acc)
    } else {
        Some(acc)
    }
}

} // verus!
