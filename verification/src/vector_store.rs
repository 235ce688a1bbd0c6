//! Naming and request shaping for the per-character semantic memory index:
//! directory slugs, database paths, stored document rows and the checks a
//! search or an indexing run makes before it touches the store.

use vstd::prelude::*;

use crate::error::CharacterError;
use crate::memory::{MemoryEntry, MemoryKind, MemoryStream};
use crate::model::COHERE_EMBED_DIMS;
use crate::text::{owned, chars_of, decimal, is_whitespace, is_ws, push_decimal, push_str, trim, trim_str, is_blank, is_blank_str};

verus! {

/// Default root for the per-character databases.
pub const DEFAULT_LANCEDB_DIR: &'static str = "data/lancedb";

/// Table name inside each character database.
pub const MEMORY_TABLE_NAME: &'static str = "memory";

/// Slug used when a name has no usable character left.
pub const FALLBACK_SLUG: &'static str = "character";

/// One document row stored in the index.
#[derive(Debug, Clone, PartialEq, Eq)]
pub struct MemoryDoc {
    /// Same id as [`MemoryEntry::id`].
    pub id: String,
    /// Text that is embedded.
    pub text: String,
    /// Unix timestamp (seconds).
    pub ts: u64,
    /// Importance 1..=10.
    pub importance: u8,
    /// `seed` / `observation` / `reflection`.
    pub kind: String,
}

/// Stored name of a memory kind.
pub open spec fn kind_name(kind: MemoryKind) -> Seq<char> {
    match kind {
        MemoryKind::Seed => "seed"@,
        MemoryKind::Observation => "observation"@,
        MemoryKind::Reflection => "reflection"@,
    }
}

/// Stored name of a memory kind.
pub fn kind_str(kind: MemoryKind) -> (s: &'static str)
    ensures
        s@ == kind_name(kind),
{
    match kind {
        MemoryKind::Seed => "seed",
        MemoryKind::Observation => "observation",
        MemoryKind::Reflection => "reflection",
    }
}

/// The row a stream entry is stored as.
pub open spec fn doc_of(e: MemoryEntry, d: MemoryDoc) -> bool {
    &&& d.id@ == e.id@
    &&& d.text@ == e.text@
    &&& d.ts == e.ts
    &&& d.importance == e.importance
    &&& d.kind@ == kind_name(e.kind)
}

impl MemoryDoc {
    /// Build from a stream entry.
    pub fn from_entry(entry: &MemoryEntry) -> (d: Self)
        ensures
            doc_of(*entry, d),
    {
        MemoryDoc {
            id: entry.id.clone(),
            text: entry.text.clone(),
            ts: entry.ts,
            importance: entry.importance,
            kind: owned(kind_str(entry.kind)),
        }
    }
}


/// The rows of every entry of a stream, in order.
pub fn docs_of_stream(stream: &MemoryStream) -> (docs: Vec<MemoryDoc>)
    ensures
        docs@.len() == stream.entries@.len(),
        forall|i: int| 0 <= i < docs@.len() ==> doc_of(stream.entries@[i], #[trigger] docs@[i]),
{
    let mut docs: Vec<MemoryDoc> = Vec::new();
    let mut i: usize = 0;
    while i < stream.entries.len()
        invariant
            i <= stream.entries@.len(),
            docs@.len() == i,
            forall|j: int| 0 <= j < i ==> doc_of(stream.entries@[j], #[trigger] docs@[j]),
        decreases stream.entries@.len() - i,
    {
        docs.push(MemoryDoc::from_entry(&stream.entries[i]));
        i += 1;
    }
    docs
}

// ---------------------------------------------------------------------------
// Slugs and paths
// ---------------------------------------------------------------------------

/// ASCII letter or digit.
pub open spec fn is_ascii_alnum(c: char) -> bool {
    ('0' <= c && c <= '9') || ('a' <= c && c <= 'z') || ('A' <= c && c <= 'Z')
}

/// A character that cannot stand in a file name on common systems.
pub open spec fn is_path_char(c: char) -> bool {
    c == '/' || c == '\\' || c == ':' || c == '*' || c == '?' || c == '"' || c == '<' || c == '>'
        || c == '|'
}

/// What one character of a name becomes in its slug: ASCII letters and
/// digits, `-` and `_` stay; whitespace and path characters become `_`;
/// every other character (CJK and other letters) stays.
pub open spec fn slug_char(c: char) -> char {
    if is_ascii_alnum(c) || c == '-' || c == '_' {
        c
    } else if is_ws(c) {
        '_'
    } else if is_path_char(c) {
        '_'
    } else {
        c
    }
}

/// Every character of `s` mapped by [`slug_char`].
pub open spec fn slug_map(s: Seq<char>) -> Seq<char> {
    Seq::new(s.len(), |i: int| slug_char(s[i]))
}

/// `s` without leading `_` characters.
pub open spec fn trim_start_underscore(s: Seq<char>) -> Seq<char>
    decreases s.len(),
{
    if s.len() > 0 && s[0] == '_' {
        trim_start_underscore(s.drop_first())
    } else {
        s
    }
}

/// `s` without trailing `_` characters.
pub open spec fn trim_end_underscore(s: Seq<char>) -> Seq<char>
    decreases s.len(),
{
    if s.len() > 0 && s.last() == '_' {
        trim_end_underscore(s.drop_last())
    } else {
        s
    }
}

/// `str::trim_matches('_')`.
pub open spec fn trim_underscores(s: Seq<char>) -> Seq<char> {
    trim_end_underscore(trim_start_underscore(s))
}

/// `.` or `..`: a path component that names the current or the parent
/// directory rather than an entry of its own.
pub open spec fn is_dot_name(s: Seq<char>) -> bool {
    s == seq!['.'] || s == seq!['.', '.']
}

/// The filesystem-safe slug of a character name: the mapped name without
/// leading and trailing `_`, or [`FALLBACK_SLUG`] where that is empty or
/// would name the current or the parent directory.
pub open spec fn slug_of(name: Seq<char>) -> Seq<char> {
    let t = trim_underscores(slug_map(name));
    if t.len() == 0 || is_dot_name(t) {
        FALLBACK_SLUG@
    } else {
        t
    }
}

/// `dir.join(file)` for a relative `file`: a `/` goes between the two unless
/// `dir` is empty or already ends with one.
pub open spec fn path_join(dir: Seq<char>, file: Seq<char>) -> Seq<char> {
    if dir.len() == 0 {
        file
    } else if dir.last() == '/' {
        dir + file
    } else {
        dir + seq!['/'] + file
    }
}

fn slug_char_exec(c: char) -> (r: char)
    ensures
        r == slug_char(c),
{
    if ('0' <= c && c <= '9') || ('a' <= c && c <= 'z') || ('A' <= c && c <= 'Z') || c == '-'
        || c == '_' {
        c
    } else if is_whitespace(c) {
        '_'
    } else if c == '/' || c == '\\' || c == ':' || c == '*' || c == '?' || c == '"' || c == '<'
        || c == '>' || c == '|' {
        '_'
    } else {
        c
    }
}

proof fn lemma_trim_start_underscore(s: Seq<char>, i: int)
    requires
        0 <= i <= s.len(),
        forall|j: int| 0 <= j < i ==> s[j] == '_',
        i == s.len() || s[i] != '_',
    ensures
        trim_start_underscore(s) == s.subrange(i, s.len() as int),
    decreases i,
{
    if i > 0 {
        lemma_trim_start_underscore(s.drop_first(), i - 1);
        assert(s.drop_first().subrange(i - 1, s.drop_first().len() as int) =~= s.subrange(
            i,
            s.len() as int,
        ));
    } else {
        assert(s.subrange(0, s.len() as int) =~= s);
    }
}

proof fn lemma_trim_end_underscore(s: Seq<char>, k: int)
    requires
        0 <= k <= s.len(),
        forall|j: int| k <= j < s.len() ==> s[j] == '_',
        k == 0 || s[k - 1] != '_',
    ensures
        trim_end_underscore(s) == s.subrange(0, k),
    decreases s.len() - k,
{
    if k < s.len() {
        lemma_trim_end_underscore(s.drop_last(), k);
        assert(s.drop_last().subrange(0, k) =~= s.subrange(0, k));
    } else {
        assert(s.subrange(0, k) =~= s);
    }
}

/// `trim_underscores` is the slice between the first and the last
/// character that is not `_`.
proof fn lemma_trim_underscores(s: Seq<char>, lo: int, hi: int)
    requires
        0 <= lo <= hi <= s.len(),
        forall|j: int| 0 <= j < lo ==> s[j] == '_',
        forall|j: int| hi <= j < s.len() ==> s[j] == '_',
        lo == hi ==> lo == s.len(),
        lo < hi ==> s[lo] != '_' && s[hi - 1] != '_',
    ensures
        trim_underscores(s) == s.subrange(lo, hi),
{
    lemma_trim_start_underscore(s, lo);
    let t = s.subrange(lo, s.len() as int);
    if lo == hi {
        assert(t.len() == 0);
        lemma_trim_end_underscore(t, 0);
        assert(t.subrange(0, 0) =~= s.subrange(lo, hi));
    } else {
        lemma_trim_end_underscore(t, hi - lo);
        assert(t.subrange(0, hi - lo) =~= s.subrange(lo, hi));
    }
}

/// Sanitize a character name into a filesystem-safe directory / file stem.
pub fn character_slug(name: &str) -> (slug: String)
    ensures
        slug@ == slug_of(name@),
{
    let v = chars_of(name);
    let mut mapped: Vec<char> = Vec::new();
    let mut i: usize = 0;
    while i < v.len()
        invariant
            i <= v@.len(),
            v@ == name@,
            mapped@ =~= slug_map(v@.take(i as int)),
        decreases v@.len() - i,
    {
        mapped.push(slug_char_exec(v[i]));
        i += 1;
    }
    assert(v@.take(v@.len() as int) =~= v@);
    let n = mapped.len();
    let mut lo: usize = 0;
    while lo < n && mapped[lo] == '_'
        invariant
            lo <= n,
            n == mapped@.len(),
            forall|j: int| 0 <= j < lo ==> mapped@[j] == '_',
        decreases n - lo,
    {
        lo += 1;
    }
    let mut hi: usize = n;
    while hi > lo && mapped[hi - 1] == '_'
        invariant
            lo <= hi <= n,
            n == mapped@.len(),
            forall|j: int| hi <= j < n ==> mapped@[j] == '_',
        decreases hi,
    {
        hi -= 1;
    }
    proof {
        if lo == hi && lo < n {
            assert(mapped@[lo as int] == '_');
        }
        lemma_trim_underscores(mapped@, lo as int, hi as int);
    }
    let dots: bool = (hi - lo == 1 && mapped[lo] == '.') || (hi - lo == 2 && mapped[lo] == '.'
        && mapped[lo + 1] == '.');
    proof {
        let t = mapped@.subrange(lo as int, hi as int);
        if hi - lo == 1 && mapped@[lo as int] == '.' {
            assert(t =~= seq!['.']);
        }
        if hi - lo == 2 && mapped@[lo as int] == '.' && mapped@[lo + 1] == '.' {
            assert(t =~= seq!['.', '.']);
        }
        if t == seq!['.'] {
            assert(t.len() == 1);
            assert(t[0] == '.');
            assert(t[0] == mapped@[lo as int]);
        }
        if t == seq!['.', '.'] {
            assert(t.len() == 2);
            assert(t[0] == '.' && t[1] == '.');
            assert(t[0] == mapped@[lo as int] && t[1] == mapped@[lo + 1]);
        }
        assert(dots == is_dot_name(t));
    }
    if lo == hi || dots {
        return owned(FALLBACK_SLUG);
    }
    let mut s = String::new();
    crate::text::push_range(&mut s, mapped.as_slice(), lo, hi);
    s
}

proof fn lemma_trim_start_underscore_shape(s: Seq<char>)
    ensures
        trim_start_underscore(s).len() <= s.len(),
        trim_start_underscore(s) == s.subrange(
            s.len() - trim_start_underscore(s).len(),
            s.len() as int,
        ),
        trim_start_underscore(s).len() == 0 || trim_start_underscore(s)[0] != '_',
    decreases s.len(),
{
    if s.len() > 0 && s[0] == '_' {
        lemma_trim_start_underscore_shape(s.drop_first());
        let r = trim_start_underscore(s.drop_first());
        assert(s.drop_first().subrange(s.drop_first().len() - r.len(), s.drop_first().len() as int)
            =~= s.subrange(s.len() - r.len(), s.len() as int));
    } else {
        assert(s.subrange(0, s.len() as int) =~= s);
    }
}

proof fn lemma_trim_end_underscore_shape(s: Seq<char>)
    ensures
        trim_end_underscore(s).len() <= s.len(),
        trim_end_underscore(s) == s.subrange(0, trim_end_underscore(s).len() as int),
        trim_end_underscore(s).len() == 0 || trim_end_underscore(s).last() != '_',
    decreases s.len(),
{
    if s.len() > 0 && s.last() == '_' {
        lemma_trim_end_underscore_shape(s.drop_last());
        let r = trim_end_underscore(s.drop_last());
        assert(s.drop_last().subrange(0, r.len() as int) =~= s.subrange(0, r.len() as int));
    } else {
        assert(s.subrange(0, s.len() as int) =~= s);
    }
}

/// A slug is its own slug: passing either a name or the stem it was stored
/// under finds the same files.
pub proof fn lemma_slug_idempotent(name: Seq<char>)
    ensures
        slug_of(slug_of(name)) == slug_of(name),
{
    let m = slug_map(name);
    let a = trim_start_underscore(m);
    lemma_trim_start_underscore_shape(m);
    let t = trim_end_underscore(a);
    lemma_trim_end_underscore_shape(a);
    if t.len() == 0 || is_dot_name(t) {
        reveal_strlit("character");
        let f = FALLBACK_SLUG@;
        assert(slug_map(f) =~= f);
        lemma_trim_underscores(f, 0, f.len() as int);
        assert(f.subrange(0, f.len() as int) =~= f);
    } else {
        let off = m.len() - a.len();
        assert forall|i: int| 0 <= i < t.len() implies slug_char(t[i]) == t[i] by {
            assert(t[i] == a[i]);
            assert(a[i] == m[off + i]);
        }
        assert(slug_map(t) =~= t);
        assert(t[0] == a[0]);
        lemma_trim_underscores(t, 0, t.len() as int);
        assert(t.subrange(0, t.len() as int) =~= t);
    }
}

/// A slug is one ordinary path component: it is not empty, names neither
/// the current nor the parent directory, holds no whitespace and none of
/// the characters a file name cannot carry (`/ \\ : * ? " < > |`), and
/// neither starts nor ends with `_`. Joined to a directory it names an
/// entry inside that directory.
pub proof fn lemma_slug_is_component(name: Seq<char>)
    ensures
        slug_of(name).len() > 0,
        !is_dot_name(slug_of(name)),
        forall|i: int|
            0 <= i < slug_of(name).len() ==> !is_ws(#[trigger] slug_of(name)[i]) && !is_path_char(
                slug_of(name)[i],
            ),
        slug_of(name)[0] != '_',
        slug_of(name).last() != '_',
{
    let m = slug_map(name);
    let a = trim_start_underscore(m);
    lemma_trim_start_underscore_shape(m);
    let t = trim_end_underscore(a);
    lemma_trim_end_underscore_shape(a);
    if t.len() == 0 || is_dot_name(t) {
        reveal_strlit("character");
        let f = FALLBACK_SLUG@;
        assert(f.len() == 9);
        assert(seq!['.'].len() == 1);
        assert(seq!['.', '.'].len() == 2);
    } else {
        let off = m.len() - a.len();
        assert forall|i: int| 0 <= i < t.len() implies !is_ws(#[trigger] t[i]) && !is_path_char(
            t[i],
        ) by {
            assert(t[i] == a[i]);
            assert(a[i] == m[off + i]);
        }
        assert(t[0] == a[0]);
    }
}

/// A name made only of ASCII letters, digits, `-` and `_`, that neither
/// starts nor ends with `_`, is its own slug: no letter or digit is changed
/// or dropped.
pub proof fn lemma_plain_name_is_its_slug(name: Seq<char>)
    requires
        name.len() > 0,
        forall|i: int|
            0 <= i < name.len() ==> is_ascii_alnum(#[trigger] name[i]) || name[i] == '-' || name[i]
                == '_',
        name[0] != '_',
        name.last() != '_',
    ensures
        slug_of(name) == name,
{
    assert(slug_map(name) =~= name);
    lemma_trim_underscores(name, 0, name.len() as int);
    assert(name.subrange(0, name.len() as int) =~= name);
    if is_dot_name(name) {
        assert(name[0] == '.');
    }
}

/// `trim_start_underscore` drops exactly a leading run of `_`.
proof fn lemma_trim_start_drops_underscores(s: Seq<char>)
    ensures
        trim_start_underscore(s).len() <= s.len(),
        trim_start_underscore(s) == s.subrange(
            s.len() - trim_start_underscore(s).len(),
            s.len() as int,
        ),
        forall|k: int| 0 <= k < s.len() - trim_start_underscore(s).len() ==> s[k] == '_',
    decreases s.len(),
{
    lemma_trim_start_underscore_shape(s);
    if s.len() > 0 && s[0] == '_' {
        lemma_trim_start_drops_underscores(s.drop_first());
        assert forall|k: int| 0 <= k < s.len() - trim_start_underscore(s).len() implies s[k] == '_' by {
            if k > 0 {
                assert(s[k] == s.drop_first()[k - 1]);
            }
        }
    }
}

/// `trim_end_underscore` drops exactly a trailing run of `_`.
proof fn lemma_trim_end_drops_underscores(s: Seq<char>)
    ensures
        trim_end_underscore(s).len() <= s.len(),
        trim_end_underscore(s) == s.subrange(0, trim_end_underscore(s).len() as int),
        forall|k: int| trim_end_underscore(s).len() <= k < s.len() ==> s[k] == '_',
    decreases s.len(),
{
    lemma_trim_end_underscore_shape(s);
    if s.len() > 0 && s.last() == '_' {
        lemma_trim_end_drops_underscores(s.drop_last());
        assert forall|k: int| trim_end_underscore(s).len() <= k < s.len() implies s[k] == '_' by {
            if k < s.len() - 1 {
                assert(s[k] == s.drop_last()[k]);
            }
        }
    }
}

/// Two sequences with `_` at the same positions lose the same number of
/// leading and trailing `_`.
proof fn lemma_trim_same_shape(a: Seq<char>, b: Seq<char>)
    requires
        a.len() == b.len(),
        forall|k: int| 0 <= k < a.len() ==> (a[k] == '_') == (#[trigger] b[k] == '_'),
    ensures
        trim_start_underscore(a).len() == trim_start_underscore(b).len(),
        trim_end_underscore(trim_start_underscore(a)).len() == trim_end_underscore(
            trim_start_underscore(b),
        ).len(),
{
    lemma_trim_start_drops_underscores(a);
    lemma_trim_start_drops_underscores(b);
    lemma_trim_start_underscore_shape(a);
    lemma_trim_start_underscore_shape(b);
    let ta = trim_start_underscore(a);
    let tb = trim_start_underscore(b);
    if ta.len() < tb.len() {
        let k = a.len() - tb.len();
        assert(b[k] == tb[0]);
        assert(a[k] == '_');
    } else if tb.len() < ta.len() {
        let k = a.len() - ta.len();
        assert(a[k] == ta[0]);
        assert(b[k] == '_');
    }
    assert forall|k: int| 0 <= k < ta.len() implies (ta[k] == '_') == (#[trigger] tb[k] == '_') by {
        assert(ta[k] == a[a.len() - ta.len() + k]);
        assert(tb[k] == b[a.len() - ta.len() + k]);
    }
    lemma_trim_end_drops_underscores(ta);
    lemma_trim_end_drops_underscores(tb);
    lemma_trim_end_underscore_shape(ta);
    lemma_trim_end_underscore_shape(tb);
    let ea = trim_end_underscore(ta);
    let eb = trim_end_underscore(tb);
    if ea.len() < eb.len() {
        let k = eb.len() - 1;
        assert(tb[k] == eb.last());
        assert(ta[k] == '_');
    } else if eb.len() < ea.len() {
        let k = ea.len() - 1;
        assert(ta[k] == ea.last());
        assert(tb[k] == '_');
    }
}

/// Names that differ only in one ASCII letter or digit get different
/// slugs: letters and digits are never replaced or trimmed away, so two
/// characters cannot share a directory by such a difference.
pub proof fn lemma_slug_keeps_alnum_apart(n1: Seq<char>, n2: Seq<char>, i: int)
    requires
        n1.len() == n2.len(),
        0 <= i < n1.len(),
        forall|j: int| 0 <= j < n1.len() && j != i ==> n1[j] == n2[j],
        is_ascii_alnum(n1[i]),
        is_ascii_alnum(n2[i]),
        n1[i] != n2[i],
    ensures
        slug_of(n1) != slug_of(n2),
{
    let m1 = slug_map(n1);
    let m2 = slug_map(n2);
    assert(m1[i] == n1[i]);
    assert(m2[i] == n2[i]);
    assert forall|k: int| 0 <= k < m1.len() implies (m1[k] == '_') == (#[trigger] m2[k] == '_') by {
        if k != i {
            assert(n1[k] == n2[k]);
        }
    }
    lemma_trim_same_shape(m1, m2);
    lemma_trim_start_drops_underscores(m1);
    lemma_trim_start_drops_underscores(m2);
    let a1 = trim_start_underscore(m1);
    let a2 = trim_start_underscore(m2);
    lemma_trim_end_drops_underscores(a1);
    lemma_trim_end_drops_underscores(a2);
    let t1 = trim_end_underscore(a1);
    let t2 = trim_end_underscore(a2);
    let off = m1.len() - a1.len();
    // position `i` survives both trims, since it is not `_`
    assert(i >= off) by {
        if i < off {
            assert(m1[i] == '_');
        }
    }
    assert(i - off < t1.len()) by {
        if i - off >= t1.len() {
            assert(a1[i - off] == m1[i]);
            assert(a1[i - off] == '_');
        }
    }
    assert(t1[i - off] == m1[i]) by {
        assert(t1[i - off] == a1[i - off]);
        assert(a1[i - off] == m1[off + (i - off)]);
    }
    assert(t2[i - off] == m2[i]) by {
        assert(t2[i - off] == a2[i - off]);
        assert(a2[i - off] == m2[off + (i - off)]);
    }
    assert(t1 != t2) by {
        assert(t1[i - off] != t2[i - off]);
    }
    // neither slug falls back: each keeps a letter or digit
    if is_dot_name(t1) {
        assert(t1[i - off] == '.');
    }
    if is_dot_name(t2) {
        assert(t2[i - off] == '.');
    }
}

/// `dir.join(file)` for a relative `file`.
pub fn join_path(dir: &str, file: &str) -> (p: String)
    ensures
        p@ == path_join(dir@, file@),
{
    let v = chars_of(dir);
    let mut p = String::new();
    push_str(&mut p, dir);
    if v.len() > 0 && v[v.len() - 1] != '/' {
        push_str(&mut p, "/");
        proof {
            reveal_strlit("/");
        }
        assert(p@ =~= dir@ + seq!['/']);
    }
    push_str(&mut p, file);
    p
}

/// The database directory of a character: `root` joined with its slug.
pub fn db_path_for(root: &str, character_name: &str) -> (p: String)
    ensures
        p@ == path_join(root@, slug_of(character_name@)),
{
    let slug = character_slug(character_name);
    join_path(root, slug.as_str())
}

// ---------------------------------------------------------------------------
// Search and indexing checks
// ---------------------------------------------------------------------------

/// How a search request proceeds once its inputs are checked.
#[derive(Debug, Clone, PartialEq, Eq)]
pub enum SearchPlan {
    /// `k == 0`: nothing to fetch.
    Empty,
    /// Fetch `samples` nearest rows for the trimmed `query`, then keep the
    /// best `k` after re-ranking.
    Query { query: String, samples: u64, k: usize },
}

/// Rows fetched before re-ranking: twice `k`, saturating.
pub open spec fn samples_for(k: usize) -> u64 {
    if 2 * k <= usize::MAX {
        (2 * k) as u64
    } else {
        usize::MAX as u64
    }
}

/// Check a search request: a blank query is refused, `k == 0` fetches
/// nothing, otherwise the trimmed query is searched with twice `k` samples.
pub fn plan_search(query: &str, k: usize) -> (r: Result<SearchPlan, CharacterError>)
    ensures
        is_blank(query@) ==> (r matches Err(CharacterError::Validation(m)) && m@
            == "memory search query must not be empty"@),
        !is_blank(query@) && k == 0 ==> r == Ok::<SearchPlan, CharacterError>(SearchPlan::Empty),
        !is_blank(query@) && k > 0 ==> (r matches Ok(SearchPlan::Query { query: q, samples, k: kk })
            && q@ == trim(query@) && samples == samples_for(k) && kk == k),
{
    if is_blank_str(query) {
        return Err(CharacterError::Validation(owned("memory search query must not be empty")));
    }
    if k == 0 {
        return Ok(SearchPlan::Empty);
    }
    let doubled: usize = if k <= usize::MAX / 2 {
        2 * k
    } else {
        usize::MAX
    };
    Ok(SearchPlan::Query { query: trim_str(query), samples: doubled as u64, k })
}

/// Message of the error for an embedding model of the wrong width.
pub open spec fn dims_message(dims: usize) -> Seq<char> {
    "unexpected embedding dims "@ + decimal(dims as nat) + ", expected "@ + decimal(
        COHERE_EMBED_DIMS as nat,
    )
}

/// Check the embedding model's width before indexing.
pub fn check_embed_dims(dims: usize) -> (r: Result<(), CharacterError>)
    ensures
        dims == COHERE_EMBED_DIMS ==> r is Ok,
        dims != COHERE_EMBED_DIMS ==> (r matches Err(CharacterError::Embed(m)) && m@ == dims_message(
            dims,
        )),
{
    if dims == COHERE_EMBED_DIMS {
        return Ok(());
    }
    let mut m = String::new();
    push_str(&mut m, "unexpected embedding dims ");
    push_decimal(&mut m, dims as u64);
    push_str(&mut m, ", expected ");
    push_decimal(&mut m, COHERE_EMBED_DIMS as u64);
    Err(CharacterError::Embed(m))
}

} // verus!
