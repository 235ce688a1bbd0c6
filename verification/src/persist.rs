//! On-disk layout of saved characters: which files a character owns, what
//! the report sidecar records, how the saved list is summarised and ordered,
//! and how a deletion is judged. The filesystem work itself is the caller's.

use vstd::prelude::*;

use crate::agent::CreateCardOutcome;
use crate::card::TavernCardV2;
use crate::error::CharacterError;
use crate::rubric::DimensionScores;
use crate::text::{decimal, ends_with, push_decimal, push_str};
use crate::vector_store::{character_slug, join_path, path_join, slug_of};

verus! {

/// Default on-disk root for card JSON + sidecars.
pub const DEFAULT_CHARACTERS_DIR: &'static str = "data/characters";

/// File-name suffix of a saved card.
pub const CARD_SUFFIX: &'static str = "_card.json";

/// File-name suffix of a saved memory stream.
pub const MEMORY_SUFFIX: &'static str = "_memory.json";

/// File-name suffix of a saved knowledge graph.
pub const KG_SUFFIX: &'static str = "_kg.json";

/// File-name suffix of a saved critique report.
pub const REPORT_SUFFIX: &'static str = "_report.json";

/// Paths of the files a saved character owns.
#[derive(Debug, Clone, PartialEq, Eq)]
pub struct ArtifactPaths {
    /// Directory that holds the files.
    pub dir: String,
    /// Filesystem slug derived from the card name.
    pub slug: String,
    pub card: String,
    pub memory: String,
    pub kg: String,
    pub report: String,
}

/// The path of a character's file with this suffix.
pub open spec fn file_path(dir: Seq<char>, slug: Seq<char>, suffix: Seq<char>) -> Seq<char> {
    path_join(dir, slug + suffix)
}

/// `p` are the paths of the files for `name` under `dir`.
pub open spec fn paths_for(dir: Seq<char>, name: Seq<char>, p: ArtifactPaths) -> bool {
    let slug = slug_of(name);
    &&& p.dir@ == dir
    &&& p.slug@ == slug
    &&& p.card@ == file_path(dir, slug, CARD_SUFFIX@)
    &&& p.memory@ == file_path(dir, slug, MEMORY_SUFFIX@)
    &&& p.kg@ == file_path(dir, slug, KG_SUFFIX@)
    &&& p.report@ == file_path(dir, slug, REPORT_SUFFIX@)
}

/// A saved character is found again from its name or from the slug it was
/// saved under: the card and report paths that a lookup or a deletion
/// computes from either are the paths its files were written to.
pub proof fn lemma_saved_files_found(dir: Seq<char>, name: Seq<char>, p: ArtifactPaths)
    requires
        paths_for(dir, name, p),
    ensures
        slug_of(p.slug@) == p.slug@,
        file_path(dir, slug_of(name), CARD_SUFFIX@) == p.card@,
        file_path(dir, slug_of(p.slug@), CARD_SUFFIX@) == p.card@,
        file_path(dir, slug_of(name), REPORT_SUFFIX@) == p.report@,
        file_path(dir, slug_of(p.slug@), REPORT_SUFFIX@) == p.report@,
        file_path(dir, slug_of(p.slug@), MEMORY_SUFFIX@) == p.memory@,
        file_path(dir, slug_of(p.slug@), KG_SUFFIX@) == p.kg@,
{
    crate::vector_store::lemma_slug_idempotent(name);
}

/// Path of one file of a character, given its slug.
pub fn character_file(dir: &str, slug: &str, suffix: &str) -> (p: String)
    ensures
        p@ == file_path(dir@, slug@, suffix@),
{
    let mut name = String::new();
    push_str(&mut name, slug);
    push_str(&mut name, suffix);
    join_path(dir, name.as_str())
}

/// The files a card named `name` is saved as under `dir`.
pub fn artifact_paths(dir: &str, name: &str) -> (p: ArtifactPaths)
    ensures
        paths_for(dir@, name@, p),
{
    let slug = character_slug(name);
    let card = character_file(dir, slug.as_str(), CARD_SUFFIX);
    let memory = character_file(dir, slug.as_str(), MEMORY_SUFFIX);
    let kg = character_file(dir, slug.as_str(), KG_SUFFIX);
    let report = character_file(dir, slug.as_str(), REPORT_SUFFIX);
    let mut d = String::new();
    push_str(&mut d, dir);
    ArtifactPaths { dir: d, slug, card, memory, kg, report }
}

/// The saved card of `slug` (re-normalised, so a name works as well).
pub fn card_path_for(dir: &str, slug: &str) -> (p: String)
    ensures
        p@ == file_path(dir@, slug_of(slug@), CARD_SUFFIX@),
{
    let s = character_slug(slug);
    character_file(dir, s.as_str(), CARD_SUFFIX)
}

/// The saved report of `slug` (re-normalised, so a name works as well).
pub fn report_path_for(dir: &str, slug: &str) -> (p: String)
    ensures
        p@ == file_path(dir@, slug_of(slug@), REPORT_SUFFIX@),
{
    let s = character_slug(slug);
    character_file(dir, s.as_str(), REPORT_SUFFIX)
}

// ---------------------------------------------------------------------------
// The report sidecar
// ---------------------------------------------------------------------------

/// Compact critique summary stored next to the card.
#[derive(Debug, Clone, PartialEq, Eq)]
pub struct CreateReport {
    pub name: String,
    /// Free-text concept the card was created from (empty for reports
    /// written before concepts were recorded).
    pub concept: String,
    pub refine_rounds: u8,
    pub scores: DimensionScores,
    pub must_fix: Vec<String>,
    pub summary: String,
    pub memory_entries: usize,
    pub kg_edges: usize,
    pub lore_entries: usize,
}

/// Number of lorebook entries a card carries.
pub open spec fn lore_count(card: TavernCardV2) -> nat {
    match card.data.character_book {
        Some(b) => b.entries@.len(),
        None => 0,
    }
}

fn lore_entries_of(card: &TavernCardV2) -> (n: usize)
    ensures
        n == lore_count(*card),
{
    match &card.data.character_book {
        Some(b) => b.entries.len(),
        None => 0,
    }
}

fn copy_strings(v: &Vec<String>) -> (r: Vec<String>)
    ensures
        r@ == v@,
{
    let mut r: Vec<String> = Vec::new();
    let mut i: usize = 0;
    while i < v.len()
        invariant
            i <= v@.len(),
            r@ == v@.take(i as int),
        decreases v@.len() - i,
    {
        r.push(v[i].clone());
        assert(r@ =~= v@.take(i + 1));
        i += 1;
    }
    assert(v@.take(v@.len() as int) =~= v@);
    r
}

/// The report written for a create outcome and the concept it came from.
pub fn create_report(outcome: &CreateCardOutcome, concept: &str) -> (r: CreateReport)
    ensures
        r.name@ == outcome.card.data.name@,
        r.concept@ == concept@,
        r.refine_rounds == outcome.refine_rounds,
        r.scores == outcome.critique.scores,
        r.must_fix@ == outcome.critique.must_fix@,
        r.summary@ == outcome.critique.summary@,
        r.memory_entries == outcome.memory.entries@.len(),
        r.kg_edges == outcome.kg.edges@.len(),
        r.lore_entries == lore_count(outcome.card),
{
    let mut c = String::new();
    push_str(&mut c, concept);
    CreateReport {
        name: outcome.card.data.name.clone(),
        concept: c,
        refine_rounds: outcome.refine_rounds,
        scores: outcome.critique.scores,
        must_fix: copy_strings(&outcome.critique.must_fix),
        summary: outcome.critique.summary.clone(),
        memory_entries: outcome.memory.entries.len(),
        kg_edges: outcome.kg.edges.len(),
        lore_entries: lore_entries_of(&outcome.card),
    }
}

/// The concept a report records, if it records one.
pub open spec fn concept_of(report: Option<CreateReport>) -> Option<Seq<char>> {
    match report {
        Some(r) => if r.concept@.len() == 0 {
            None
        } else {
            Some(r.concept@)
        },
        None => None,
    }
}

/// The stored concept of a report (`None` when the report is missing or
/// unreadable, or records an empty concept).
pub fn stored_concept(report: Option<CreateReport>) -> (c: Option<String>)
    ensures
        match concept_of(report) {
            None => c is None,
            Some(s) => c matches Some(t) && t@ == s,
        },
{
    match report {
        Some(r) => {
            if r.concept.as_str().is_empty() {
                None
            } else {
                Some(r.concept)
            }
        },
        None => None,
    }
}

/// The one-line summary of a create run.
pub open spec fn create_summary_text(outcome: CreateCardOutcome, card_path: Seq<char>) -> Seq<char> {
    let s = outcome.critique.scores;
    "created name="@ + outcome.card.data.name@ + " refine_rounds="@ + decimal(
        outcome.refine_rounds as nat,
    ) + " scores={premise:"@ + decimal(s.premise as nat) + ",character:"@ + decimal(
        s.character as nat,
    ) + ",voice:"@ + decimal(s.voice as nat) + ",tom:"@ + decimal(s.tom as nat)
        + ",constraints:"@ + decimal(s.constraints as nat) + "} lore="@ + decimal(
        lore_count(outcome.card),
    ) + " mem="@ + decimal(outcome.memory.entries@.len()) + " kg_edges="@ + decimal(
        outcome.kg.edges@.len(),
    ) + " card="@ + card_path
}

/// One-line human summary for CLI / procedure responses.
pub fn format_create_summary(outcome: &CreateCardOutcome, paths: &ArtifactPaths) -> (s: String)
    ensures
        s@ == create_summary_text(*outcome, paths.card@),
{
    let sc = outcome.critique.scores;
    let mut s = String::new();
    push_str(&mut s, "created name=");
    push_str(&mut s, outcome.card.data.name.as_str());
    push_str(&mut s, " refine_rounds=");
    push_decimal(&mut s, outcome.refine_rounds as u64);
    push_str(&mut s, " scores={premise:");
    push_decimal(&mut s, sc.premise as u64);
    push_str(&mut s, ",character:");
    push_decimal(&mut s, sc.character as u64);
    push_str(&mut s, ",voice:");
    push_decimal(&mut s, sc.voice as u64);
    push_str(&mut s, ",tom:");
    push_decimal(&mut s, sc.tom as u64);
    push_str(&mut s, ",constraints:");
    push_decimal(&mut s, sc.constraints as u64);
    push_str(&mut s, "} lore=");
    push_decimal(&mut s, lore_entries_of(&outcome.card) as u64);
    push_str(&mut s, " mem=");
    push_decimal(&mut s, outcome.memory.entries.len() as u64);
    push_str(&mut s, " kg_edges=");
    push_decimal(&mut s, outcome.kg.edges.len() as u64);
    push_str(&mut s, " card=");
    push_str(&mut s, paths.card.as_str());
    s
}

// ---------------------------------------------------------------------------
// Listing saved characters
// ---------------------------------------------------------------------------

/// Public per-card summary of a saved character.
#[derive(Debug, Clone, PartialEq, Eq)]
pub struct CharacterSummary {
    pub slug: String,
    pub name: String,
    /// The concept the card was created from, when the report recorded one.
    pub concept: Option<String>,
    pub refine_rounds: Option<u8>,
    pub scores: Option<DimensionScores>,
    pub memory_entries: Option<usize>,
    pub kg_edges: Option<usize>,
    pub lore_entries: Option<usize>,
    pub card_path: String,
}

/// `s` with every trailing repetition of `p` removed (`str::trim_end_matches`).
pub open spec fn strip_suffixes(s: Seq<char>, p: Seq<char>) -> Seq<char>
    decreases s.len(),
{
    if p.len() > 0 && ends_with(s, p) {
        strip_suffixes(s.subrange(0, s.len() - p.len()), p)
    } else {
        s
    }
}

/// The slug of a directory entry that is a saved card: its name without the
/// trailing card suffixes; `None` for any other file name.
pub open spec fn card_slug_of(file_name: Seq<char>) -> Option<Seq<char>> {
    if ends_with(file_name, CARD_SUFFIX@) {
        Some(strip_suffixes(file_name, CARD_SUFFIX@))
    } else {
        None
    }
}

/// The slug of a saved card's file name, or `None` when the file is not a
/// saved card.
pub fn card_slug_from_file_name(file_name: &str) -> (r: Option<String>)
    ensures
        match card_slug_of(file_name@) {
            None => r is None,
            Some(s) => r matches Some(t) && t@ == s,
        },
{
    proof {
        reveal_strlit("_card.json");
    }
    let v = crate::text::chars_of(file_name);
    let p = crate::text::chars_of(CARD_SUFFIX);
    let plen = p.len();
    let mut end: usize = v.len();
    assert(v@.subrange(0, end as int) =~= v@);
    if !(plen <= end && crate::text::matches_at(v.as_slice(), end - plen, p.as_slice())) {
        return None;
    }
    while plen <= end && crate::text::matches_at(v.as_slice(), end - plen, p.as_slice())
        invariant
            end <= v@.len(),
            plen == p@.len(),
            plen == 10,
            p@ == CARD_SUFFIX@,
            strip_suffixes(file_name@, CARD_SUFFIX@) == strip_suffixes(v@.subrange(0, end as int), p@),
            v@ == file_name@,
        decreases end,
    {
        let ghost cur = v@.subrange(0, end as int);
        assert(cur.subrange(cur.len() - plen, cur.len() as int) =~= v@.subrange(end - plen, end as int));
        assert(cur.subrange(0, cur.len() - plen) =~= v@.subrange(0, end - plen));
        end = end - plen;
    }
    let ghost cur = v@.subrange(0, end as int);
    proof {
        if plen <= end {
            assert(cur.subrange(cur.len() - plen, cur.len() as int) =~= v@.subrange(end - plen, end as int));
        }
    }
    let mut out = String::new();
    crate::text::push_range(&mut out, v.as_slice(), 0, end);
    Some(out)
}

/// The summary of a saved card: its slug, name and path, and what its report
/// records when the report could be read.
pub open spec fn summary_matches(
    s: CharacterSummary,
    slug: Seq<char>,
    name: Seq<char>,
    report: Option<CreateReport>,
    card_path: Seq<char>,
) -> bool {
    &&& s.slug@ == slug
    &&& s.name@ == name
    &&& s.card_path@ == card_path
    &&& match report {
        Some(r) => {
            &&& (match concept_of(report) {
                None => s.concept is None,
                Some(c) => s.concept matches Some(t) && t@ == c,
            })
            &&& s.refine_rounds == Some(r.refine_rounds)
            &&& s.scores == Some(r.scores)
            &&& s.memory_entries == Some(r.memory_entries)
            &&& s.kg_edges == Some(r.kg_edges)
            &&& s.lore_entries == Some(r.lore_entries)
        },
        None => {
            &&& s.concept is None
            &&& s.refine_rounds is None
            &&& s.scores is None
            &&& s.memory_entries is None
            &&& s.kg_edges is None
            &&& s.lore_entries is None
        },
    }
}

/// Summarise one saved card from its slug, its card's name, its report when
/// readable, and its path.
pub fn summarize(slug: String, name: String, report: Option<CreateReport>, card_path: String) -> (s: CharacterSummary)
    ensures
        summary_matches(s, slug@, name@, report, card_path@),
{
    match report {
        Some(r) => {
            let ghost rr = r;
            let refine_rounds = r.refine_rounds;
            let scores = r.scores;
            let memory_entries = r.memory_entries;
            let kg_edges = r.kg_edges;
            let lore_entries = r.lore_entries;
            let concept = stored_concept(Some(r));
            CharacterSummary {
                slug,
                name,
                concept,
                refine_rounds: Some(refine_rounds),
                scores: Some(scores),
                memory_entries: Some(memory_entries),
                kg_edges: Some(kg_edges),
                lore_entries: Some(lore_entries),
                card_path,
            }
        },
        None => CharacterSummary {
            slug,
            name,
            concept: None,
            refine_rounds: None,
            scores: None,
            memory_entries: None,
            kg_edges: None,
            lore_entries: None,
            card_path,
        },
    }
}

/// Lexicographic order of two texts by code point (the order of `str`'s
/// `Ord`, since UTF-8 preserves code-point order).
pub open spec fn text_lt(a: Seq<char>, b: Seq<char>) -> bool
    decreases a.len(),
{
    if a.len() == 0 {
        b.len() > 0
    } else if b.len() == 0 {
        false
    } else if a[0] < b[0] {
        true
    } else if b[0] < a[0] {
        false
    } else {
        text_lt(a.drop_first(), b.drop_first())
    }
}

proof fn lemma_text_lt_irreflexive(a: Seq<char>)
    ensures
        !text_lt(a, a),
    decreases a.len(),
{
    if a.len() > 0 {
        lemma_text_lt_irreflexive(a.drop_first());
    }
}

proof fn lemma_text_lt_transitive(a: Seq<char>, b: Seq<char>, c: Seq<char>)
    requires
        text_lt(a, b),
        text_lt(b, c),
    ensures
        text_lt(a, c),
    decreases a.len(),
{
    if a.len() > 0 && b.len() > 0 && c.len() > 0 {
        if a[0] == b[0] && b[0] == c[0] {
            lemma_text_lt_transitive(a.drop_first(), b.drop_first(), c.drop_first());
        }
    }
}

proof fn lemma_text_lt_total(a: Seq<char>, b: Seq<char>)
    ensures
        text_lt(a, b) || text_lt(b, a) || a == b,
    decreases a.len(),
{
    if a.len() > 0 && b.len() > 0 && a[0] == b[0] {
        lemma_text_lt_total(a.drop_first(), b.drop_first());
        if a.drop_first() == b.drop_first() {
            assert(a =~= seq![a[0]] + a.drop_first());
            assert(b =~= seq![b[0]] + b.drop_first());
        }
    } else if a.len() == 0 && b.len() == 0 {
        assert(a =~= b);
    }
}

/// "Not after" is transitive.
proof fn lemma_text_le_transitive(a: Seq<char>, b: Seq<char>, c: Seq<char>)
    requires
        !text_lt(b, a),
        !text_lt(c, b),
    ensures
        !text_lt(c, a),
{
    lemma_text_lt_total(a, b);
    lemma_text_lt_total(b, c);
    if text_lt(c, a) {
        if text_lt(a, b) {
            lemma_text_lt_transitive(c, a, b);
        }
    }
}

fn text_less(a: &str, b: &str) -> (r: bool)
    ensures
        r == text_lt(a@, b@),
{
    let va = crate::text::chars_of(a);
    let vb = crate::text::chars_of(b);
    let mut i: usize = 0;
    assert(va@.subrange(0, va@.len() as int) =~= va@);
    assert(vb@.subrange(0, vb@.len() as int) =~= vb@);
    while i < va.len() && i < vb.len()
        invariant
            i <= va@.len(),
            i <= vb@.len(),
            text_lt(a@, b@) == text_lt(
                va@.subrange(i as int, va@.len() as int),
                vb@.subrange(i as int, vb@.len() as int),
            ),
            va@ == a@,
            vb@ == b@,
        decreases va@.len() - i,
    {
        let x = va[i];
        let y = vb[i];
        let ghost sa = va@.subrange(i as int, va@.len() as int);
        let ghost sb = vb@.subrange(i as int, vb@.len() as int);
        assert(sa[0] == va@[i as int]);
        assert(sb[0] == vb@[i as int]);
        if x < y {
            return true;
        }
        if y < x {
            return false;
        }
        assert(sa.drop_first() =~= va@.subrange(i + 1, va@.len() as int));
        assert(sb.drop_first() =~= vb@.subrange(i + 1, vb@.len() as int));
        i += 1;
    }
    i == va.len() && i < vb.len()
}

/// Ordered by slug, ties allowed.
pub open spec fn sorted_by_slug(s: Seq<CharacterSummary>) -> bool {
    forall|i: int, j: int| 0 <= i < j < s.len() ==> !text_lt(#[trigger] s[j].slug@, #[trigger] s[i].slug@)
}

/// Order summaries by slug, for a steady list in the UI. (Slugs are file
/// stems of one directory, so a listing holds no two equal ones.)
pub fn sort_by_slug(items: Vec<CharacterSummary>) -> (out: Vec<CharacterSummary>)
    ensures
        sorted_by_slug(out@),
        out@.to_multiset() == items@.to_multiset(),
{
    let mut rest = items;
    let mut out: Vec<CharacterSummary> = Vec::new();
    proof {
        broadcast use vstd::multiset::group_multiset_axioms;
        vstd::seq_lib::to_multiset_len(out@);
        vstd::multiset::lemma_multiset_empty_len(out@.to_multiset());
        assert(out@.to_multiset().add(rest@.to_multiset()) =~= items@.to_multiset());
    }
    while rest.len() > 0
        invariant
            sorted_by_slug(out@),
            out@.to_multiset().add(rest@.to_multiset()) == items@.to_multiset(),
        decreases rest@.len(),
    {
        let ghost before = rest@;
        let y = match rest.pop() {
            Some(y) => y,
            None => {
                proof {
                    assert(false);
                }
                return out;
            },
        };
        assert(before =~= rest@.push(y));
        let mut p: usize = 0;
        while p < out.len() && text_less(out[p].slug.as_str(), y.slug.as_str())
            invariant
                p <= out@.len(),
                forall|k: int| 0 <= k < p ==> text_lt(#[trigger] out@[k].slug@, y.slug@),
            decreases out@.len() - p,
        {
            p += 1;
        }
        let ghost old_out = out@;
        proof {
            assert forall|i: int, j: int| 0 <= i < j < old_out.len() + 1 implies !text_lt(
                #[trigger] old_out.insert(p as int, y)[j].slug@,
                #[trigger] old_out.insert(p as int, y)[i].slug@,
            ) by {
                let n = old_out.insert(p as int, y);
                if j < p {
                } else if i > p {
                    assert(n[i] == old_out[i - 1]);
                    assert(n[j] == old_out[j - 1]);
                } else if i == p {
                    assert(n[i] == y);
                    assert(n[j] == old_out[j - 1]);
                    assert(!text_lt(old_out[p as int].slug@, y.slug@));
                    if j - 1 > p {
                        assert(!text_lt(old_out[j - 1].slug@, old_out[p as int].slug@));
                    } else {
                        lemma_text_lt_irreflexive(old_out[p as int].slug@);
                    }
                    lemma_text_le_transitive(y.slug@, old_out[p as int].slug@, old_out[j - 1].slug@);
                } else {
                    assert(n[i] == old_out[i]);
                    if j == p {
                        assert(text_lt(old_out[i].slug@, y.slug@));
                        lemma_text_lt_total(old_out[i].slug@, y.slug@);
                        if text_lt(y.slug@, old_out[i].slug@) {
                            lemma_text_lt_transitive(y.slug@, old_out[i].slug@, y.slug@);
                            lemma_text_lt_irreflexive(y.slug@);
                        }
                    } else {
                        assert(n[j] == old_out[j - 1]);
                    }
                }
            }
            vstd::seq_lib::to_multiset_insert(old_out, p as int, y);
            vstd::seq_lib::to_multiset_build(rest@, y);
            broadcast use vstd::multiset::group_multiset_axioms;
            assert(old_out.insert(p as int, y).to_multiset().add(rest@.to_multiset()) =~= old_out.to_multiset().add(
                rest@.push(y).to_multiset(),
            ));
        }
        out.insert(p, y);
    }
    proof {
        broadcast use vstd::multiset::group_multiset_axioms;
        vstd::seq_lib::to_multiset_len(rest@);
        vstd::multiset::lemma_multiset_empty_len(rest@.to_multiset());
        assert(rest@.to_multiset() =~= vstd::multiset::Multiset::empty());
        assert(out@.to_multiset().add(rest@.to_multiset()) =~= out@.to_multiset());
    }
    out
}

// ---------------------------------------------------------------------------
// Deleting a saved character
// ---------------------------------------------------------------------------

/// What was actually removed by a deletion.
#[derive(Debug, Clone, PartialEq, Eq)]
pub struct DeleteOutcome {
    pub slug: String,
    pub card_removed: bool,
    pub memory_removed: bool,
    pub kg_removed: bool,
    pub report_removed: bool,
}

/// 1 for a removed file, 0 otherwise.
pub open spec fn flag_count(b: bool) -> nat {
    if b {
        1
    } else {
        0
    }
}

/// Number of files a deletion removed.
pub open spec fn removed_total(o: DeleteOutcome) -> nat {
    flag_count(o.card_removed) + flag_count(o.memory_removed) + flag_count(o.kg_removed)
        + flag_count(o.report_removed)
}

impl DeleteOutcome {
    /// Number of files actually deleted.
    pub fn removed_count(&self) -> (n: usize)
        ensures
            n == removed_total(*self),
            n <= 4,
    {
        let mut n: usize = 0;
        if self.card_removed {
            n += 1;
        }
        if self.memory_removed {
            n += 1;
        }
        if self.kg_removed {
            n += 1;
        }
        if self.report_removed {
            n += 1;
        }
        n
    }
}

/// The files a deletion of `slug` looks for, in order: card, memory, graph,
/// report.
#[derive(Debug, Clone, PartialEq, Eq)]
pub struct DeletionPlan {
    /// The re-normalised slug.
    pub slug: String,
    /// Paths, in the order card, memory, graph, report.
    pub paths: Vec<String>,
}

/// The files that deleting `slug` (a name works as well) under `dir` tries
/// to remove.
pub fn plan_deletion(dir: &str, slug: &str) -> (plan: DeletionPlan)
    ensures
        plan.slug@ == slug_of(slug@),
        plan.paths@.len() == 4,
        plan.paths@[0]@ == file_path(dir@, slug_of(slug@), CARD_SUFFIX@),
        plan.paths@[1]@ == file_path(dir@, slug_of(slug@), MEMORY_SUFFIX@),
        plan.paths@[2]@ == file_path(dir@, slug_of(slug@), KG_SUFFIX@),
        plan.paths@[3]@ == file_path(dir@, slug_of(slug@), REPORT_SUFFIX@),
{
    let s = character_slug(slug);
    let mut paths: Vec<String> = Vec::new();
    paths.push(character_file(dir, s.as_str(), CARD_SUFFIX));
    paths.push(character_file(dir, s.as_str(), MEMORY_SUFFIX));
    paths.push(character_file(dir, s.as_str(), KG_SUFFIX));
    paths.push(character_file(dir, s.as_str(), REPORT_SUFFIX));
    DeletionPlan { slug: s, paths }
}

/// The outcome of a deletion from the removal flags, in plan order.
pub fn deletion_outcome(slug: String, removed: &Vec<bool>) -> (o: DeleteOutcome)
    requires
        removed@.len() == 4,
    ensures
        o.slug == slug,
        o.card_removed == removed@[0],
        o.memory_removed == removed@[1],
        o.kg_removed == removed@[2],
        o.report_removed == removed@[3],
{
    DeleteOutcome {
        slug,
        card_removed: removed[0],
        memory_removed: removed[1],
        kg_removed: removed[2],
        report_removed: removed[3],
    }
}

/// Message of the error for a deletion that found nothing.
pub open spec fn nothing_found_message(slug: Seq<char>, dir: Seq<char>) -> Seq<char> {
    "no character files found for slug `"@ + slug + "` under "@ + dir
}

/// Judge a deletion: one that removed nothing is an [`CharacterError::Io`]
/// error naming the slug and the directory; any other is the outcome.
pub fn finish_deletion(outcome: DeleteOutcome, dir: &str) -> (r: Result<DeleteOutcome, CharacterError>)
    ensures
        removed_total(outcome) == 0 ==> (r matches Err(CharacterError::Io(m)) && m@
            == nothing_found_message(outcome.slug@, dir@)),
        removed_total(outcome) > 0 ==> r == Ok::<DeleteOutcome, CharacterError>(outcome),
{
    if outcome.removed_count() == 0 {
        let mut m = String::new();
        push_str(&mut m, "no character files found for slug `");
        push_str(&mut m, outcome.slug.as_str());
        push_str(&mut m, "` under ");
        push_str(&mut m, dir);
        return Err(CharacterError::Io(m));
    }
    Ok(outcome)
}

} // verus!
