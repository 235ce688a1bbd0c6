//! Memory-stream metadata (Generative-Agents style): an append-only log of
//! trimmed texts with clamped importance and monotone ids.

use vstd::prelude::*;

use crate::card::{RelationshipNode, TavernCardV2};
use crate::clock::now_unix;
use crate::error::CharacterError;
use crate::text::{
    chars_of, decimal, decimal_string, ends_with, find_char, is_blank, is_blank_str, is_ws, owned,
    push_str, trim, trim_str,
};

verus! {

/// Kind of a memory-stream entry.
#[derive(Debug, Clone, Copy, PartialEq, Eq, Structural)]
pub enum MemoryKind {
    /// Seed fact distilled from the static card / extensions.
    Seed,
    /// Observed event or dialogue summary.
    Observation,
    /// Higher-order reflection over prior memories.
    Reflection,
}

/// One entry in the character memory stream.
#[derive(Debug, Clone, PartialEq, Eq)]
pub struct MemoryEntry {
    /// Stable id within the stream (decimal counter).
    pub id: String,
    /// Unix timestamp (seconds).
    pub ts: u64,
    /// Entry kind.
    pub kind: MemoryKind,
    /// Human-readable memory text (Chinese by default).
    pub text: String,
    /// Importance 1..=10 (clamped on insert).
    pub importance: u8,
}

/// In-memory stream + character binding.
#[derive(Debug, Clone, PartialEq, Eq, Default)]
pub struct MemoryStream {
    /// Character display name at seed time.
    pub character_name: String,
    /// Monotone id counter (next id = `next_id`).
    pub next_id: u64,
    /// Ordered append-only log (oldest first).
    pub entries: Vec<MemoryEntry>,
}

/// Importance clamped to 1..=10.
pub open spec fn clamp_importance(i: u8) -> u8 {
    if i < 1 {
        1
    } else if i > 10 {
        10
    } else {
        i
    }
}

/// The entry appended for these inputs at counter value `id`.
pub open spec fn entry_is(e: MemoryEntry, id: u64, ts: u64, kind: MemoryKind, text: Seq<char>, importance: u8) -> bool {
    &&& e.id@ == decimal(id as nat)
    &&& e.ts == ts
    &&& e.kind == kind
    &&& e.text@ == trim(text)
    &&& e.importance == clamp_importance(importance)
}

/// Entries of `kind`, in their append order.
pub open spec fn of_kind(entries: Seq<MemoryEntry>, kind: MemoryKind) -> Seq<MemoryEntry>
    decreases entries.len(),
{
    if entries.len() == 0 {
        Seq::empty()
    } else if entries.last().kind == kind {
        of_kind(entries.drop_last(), kind).push(entries.last())
    } else {
        of_kind(entries.drop_last(), kind)
    }
}

/// Filtering after an append: the new entry joins the end of its own kind's
/// list, and every other kind's list is what it was.
pub proof fn lemma_of_kind_after_append(entries: Seq<MemoryEntry>, e: MemoryEntry, kind: MemoryKind)
    ensures
        of_kind(entries.push(e), kind) == (if e.kind == kind {
            of_kind(entries, kind).push(e)
        } else {
            of_kind(entries, kind)
        }),
{
    assert(entries.push(e).drop_last() =~= entries);
}

/// Every entry's id renders a counter value below `next_id`, and no two
/// entries share an id.
pub open spec fn ids_fresh(s: MemoryStream) -> bool {
    &&& forall|i: int|
        0 <= i < s.entries@.len() ==> exists|k: u64|
            k < s.next_id && (#[trigger] s.entries@[i]).id@ == decimal(k as nat)
    &&& forall|i: int, j: int|
        0 <= i < j < s.entries@.len() ==> (#[trigger] s.entries@[i]).id@ != (#[trigger] s.entries@[j]).id@
}

/// Ids never repeat: an append to a stream whose ids are fresh, made before
/// the counter saturates, keeps them fresh (a new stream has none).
pub proof fn lemma_append_keeps_ids_fresh(before: MemoryStream, after: MemoryStream, e: MemoryEntry)
    requires
        ids_fresh(before),
        before.next_id < u64::MAX,
        after.entries@ == before.entries@.push(e),
        e.id@ == decimal(before.next_id as nat),
        after.next_id == before.next_id + 1,
    ensures
        ids_fresh(after),
{
    let n = before.entries@.len();
    assert forall|i: int| 0 <= i < after.entries@.len() implies exists|k: u64|
        k < after.next_id && (#[trigger] after.entries@[i]).id@ == decimal(k as nat) by {
        if i < n {
            assert(after.entries@[i] == before.entries@[i]);
            let k = choose|k: u64| k < before.next_id && before.entries@[i].id@ == decimal(k as nat);
            assert(k < after.next_id && after.entries@[i].id@ == decimal(k as nat));
        } else {
            assert(after.entries@[i] == e);
            assert(before.next_id < after.next_id && after.entries@[i].id@ == decimal(before.next_id as nat));
        }
    }
    assert forall|i: int, j: int| 0 <= i < j < after.entries@.len() implies (#[trigger] after.entries@[i]).id@
        != (#[trigger] after.entries@[j]).id@ by {
        assert(after.entries@[i] == before.entries@[i]);
        if j < n {
            assert(after.entries@[j] == before.entries@[j]);
        } else {
            assert(after.entries@[j] == e);
            let k = choose|k: u64| k < before.next_id && before.entries@[i].id@ == decimal(k as nat);
            if before.entries@[i].id@ == e.id@ {
                crate::text::lemma_decimal_injective(k as nat, before.next_id as nat);
            }
        }
    }
}

fn copy_entry(e: &MemoryEntry) -> (r: MemoryEntry)
    ensures
        r == *e,
{
    MemoryEntry { id: e.id.clone(), ts: e.ts, kind: e.kind, text: e.text.clone(), importance: e.importance }
}

impl MemoryStream {
    /// Empty stream bound to a character name.
    pub fn new(character_name: &str) -> (s: Self)
        ensures
            s.character_name@ == character_name@,
            s.next_id == 0,
            s.entries@.len() == 0,
            ids_fresh(s),
    {
        MemoryStream { character_name: owned(character_name), next_id: 0, entries: Vec::new() }
    }

    /// Append one entry: the trimmed text, importance clamped to 1..=10, the
    /// given timestamp (the clock's when `None`) and the current counter as
    /// id; the counter then advances (saturating).
    ///
    /// Fails with [`CharacterError::Validation`] and leaves the stream as it
    /// was when `text` is blank.
    pub fn append(&mut self, kind: MemoryKind, text: &str, importance: u8, ts: Option<u64>) -> (r: Result<MemoryEntry, CharacterError>)
        ensures
            is_blank(text@) ==> *final(self) == *old(self),
            is_blank(text@) ==> (r matches Err(CharacterError::Validation(m)) && m@
                == "memory entry text must not be empty"@),
            !is_blank(text@) ==> {
                &&& r matches Ok(e)
                &&& final(self).entries@.len() == old(self).entries@.len() + 1
                &&& final(self).entries@.drop_last() == old(self).entries@
                &&& final(self).entries@.last() == e
                &&& entry_is(e, old(self).next_id, e.ts, kind, text@, importance)
                &&& (ts matches Some(t) ==> e.ts == t)
                &&& final(self).next_id == (if old(self).next_id == u64::MAX {
                    u64::MAX
                } else {
                    (old(self).next_id + 1) as u64
                })
                &&& final(self).character_name == old(self).character_name
            },
    {
        if is_blank_str(text) {
            return Err(CharacterError::Validation(owned("memory entry text must not be empty")));
        }
        let trimmed = trim_str(text);
        let importance = if importance < 1 {
            1
        } else if importance > 10 {
            10
        } else {
            importance
        };
        let ts = match ts {
            Some(t) => t,
            None => now_unix(),
        };
        let id = decimal_string(self.next_id);
        self.next_id = if self.next_id == u64::MAX {
            u64::MAX
        } else {
            self.next_id + 1
        };
        let e = MemoryEntry { id, ts, kind, text: trimmed, importance };
        let r = copy_entry(&e);
        self.entries.push(e);
        Ok(r)
    }

    /// The entries whose `kind` matches, in append order.
    pub fn entries_of_kind(&self, kind: MemoryKind) -> (r: Vec<MemoryEntry>)
        ensures
            r@ == of_kind(self.entries@, kind),
    {
        let mut out: Vec<MemoryEntry> = Vec::new();
        let mut i: usize = 0;
        while i < self.entries.len()
            invariant
                i <= self.entries@.len(),
                out@ == of_kind(self.entries@.take(i as int), kind),
            decreases self.entries@.len() - i,
        {
            assert(self.entries@.take(i + 1).drop_last() =~= self.entries@.take(i as int));
            if self.entries[i].kind == kind {
                out.push(copy_entry(&self.entries[i]));
            }
            i += 1;
        }
        assert(self.entries@.take(self.entries@.len() as int) =~= self.entries@);
        out
    }
}

// ---------------------------------------------------------------------------
// Seeding from a card
// ---------------------------------------------------------------------------

/// Full-width colon separating a seed label from its body.
pub open spec fn colon() -> char {
    '：'
}

/// The second `：`-separated part of `text` (`split('：').nth(1)`).
pub open spec fn second_part(text: Seq<char>) -> Option<Seq<char>> {
    match find_char(text, colon()) {
        None => None,
        Some(i) => {
            let after = text.subrange(i + 1, text.len() as int);
            match find_char(after, colon()) {
                None => Some(after),
                Some(j) => Some(after.subrange(0, j)),
            }
        },
    }
}

/// A seed text that carries no body: its second part is blank, it ends with
/// `：`, or it holds nothing but whitespace and `：`.
pub open spec fn seed_is_empty(text: Seq<char>) -> bool {
    ||| (second_part(text) matches Some(p) && is_blank(p))
    ||| ends_with(text, seq![colon()])
    ||| forall|k: int| 0 <= k < text.len() && text[k] != colon() ==> is_ws(#[trigger] text[k])
}

/// Seed text of one relationship.
pub open spec fn rel_seed_text(name: Seq<char>, rel: RelationshipNode) -> Seq<char> {
    let base = "关系："@ + name + " —["@ + trim(rel.relation_type@) + "]→ "@ + trim(rel.name@);
    if is_blank(rel.defines_protagonist_how@) {
        base
    } else {
        base + "；"@ + trim(rel.defines_protagonist_how@)
    }
}

/// Seed texts of the relationships with a non-blank name, importance 7.
pub open spec fn rel_seeds(name: Seq<char>, rels: Seq<RelationshipNode>) -> Seq<(Seq<char>, u8)>
    decreases rels.len(),
{
    if rels.len() == 0 {
        Seq::empty()
    } else if is_blank(rels.last().name@) {
        rel_seeds(name, rels.drop_last())
    } else {
        rel_seeds(name, rels.drop_last()).push((rel_seed_text(name, rels.last()), 7))
    }
}

/// Candidate seed texts with their importance, in order.
pub open spec fn seed_candidates(card: TavernCardV2) -> Seq<(Seq<char>, u8)> {
    let d = card.data;
    let name = trim(d.name@);
    let base = seq![
        (name + "："@ + trim(d.description@), 7u8),
        ("性格："@ + trim(d.personality@), 6u8),
        ("场景："@ + trim(d.scenario@), 6u8),
    ];
    match d.extensions.novelagent {
        None => base,
        Some(ext) => base + seq![
            ("欲望："@ + trim(ext.desire@), 8u8),
            ("内在需求："@ + trim(ext.need@), 8u8),
            ("弱点："@ + trim(ext.weakness@), 7u8),
            ("主题张力："@ + trim(ext.moral_axis@), 6u8),
            ("所知边界："@ + trim(ext.knowledge_bounds@), 7u8),
        ] + rel_seeds(name, ext.relationships@),
    }
}

/// The candidates that carry a body, in order.
pub open spec fn kept_seeds(c: Seq<(Seq<char>, u8)>) -> Seq<(Seq<char>, u8)>
    decreases c.len(),
{
    if c.len() == 0 {
        Seq::empty()
    } else if seed_is_empty(c.last().0) {
        kept_seeds(c.drop_last())
    } else {
        kept_seeds(c.drop_last()).push(c.last())
    }
}

/// The id counter after `n` appends from zero (it saturates at `u64::MAX`).
pub open spec fn counter_after(n: nat) -> u64 {
    if n < u64::MAX {
        n as u64
    } else {
        u64::MAX
    }
}

/// `entries` are the seed entries for `seeds`, ids counting from 0, all at
/// time `ts`.
pub open spec fn seeded_entries(entries: Seq<MemoryEntry>, seeds: Seq<(Seq<char>, u8)>, ts: u64) -> bool {
    &&& entries.len() == seeds.len()
    &&& forall|i: int|
        0 <= i < entries.len() ==> entry_is(
            #[trigger] entries[i],
            counter_after(i as nat),
            ts,
            MemoryKind::Seed,
            seeds[i].0,
            seeds[i].1,
        )
}

fn find_colon(v: &Vec<char>, from: usize) -> (r: Option<usize>)
    requires
        from <= v@.len(),
    ensures
        match find_char(v@.subrange(from as int, v@.len() as int), colon()) {
            None => r is None,
            Some(i) => r == Some((from + i) as usize),
        },
        r matches Some(k) ==> from <= k < v@.len(),
{
    let mut k: usize = from;
    while k < v.len()
        invariant
            from <= k <= v@.len(),
            find_char(v@.subrange(from as int, v@.len() as int), colon()) == match find_char(
                v@.subrange(k as int, v@.len() as int),
                colon(),
            ) {
                Some(i) => Some(i + (k - from)),
                None => None,
            },
        decreases v@.len() - k,
    {
        let ghost s = v@.subrange(k as int, v@.len() as int);
        assert(s[0] == v@[k as int]);
        if v[k] == '：' {
            return Some(k);
        }
        assert(s.drop_first() =~= v@.subrange(k + 1, v@.len() as int));
        k += 1;
    }
    None
}

fn seed_empty(text: &str) -> (r: bool)
    ensures
        r == seed_is_empty(text@),
{
    let v = chars_of(text);
    proof {
        assert(v@.subrange(0, v@.len() as int) =~= v@);
        crate::text::lemma_find_char(v@, colon());
    }
    let second_blank = match find_colon(&v, 0) {
        None => false,
        Some(i) => {
            let ghost after = v@.subrange(i + 1, v@.len() as int);
            proof {
                crate::text::lemma_find_char(after, colon());
            }
            let hi = match find_colon(&v, i + 1) {
                None => v.len(),
                Some(j) => j,
            };
            let mut part = String::new();
            crate::text::push_range(&mut part, v.as_slice(), i + 1, hi);
            proof {
                match find_char(after, colon()) {
                    Some(j) => {
                        assert(after.subrange(0, j) =~= v@.subrange(i + 1, hi as int));
                    },
                    None => {
                        assert(after =~= v@.subrange(i + 1, hi as int));
                    },
                }
            }
            is_blank_str(part.as_str())
        },
    };
    let ghost second = second_part(v@) matches Some(p) && is_blank(p);
    assert(second_blank == second);
    if second_blank {
        return true;
    }
    if v.len() > 0 && v[v.len() - 1] == '：' {
        assert(v@.subrange(v@.len() - 1, v@.len() as int) =~= seq![colon()]);
        return true;
    }
    if v.len() > 0 {
        assert(v@.subrange(v@.len() - 1, v@.len() as int)[0] == v@[v@.len() - 1]);
    }
    assert(!ends_with(v@, seq![colon()]));
    let mut k: usize = 0;
    while k < v.len()
        invariant
            k <= v@.len(),
            v@ == text@,
            !second,
            second == (second_part(v@) matches Some(p) && is_blank(p)),
            !ends_with(v@, seq![colon()]),
            forall|m: int| 0 <= m < k && v@[m] != colon() ==> is_ws(#[trigger] v@[m]),
        decreases v@.len() - k,
    {
        if v[k] != '：' && !crate::text::is_whitespace(v[k]) {
            assert(!is_ws(v@[k as int]));
            return false;
        }
        k += 1;
    }
    true
}

fn push_seed(stream: &mut MemoryStream, text: &str, importance: u8, ts: u64, Ghost(done): Ghost<Seq<(Seq<char>, u8)>>)
    requires
        1 <= importance <= 10,
        seeded_entries(old(stream).entries@, kept_seeds(done), ts),
        old(stream).next_id == counter_after(kept_seeds(done).len()),
    ensures
        seeded_entries(final(stream).entries@, kept_seeds(done.push((text@, importance))), ts),
        final(stream).next_id == counter_after(kept_seeds(done.push((text@, importance))).len()),
        final(stream).character_name == old(stream).character_name,
{
    let ghost all = done.push((text@, importance));
    assert(all.drop_last() =~= done);
    if seed_empty(text) {
        return;
    }
    proof {
        crate::text::lemma_blank_all_ws(text@);
    }
    let ghost before = stream.entries@;
    let r = stream.append(MemoryKind::Seed, text, importance, Some(ts));
    assert forall|i: int| 0 <= i < stream.entries@.len() implies entry_is(
        #[trigger] stream.entries@[i],
        counter_after(i as nat),
        ts,
        MemoryKind::Seed,
        kept_seeds(all)[i].0,
        kept_seeds(all)[i].1,
    ) by {
        if i < before.len() {
            assert(stream.entries@[i] == before[i]);
        }
    }
}

proof fn lemma_trim_start_head(s: Seq<char>)
    ensures
        crate::text::trim_start(s).len() > 0 ==> !is_ws(crate::text::trim_start(s)[0]),
    decreases s.len(),
{
    if s.len() > 0 && is_ws(s[0]) {
        lemma_trim_start_head(s.drop_first());
    }
}

proof fn lemma_trim_end_tail(s: Seq<char>)
    ensures
        crate::text::trim_end(s).len() <= s.len(),
        crate::text::trim_end(s) == s.subrange(0, crate::text::trim_end(s).len() as int),
        crate::text::trim_end(s).len() > 0 ==> !is_ws(crate::text::trim_end(s).last()),
    decreases s.len(),
{
    if s.len() > 0 && is_ws(s.last()) {
        lemma_trim_end_tail(s.drop_last());
        let r = crate::text::trim_end(s.drop_last());
        assert(s.drop_last().subrange(0, r.len() as int) =~= s.subrange(0, r.len() as int));
    } else {
        assert(s.subrange(0, s.len() as int) =~= s);
    }
}

/// A non-empty trimmed string starts and ends with a non-whitespace
/// character.
proof fn lemma_trimmed_ends(x: Seq<char>)
    ensures
        trim(x).len() > 0 ==> !is_ws(trim(x)[0]) && !is_ws(trim(x).last()),
{
    let u = crate::text::trim_start(x);
    lemma_trim_start_head(x);
    lemma_trim_end_tail(u);
    if trim(x).len() > 0 {
        assert(trim(x)[0] == u[0]);
    }
}

/// `c` occurs in neither part, so not in their concatenation.
proof fn lemma_concat_free(a: Seq<char>, b: Seq<char>, c: char)
    requires
        !a.contains(c),
        !b.contains(c),
    ensures
        !(a + b).contains(c),
{
    if (a + b).contains(c) {
        let k = choose|k: int| 0 <= k < (a + b).len() && (a + b)[k] == c;
        if k < a.len() {
            assert(a[k] == c);
        } else {
            assert(b[k - a.len()] == c);
        }
    }
}

/// `c` occurs nowhere in a string literal given by its characters.
proof fn lemma_free_of(s: Seq<char>, c: char)
    requires
        forall|k: int| 0 <= k < s.len() ==> s[k] != c,
    ensures
        !s.contains(c),
{
}

proof fn lemma_rel_seeds_has(name: Seq<char>, rels: Seq<RelationshipNode>, i: int)
    requires
        0 <= i < rels.len(),
        !is_blank(rels[i].name@),
    ensures
        exists|k: int|
            0 <= k < rel_seeds(name, rels).len() && #[trigger] rel_seeds(name, rels)[k] == (
                rel_seed_text(name, rels[i]),
                7u8,
            ),
    decreases rels.len(),
{
    let p = rels.drop_last();
    if i == rels.len() - 1 {
        let k = rel_seeds(name, p).len() as int;
        assert(rel_seeds(name, rels)[k] == (rel_seed_text(name, rels[i]), 7u8));
    } else {
        assert(p[i] == rels[i]);
        lemma_rel_seeds_has(name, p, i);
        let k = choose|k: int|
            0 <= k < rel_seeds(name, p).len() && #[trigger] rel_seeds(name, p)[k] == (
                rel_seed_text(name, p[i]),
                7u8,
            );
        assert(rel_seeds(name, rels)[k] == rel_seeds(name, p)[k]);
    }
}

proof fn lemma_kept_seeds_has(c: Seq<(Seq<char>, u8)>, k: int)
    requires
        0 <= k < c.len(),
        !seed_is_empty(c[k].0),
    ensures
        exists|j: int| 0 <= j < kept_seeds(c).len() && #[trigger] kept_seeds(c)[j] == c[k],
    decreases c.len(),
{
    let p = c.drop_last();
    if k == c.len() - 1 {
        let j = kept_seeds(p).len() as int;
        assert(kept_seeds(c)[j] == c[k]);
    } else {
        assert(p[k] == c[k]);
        lemma_kept_seeds_has(p, k);
        let j = choose|j: int| 0 <= j < kept_seeds(p).len() && #[trigger] kept_seeds(p)[j] == p[k];
        assert(kept_seeds(c)[j] == kept_seeds(p)[j]);
    }
}

/// The memory text of a relationship, written out: `关系：{name} —[{type}]→
/// {other}`, then `；{how}` when the relationship says how it defines the
/// protagonist.
pub open spec fn relationship_memory(card_name: Seq<char>, rel: RelationshipNode) -> Seq<char> {
    let how = if is_blank(rel.defines_protagonist_how@) {
        Seq::empty()
    } else {
        "；"@ + trim(rel.defines_protagonist_how@)
    };
    "关系："@ + trim(card_name) + " —["@ + trim(rel.relation_type@) + "]→ "@ + trim(rel.name@)
        + how
}

/// Every relationship with a named other character is remembered: seeding
/// a card yields a `Seed` entry of importance 7 whose text names the
/// protagonist, the relation and the other character, whether or not the
/// relationship says how it defines the protagonist. (Texts that hold a
/// `：` of their own are read as label and body like every seed, so the law
/// speaks of names and labels without one.)
pub proof fn lemma_relationship_remembered(
    card: TavernCardV2,
    ext: crate::card::NovelAgentCharExt,
    i: int,
    stream: MemoryStream,
    t: u64,
)
    requires
        seeded_entries(stream.entries@, kept_seeds(seed_candidates(card)), t),
        card.data.extensions.novelagent == Some(ext),
        0 <= i < ext.relationships@.len(),
        !is_blank(ext.relationships@[i].name@),
        !trim(card.data.name@).contains(colon()),
        !trim(ext.relationships@[i].name@).contains(colon()),
        !trim(ext.relationships@[i].relation_type@).contains(colon()),
        !trim(ext.relationships@[i].defines_protagonist_how@).contains(colon()),
    ensures
        exists|j: int|
            0 <= j < stream.entries@.len() && (#[trigger] stream.entries@[j]).kind == MemoryKind::Seed
                && stream.entries@[j].importance == 7 && stream.entries@[j].text@
                == relationship_memory(card.data.name@, ext.relationships@[i]),
{
    let rels = ext.relationships@;
    let rel = rels[i];
    let name = trim(card.data.name@);
    let text = relationship_memory(card.data.name@, rel);
    assert(text == rel_seed_text(name, rel));

    reveal_strlit("关系：");
    reveal_strlit(" —[");
    reveal_strlit("]→ ");
    reveal_strlit("；");
    let head = "关系："@;
    assert(head.len() == 3 && head[0] == '关' && head[1] == '系' && head[2] == colon());
    let a1 = " —["@;
    let a2 = "]→ "@;
    let a3 = "；"@;
    assert(a1.len() == 3 && a1[0] == ' ' && a1[1] == '—' && a1[2] == '[');
    assert(a2.len() == 3 && a2[0] == ']' && a2[1] == '→' && a2[2] == ' ');
    assert(a3.len() == 1 && a3[0] == '；');
    lemma_free_of(a1, colon());
    lemma_free_of(a2, colon());
    lemma_free_of(a3, colon());
    let other = trim(rel.name@);
    let ty = trim(rel.relation_type@);
    let how_text = trim(rel.defines_protagonist_how@);
    let how = if is_blank(rel.defines_protagonist_how@) {
        Seq::<char>::empty()
    } else {
        a3 + how_text
    };
    lemma_free_of(Seq::<char>::empty(), colon());
    if !is_blank(rel.defines_protagonist_how@) {
        lemma_concat_free(a3, how_text, colon());
    }
    // the body after `关系：`
    let body = name + a1 + ty + a2 + other + how;
    lemma_concat_free(name, a1, colon());
    lemma_concat_free(name + a1, ty, colon());
    lemma_concat_free(name + a1 + ty, a2, colon());
    lemma_concat_free(name + a1 + ty + a2, other, colon());
    lemma_concat_free(name + a1 + ty + a2 + other, how, colon());
    assert(text =~= head + body);

    // its second `：`-part is the whole body, which holds a `[`
    crate::text::lemma_find_char(text, colon());
    assert(text[2] == colon());
    assert(text[0] == '关' && text[1] == '系');
    assert(find_char(text, colon()) == Some(2int));
    let after = text.subrange(3, text.len() as int);
    assert(after =~= body);
    crate::text::lemma_find_char(after, colon());
    if find_char(after, colon()) is Some {
        let j = find_char(after, colon())->0;
        assert(body.contains(colon())) by {
            assert(body[j] == colon());
        }
    }
    assert(second_part(text) == Some(body));
    let bk: int = name.len() as int + 2;
    assert(body[bk] == '[');
    crate::text::lemma_blank_all_ws(body);
    assert(!is_ws('['));
    assert(!is_blank(body));

    // it ends with the other name or the detail, neither of which is `：`
    lemma_trimmed_ends(rel.name@);
    lemma_trimmed_ends(rel.defines_protagonist_how@);
    assert(other.len() > 0);
    if is_blank(rel.defines_protagonist_how@) {
        assert(text.last() == other.last());
        assert(other.contains(other.last())) by {
            assert(other[other.len() - 1] == other.last());
        }
    } else {
        assert(how_text.len() > 0);
        assert(text.last() == how_text.last());
        assert(how_text.contains(how_text.last())) by {
            assert(how_text[how_text.len() - 1] == how_text.last());
        }
    }
    assert(text.last() != colon());
    assert(!is_ws(text.last()));
    if ends_with(text, seq![colon()]) {
        assert(text.subrange(text.len() - 1, text.len() as int)[0] == text.last());
    }
    // and it opens with `关`, neither whitespace nor `：`
    assert(!is_ws('关'));
    assert(!seed_is_empty(text));

    // the seed is among the candidates, so among the kept seeds
    lemma_rel_seeds_has(name, rels, i);
    let k = choose|k: int|
        0 <= k < rel_seeds(name, rels).len() && #[trigger] rel_seeds(name, rels)[k] == (
            rel_seed_text(name, rels[i]),
            7u8,
        );
    let cands = seed_candidates(card);
    assert(cands[8 + k] == (text, 7u8));
    lemma_kept_seeds_has(cands, 8 + k);
    let j = choose|j: int| 0 <= j < kept_seeds(cands).len() && #[trigger] kept_seeds(cands)[j] == cands[8 + k];

    // the entry's text is the seed trimmed, which is the seed itself
    let e = stream.entries@[j];
    assert(entry_is(e, counter_after(j as nat), t, MemoryKind::Seed, text, 7u8));
    assert(crate::text::trim_start(text) == text);
    assert(crate::text::trim_end(text) == text);
    assert(e.text@ == text);
    assert(clamp_importance(7u8) == 7u8);
}

fn labeled(label: &str, body: &str) -> (s: String)
    ensures
        s@ == label@ + trim(body@),
{
    let mut s = owned(label);
    let t = trim_str(body);
    push_str(&mut s, t.as_str());
    s
}

fn rel_seed(name: &str, rel: &RelationshipNode) -> (s: String)
    ensures
        s@ == rel_seed_text(name@, *rel),
{
    let mut s = owned("关系：");
    push_str(&mut s, name);
    push_str(&mut s, " —[");
    let t = trim_str(rel.relation_type.as_str());
    push_str(&mut s, t.as_str());
    push_str(&mut s, "]→ ");
    let n = trim_str(rel.name.as_str());
    push_str(&mut s, n.as_str());
    if !is_blank_str(rel.defines_protagonist_how.as_str()) {
        push_str(&mut s, "；");
        let h = trim_str(rel.defines_protagonist_how.as_str());
        push_str(&mut s, h.as_str());
    }
    s
}

/// Seed a memory stream from a card: every candidate seed text that carries
/// a body becomes a `Seed` entry, in order, all stamped with `ts` (the
/// clock's when `None`). The stream is bound to the card's name as written.
pub fn seed_memory_from_card(card: &TavernCardV2, ts: Option<u64>) -> (stream: MemoryStream)
    ensures
        stream.character_name@ == card.data.name@,
        stream.next_id == counter_after(kept_seeds(seed_candidates(*card)).len()),
        ts matches Some(t) ==> seeded_entries(stream.entries@, kept_seeds(seed_candidates(*card)), t),
        ts is None ==> exists|t: u64| seeded_entries(stream.entries@, kept_seeds(seed_candidates(*card)), t),
{
    let mut stream = MemoryStream::new(card.data.name.as_str());
    let ts = match ts {
        Some(t) => t,
        None => now_unix(),
    };
    let name = trim_str(card.data.name.as_str());
    let d = &card.data;
    let ghost mut done: Seq<(Seq<char>, u8)> = Seq::empty();
    assert(seeded_entries(stream.entries@, kept_seeds(done), ts));

    let t = {
        let mut s = name.clone();
        push_str(&mut s, "：");
        let b = trim_str(d.description.as_str());
        push_str(&mut s, b.as_str());
        s
    };
    push_seed(&mut stream, t.as_str(), 7, ts, Ghost(done));
    proof { done = done.push((t@, 7u8)); }
    let t = labeled("性格：", d.personality.as_str());
    push_seed(&mut stream, t.as_str(), 6, ts, Ghost(done));
    proof { done = done.push((t@, 6u8)); }
    let t = labeled("场景：", d.scenario.as_str());
    push_seed(&mut stream, t.as_str(), 6, ts, Ghost(done));
    proof { done = done.push((t@, 6u8)); }
    let ghost base3 = done;

    match &d.extensions.novelagent {
        None => {},
        Some(ext) => {
            let t = labeled("欲望：", ext.desire.as_str());
            push_seed(&mut stream, t.as_str(), 8, ts, Ghost(done));
            proof { done = done.push((t@, 8u8)); }
            let t = labeled("内在需求：", ext.need.as_str());
            push_seed(&mut stream, t.as_str(), 8, ts, Ghost(done));
            proof { done = done.push((t@, 8u8)); }
            let t = labeled("弱点：", ext.weakness.as_str());
            push_seed(&mut stream, t.as_str(), 7, ts, Ghost(done));
            proof { done = done.push((t@, 7u8)); }
            let t = labeled("主题张力：", ext.moral_axis.as_str());
            push_seed(&mut stream, t.as_str(), 6, ts, Ghost(done));
            proof { done = done.push((t@, 6u8)); }
            let t = labeled("所知边界：", ext.knowledge_bounds.as_str());
            push_seed(&mut stream, t.as_str(), 7, ts, Ghost(done));
            proof { done = done.push((t@, 7u8)); }
            let ghost base8 = done;
            let rels = &ext.relationships;
            let mut i: usize = 0;
            while i < rels.len()
                invariant
                    i <= rels@.len(),
                    base8.len() == 8,
                    done == base8 + rel_seeds(name@, rels@.take(i as int)),
                    seeded_entries(stream.entries@, kept_seeds(done), ts),
                    stream.next_id == counter_after(kept_seeds(done).len()),
                    stream.character_name@ == card.data.name@,
                decreases rels@.len() - i,
            {
                let rel = &rels[i];
                assert(rels@.take(i + 1).drop_last() =~= rels@.take(i as int));
                assert(rels@.take(i + 1).last() == *rel);
                if !is_blank_str(rel.name.as_str()) {
                    let t = rel_seed(name.as_str(), rel);
                    push_seed(&mut stream, t.as_str(), 7, ts, Ghost(done));
                    proof {
                        assert(base8 + rel_seeds(name@, rels@.take(i + 1)) =~= done.push((t@, 7u8)));
                        done = done.push((t@, 7u8));
                    }
                }
                i += 1;
            }
            assert(rels@.take(rels@.len() as int) =~= rels@);
        },
    }
    proof {
        assert(done =~= seed_candidates(*card));
        assert(seeded_entries(stream.entries@, kept_seeds(seed_candidates(*card)), ts));
    }
    stream
}

} // verus!
