//! Build ST `character_book` entries from card fields + `novelagent`
//! extensions.
//!
//! Pure, deterministic seeding (no LLM). Target: 3–10 thin entries.

use vstd::prelude::*;

use crate::card::{
    CharacterBook, EMPTY_JSON_OBJECT, LoreEntry, NovelAgentCharExt, RelationshipNode, TavernCardV2,
};
use crate::text::{
    is_blank, is_blank_str, join, join_strings, lemma_trim_idempotent, owned, push_str, trim,
    trim_str, views,
};

verus! {

/// Default token budget for generated character books (C-BUDGET).
pub const DEFAULT_LORE_TOKEN_BUDGET: u32 = 512;

/// Default scan depth for keyword matching.
pub const DEFAULT_LORE_SCAN_DEPTH: u32 = 50;

/// Cap on generated entries.
pub const MAX_LORE_ENTRIES: usize = 10;

/// Description written on generated books.
pub const LOREBOOK_DESCRIPTION: &'static str = "由 NovelAgent 从人物卡字段种子生成（Phase 4a）";

/// Relation shown when a relationship leaves its type blank.
pub const UNLABELED_RELATION: &'static str = "未标注类型";

/// What a generated entry carries: (keys, content, comment, constant).
pub type LoreDraft = (Seq<Seq<char>>, Seq<char>, Seq<char>, bool);

pub open spec fn opt_view(o: Option<String>) -> Option<Seq<char>> {
    match o {
        Some(s) => Some(s@),
        None => None,
    }
}

/// The trimmed field, or `None` when it is blank.
pub open spec fn trimmed_text(s: Seq<char>) -> Option<Seq<char>> {
    if is_blank(s) {
        None
    } else {
        Some(trim(s))
    }
}

/// Keys trimmed, blank ones dropped, order kept.
pub open spec fn clean_keys(keys: Seq<Seq<char>>) -> Seq<Seq<char>>
    decreases keys.len(),
{
    if keys.len() == 0 {
        Seq::empty()
    } else if trim(keys.last()).len() == 0 {
        clean_keys(keys.drop_last())
    } else {
        clean_keys(keys.drop_last()).push(trim(keys.last()))
    }
}

/// An entry is drafted when it has content and at least one non-blank key.
pub open spec fn draft(keys: Seq<Seq<char>>, content: Option<Seq<char>>, comment: Seq<char>, constant: bool) -> Option<LoreDraft> {
    match content {
        None => None,
        Some(c) => if clean_keys(keys).len() == 0 {
            None
        } else {
            Some((clean_keys(keys), c, comment, constant))
        },
    }
}

/// The drafted entries among the candidates, in order.
pub open spec fn somes(c: Seq<Option<LoreDraft>>) -> Seq<LoreDraft>
    decreases c.len(),
{
    if c.len() == 0 {
        Seq::empty()
    } else {
        match c.last() {
            Some(d) => somes(c.drop_last()).push(d),
            None => somes(c.drop_last()),
        }
    }
}

/// At most the first [`MAX_LORE_ENTRIES`] drafts.
pub open spec fn capped(d: Seq<LoreDraft>) -> Seq<LoreDraft> {
    if d.len() <= 10 {
        d
    } else {
        d.take(10)
    }
}

/// Candidates from the extension's five text fields.
pub open spec fn ext_field_candidates(name: Seq<char>, ext: NovelAgentCharExt) -> Seq<Option<LoreDraft>> {
    seq![
        draft(seq!["欲望"@, "目标"@, name], trimmed_text(ext.desire@), "desire"@, false),
        draft(seq!["需求"@, "内在"@, name], trimmed_text(ext.need@), "need"@, false),
        draft(seq!["弱点"@, "软肋"@, name], trimmed_text(ext.weakness@), "weakness"@, false),
        draft(seq!["主题"@, "道德"@, name], trimmed_text(ext.moral_axis@), "moral_axis"@, false),
        draft(
            seq!["所知"@, "边界"@, "不知道"@, name],
            trimmed_text(ext.knowledge_bounds@),
            "knowledge_bounds"@,
            true,
        ),
    ]
}

/// Voice markers that are not blank, untrimmed, in order.
pub open spec fn nonblank_markers(m: Seq<String>) -> Seq<Seq<char>>
    decreases m.len(),
{
    if m.len() == 0 {
        Seq::empty()
    } else if is_blank(m.last()@) {
        nonblank_markers(m.drop_last())
    } else {
        nonblank_markers(m.drop_last()).push(m.last()@)
    }
}

/// The voice candidate: only present when there is any marker.
pub open spec fn voice_candidates(name: Seq<char>, ext: NovelAgentCharExt) -> Seq<Option<LoreDraft>> {
    if ext.voice_markers@.len() == 0 {
        Seq::empty()
    } else {
        seq![
            draft(
                seq!["声浪"@, "口吻"@, name],
                trimmed_text(join(nonblank_markers(ext.voice_markers@), "；"@)),
                "voice"@,
                true,
            ),
        ]
    }
}

/// Relation text of a relationship entry.
pub open spec fn rel_type_text(rel: RelationshipNode) -> Seq<char> {
    if is_blank(rel.relation_type@) {
        UNLABELED_RELATION@
    } else {
        trim(rel.relation_type@)
    }
}

/// Content of a relationship entry.
pub open spec fn rel_content(name: Seq<char>, rel: RelationshipNode) -> Seq<char> {
    let base = name + " 与 "@ + trim(rel.name@) + " 的关系："@ + rel_type_text(rel);
    if is_blank(rel.defines_protagonist_how@) {
        base
    } else {
        base + "。"@ + trim(rel.defines_protagonist_how@)
    }
}

/// Non-blank values among the other name, its trimmed type and the card name.
pub open spec fn rel_keys(name: Seq<char>, rel: RelationshipNode) -> Seq<Seq<char>> {
    let ks = seq![trim(rel.name@), trim(rel.relation_type@), name];
    clean_keys(ks)
}

/// Candidates from relationships: one per relationship with a non-blank name.
pub open spec fn rel_candidates(name: Seq<char>, rels: Seq<RelationshipNode>) -> Seq<Option<LoreDraft>>
    decreases rels.len(),
{
    if rels.len() == 0 {
        Seq::empty()
    } else {
        let rel = rels.last();
        let prev = rel_candidates(name, rels.drop_last());
        if is_blank(rel.name@) {
            prev
        } else {
            prev.push(
                draft(
                    seq![trim(rel.name@), trim(rel.relation_type@), name],
                    Some(rel_content(name, rel)),
                    "relationship"@,
                    false,
                ),
            )
        }
    }
}

/// Every candidate entry of a card, in insertion order.
pub open spec fn lore_candidates(card: TavernCardV2) -> Seq<Option<LoreDraft>> {
    let name = trim(card.data.name@);
    let identity_content = match trimmed_text(card.data.description@) {
        Some(d) => Some(d),
        None => trimmed_text(card.data.personality@),
    };
    let base = seq![
        draft(seq![name, "身份"@, "简介"@], identity_content, "identity"@, true),
        draft(seq!["场景"@, "开局"@, name], trimmed_text(card.data.scenario@), "scenario"@, false),
    ];
    match card.data.extensions.novelagent {
        None => base,
        Some(ext) => base + ext_field_candidates(name, ext) + voice_candidates(name, ext)
            + rel_candidates(name, ext.relationships@),
    }
}

/// The drafts that become entries of the card's lorebook.
pub open spec fn lore_drafts(card: TavernCardV2) -> Seq<LoreDraft> {
    capped(somes(lore_candidates(card)))
}

/// `e` is the generated entry for draft `d` at position `idx`.
pub open spec fn entry_matches(e: LoreEntry, d: LoreDraft, idx: int) -> bool {
    &&& views(e.keys@) == d.0
    &&& e.content@ == d.1
    &&& e.enabled
    &&& e.insertion_order == idx
    &&& e.case_sensitive == Some(false)
    &&& opt_view(e.name) == Some(d.2)
    &&& e.priority is None
    &&& e.id == Some(idx as i32)
    &&& opt_view(e.comment) == Some(d.2)
    &&& e.selective == Some(false)
    &&& e.secondary_keys is None
    &&& e.constant == Some(d.3)
    &&& e.position is None
    &&& e.extensions@ == EMPTY_JSON_OBJECT@
}

/// `entries` are exactly the generated entries for `drafts`.
pub open spec fn entries_match(entries: Seq<LoreEntry>, drafts: Seq<LoreDraft>) -> bool {
    &&& entries.len() == drafts.len()
    &&& forall|i: int| 0 <= i < entries.len() ==> entry_matches(#[trigger] entries[i], drafts[i], i)
}

/// The book built for a card with these drafts.
pub open spec fn book_matches(book: CharacterBook, card: TavernCardV2) -> bool {
    &&& opt_view(book.name) == Some(trim(card.data.name@) + " 的 lorebook"@)
    &&& opt_view(book.description) == Some(LOREBOOK_DESCRIPTION@)
    &&& book.scan_depth == Some(DEFAULT_LORE_SCAN_DEPTH)
    &&& book.token_budget == Some(DEFAULT_LORE_TOKEN_BUDGET)
    &&& book.recursive_scanning == Some(false)
    &&& book.extensions@ == EMPTY_JSON_OBJECT@
    &&& entries_match(book.entries@, lore_drafts(card))
}

proof fn lemma_capped_push(d: Seq<LoreDraft>, x: LoreDraft)
    ensures
        capped(d.push(x)) == if d.len() < 10 {
            capped(d).push(x)
        } else {
            capped(d)
        },
{
    if d.len() >= 10 {
        assert(d.push(x).take(10) =~= capped(d));
    }
}

proof fn lemma_somes_first(c: Seq<Option<LoreDraft>>)
    requires
        c.len() > 0,
        c[0] is Some,
    ensures
        somes(c).len() > 0,
        somes(c)[0] == c[0]->0,
    decreases c.len(),
{
    let p = c.drop_last();
    if c.len() == 1 {
        assert(somes(p).len() == 0);
        assert(c.last() == c[0]);
        assert(somes(c) == somes(p).push(c[0]->0));
    } else {
        assert(p[0] == c[0]);
        lemma_somes_first(p);
        match c.last() {
            Some(d) => {
                assert(somes(c) == somes(p).push(d));
                assert(somes(c)[0] == somes(p)[0]);
            },
            None => {
                assert(somes(c) == somes(p));
            },
        }
    }
}

/// The identity entry: it leads the lorebook whenever the card has a
/// description or a personality, and its content is the trimmed
/// description, or the trimmed personality only when the description is
/// blank.
pub proof fn lemma_identity_entry(card: TavernCardV2, book: CharacterBook)
    requires
        book_matches(book, card),
    ensures
        !is_blank(card.data.description@) ==> {
            &&& lore_drafts(card).len() > 0
            &&& book.entries@.len() > 0
            &&& book.entries@[0].content@ == trim(card.data.description@)
            &&& opt_view(book.entries@[0].comment) == Some("identity"@)
            &&& book.entries@[0].constant == Some(true)
        },
        is_blank(card.data.description@) && !is_blank(card.data.personality@) ==> {
            &&& lore_drafts(card).len() > 0
            &&& book.entries@.len() > 0
            &&& book.entries@[0].content@ == trim(card.data.personality@)
            &&& opt_view(book.entries@[0].comment) == Some("identity"@)
            &&& book.entries@[0].constant == Some(true)
        },
{
    let name = trim(card.data.name@);
    let keys = seq![name, "身份"@, "简介"@];
    reveal_strlit("简介");
    let k = "简介"@;
    assert(k.len() == 2 && k[0] == '简' && k[1] == '介');
    assert(!crate::text::is_ws('简'));
    assert(!crate::text::is_ws('介'));
    assert(crate::text::trim_start(k) == k);
    assert(crate::text::trim_end(k) == k);
    assert(keys.last() == k);
    assert(keys.drop_last().push(k) =~= keys);
    assert(clean_keys(keys).len() > 0);
    let cands = lore_candidates(card);
    if !is_blank(card.data.description@) || !is_blank(card.data.personality@) {
        assert(cands[0] is Some);
        lemma_somes_first(cands);
        let d = somes(cands);
        assert(capped(d)[0] == d[0]);
        assert(entry_matches(book.entries@[0], lore_drafts(card)[0], 0));
    }
}

fn non_empty(s: &str) -> (r: Option<String>)
    ensures
        opt_view(r) == trimmed_text(s@),
{
    if is_blank_str(s) {
        None
    } else {
        Some(trim_str(s))
    }
}

fn clean_key_list(keys: &Vec<String>) -> (r: Vec<String>)
    ensures
        views(r@) == clean_keys(views(keys@)),
{
    let mut out: Vec<String> = Vec::new();
    let mut i: usize = 0;
    while i < keys.len()
        invariant
            i <= keys@.len(),
            views(out@) == clean_keys(views(keys@.take(i as int))),
        decreases keys@.len() - i,
    {
        let t = trim_str(keys[i].as_str());
        let ghost prev = out@;
        proof {
            let vk = views(keys@.take(i + 1));
            assert(vk.drop_last() =~= views(keys@.take(i as int)));
            assert(vk.last() == keys@[i as int]@);
        }
        if !t.as_str().is_empty() {
            out.push(t);
            assert(views(out@) =~= views(prev).push(t@));
        }
        i += 1;
    }
    assert(keys@.take(keys@.len() as int) =~= keys@);
    out
}

/// A generated entry for the given keys / content, before it gets a position.
fn lore_entry(keys: Vec<String>, content: Option<String>, comment: &str, constant: bool) -> (r: Option<LoreEntry>)
    ensures
        match draft(views(keys@), opt_view(content), comment@, constant) {
            None => r is None,
            Some(d) => r matches Some(e) && entry_matches(e, d, 0),
        },
{
    match content {
        None => None,
        Some(c) => {
            let ks = clean_key_list(&keys);
            if ks.len() == 0 {
                None
            } else {
                Some(
                    LoreEntry {
                        keys: ks,
                        content: c,
                        enabled: true,
                        insertion_order: 0,
                        case_sensitive: Some(false),
                        name: Some(owned(comment)),
                        priority: None,
                        id: Some(0),
                        comment: Some(owned(comment)),
                        selective: Some(false),
                        secondary_keys: None,
                        constant: Some(constant),
                        position: None,
                        extensions: owned(EMPTY_JSON_OBJECT),
                    },
                )
            }
        },
    }
}

/// Append `entry` at the next position unless the book is full.
fn push_if(entries: &mut Vec<LoreEntry>, entry: Option<LoreEntry>, Ghost(seen): Ghost<Seq<Option<LoreDraft>>>, Ghost(cand): Ghost<Option<LoreDraft>>)
    requires
        entries_match(old(entries)@, capped(somes(seen))),
        match cand {
            None => entry is None,
            Some(d) => entry matches Some(e) && entry_matches(e, d, 0),
        },
    ensures
        entries_match(final(entries)@, capped(somes(seen.push(cand)))),
{
    let ghost before = entries@;
    assert(seen.push(cand).drop_last() =~= seen);
    match entry {
        None => {},
        Some(mut e) => {
            let ghost d = cand.unwrap();
            proof {
                lemma_capped_push(somes(seen), d);
            }
            if entries.len() < MAX_LORE_ENTRIES {
                proof {
                    if somes(seen).len() > 10 {
                        assert(capped(somes(seen)).len() == 10);
                    }
                }
                let order = entries.len() as i32;
                e.insertion_order = order;
                e.id = Some(order);
                entries.push(e);
                assert forall|i: int| 0 <= i < entries@.len() implies entry_matches(
                    #[trigger] entries@[i],
                    capped(somes(seen.push(cand)))[i],
                    i,
                ) by {
                    if i < before.len() {
                        assert(entries@[i] == before[i]);
                    }
                }
            } else {
                assert(somes(seen).len() >= 10);
            }
        },
    }
}

fn key_list3(a: &str, b: &str, c: &str) -> (v: Vec<String>)
    ensures
        views(v@) == seq![a@, b@, c@],
{
    let mut v: Vec<String> = Vec::new();
    v.push(owned(a));
    v.push(owned(b));
    v.push(owned(c));
    assert(views(v@) =~= seq![a@, b@, c@]);
    v
}

fn key_list4(a: &str, b: &str, c: &str, d: &str) -> (v: Vec<String>)
    ensures
        views(v@) == seq![a@, b@, c@, d@],
{
    let mut v: Vec<String> = Vec::new();
    v.push(owned(a));
    v.push(owned(b));
    v.push(owned(c));
    v.push(owned(d));
    assert(views(v@) =~= seq![a@, b@, c@, d@]);
    v
}

fn nonblank_marker_list(m: &Vec<String>) -> (r: Vec<String>)
    ensures
        views(r@) == nonblank_markers(m@),
{
    let mut out: Vec<String> = Vec::new();
    let mut i: usize = 0;
    while i < m.len()
        invariant
            i <= m@.len(),
            views(out@) == nonblank_markers(m@.take(i as int)),
        decreases m@.len() - i,
    {
        let ghost prev = out@;
        assert(m@.take(i + 1).drop_last() =~= m@.take(i as int));
        if !is_blank_str(m[i].as_str()) {
            out.push(m[i].clone());
            assert(views(out@) =~= views(prev).push(m@[i as int]@));
        }
        i += 1;
    }
    assert(m@.take(m@.len() as int) =~= m@);
    out
}

fn relationship_entry(name: &str, rel: &RelationshipNode) -> (r: Option<LoreEntry>)
    requires
        !is_blank(rel.name@),
        name@ == trim(name@),
    ensures
        match draft(
            seq![trim(rel.name@), trim(rel.relation_type@), name@],
            Some(rel_content(name@, *rel)),
            "relationship"@,
            false,
        ) {
            None => r is None,
            Some(d) => r matches Some(e) && entry_matches(e, d, 0),
        },
{
    let rel_name = trim_str(rel.name.as_str());
    let rel_type_trim = trim_str(rel.relation_type.as_str());
    let rel_type = if rel_type_trim.as_str().is_empty() {
        owned(UNLABELED_RELATION)
    } else {
        rel_type_trim.clone()
    };
    let mut content = owned(name);
    push_str(&mut content, " 与 ");
    push_str(&mut content, rel_name.as_str());
    push_str(&mut content, " 的关系：");
    push_str(&mut content, rel_type.as_str());
    if !is_blank_str(rel.defines_protagonist_how.as_str()) {
        push_str(&mut content, "。");
        let how = trim_str(rel.defines_protagonist_how.as_str());
        push_str(&mut content, how.as_str());
    }
    proof {
        crate::text::lemma_blank_all_ws(rel.relation_type@);
    }
    let keys = key_list3(rel_name.as_str(), rel_type_trim.as_str(), name);
    lore_entry(keys, Some(content), "relationship", false)
}

/// Appends one entry per relationship with a non-blank name (while the book
/// has room).
fn push_relationship_entries(
    entries: &mut Vec<LoreEntry>,
    name: &str,
    rels: &Vec<RelationshipNode>,
    Ghost(seen): Ghost<Seq<Option<LoreDraft>>>,
)
    requires
        name@ == trim(name@),
        entries_match(old(entries)@, capped(somes(seen))),
    ensures
        entries_match(final(entries)@, capped(somes(seen + rel_candidates(name@, rels@)))),
{
    let ghost mut cur = seen;
    assert(rels@.take(0) =~= Seq::<RelationshipNode>::empty());
    assert(seen + rel_candidates(name@, rels@.take(0)) =~= seen);
    let mut i: usize = 0;
    while i < rels.len()
        invariant
            i <= rels@.len(),
            name@ == trim(name@),
            cur == seen + rel_candidates(name@, rels@.take(i as int)),
            entries_match(entries@, capped(somes(cur))),
        decreases rels@.len() - i,
    {
        let rel = &rels[i];
        assert(rels@.take(i + 1).drop_last() =~= rels@.take(i as int));
        assert(rels@.take(i + 1).last() == *rel);
        if !is_blank_str(rel.name.as_str()) {
            let ghost cr = draft(
                seq![trim(rel.name@), trim(rel.relation_type@), name@],
                Some(rel_content(name@, *rel)),
                "relationship"@,
                false,
            );
            let e = relationship_entry(name, rel);
            push_if(entries, e, Ghost(cur), Ghost(cr));
            proof {
                assert(seen + rel_candidates(name@, rels@.take(i + 1)) =~= cur.push(cr));
                cur = cur.push(cr);
            }
        }
        i += 1;
    }
    assert(rels@.take(rels@.len() as int) =~= rels@);
}

/// Appends the entries drawn from the NovelAgent extension: its five text
/// fields, the voice markers, then the relationships.
fn push_ext_entries(
    entries: &mut Vec<LoreEntry>,
    name: &str,
    ext: &NovelAgentCharExt,
    Ghost(seen): Ghost<Seq<Option<LoreDraft>>>,
)
    requires
        name@ == trim(name@),
        entries_match(old(entries)@, capped(somes(seen))),
    ensures
        entries_match(
            final(entries)@,
            capped(
                somes(
                    seen + ext_field_candidates(name@, *ext) + voice_candidates(name@, *ext)
                        + rel_candidates(name@, ext.relationships@),
                ),
            ),
        ),
{
    let ghost fc = ext_field_candidates(name@, *ext);
    let ghost mut cur = seen;
    let e = lore_entry(key_list3("欲望", "目标", name), non_empty(ext.desire.as_str()), "desire", false);
    push_if(entries, e, Ghost(cur), Ghost(fc[0]));
    proof { cur = cur.push(fc[0]); }
    let e = lore_entry(key_list3("需求", "内在", name), non_empty(ext.need.as_str()), "need", false);
    push_if(entries, e, Ghost(cur), Ghost(fc[1]));
    proof { cur = cur.push(fc[1]); }
    let e = lore_entry(key_list3("弱点", "软肋", name), non_empty(ext.weakness.as_str()), "weakness", false);
    push_if(entries, e, Ghost(cur), Ghost(fc[2]));
    proof { cur = cur.push(fc[2]); }
    let e = lore_entry(key_list3("主题", "道德", name), non_empty(ext.moral_axis.as_str()), "moral_axis", false);
    push_if(entries, e, Ghost(cur), Ghost(fc[3]));
    proof { cur = cur.push(fc[3]); }
    let e = lore_entry(
        key_list4("所知", "边界", "不知道", name),
        non_empty(ext.knowledge_bounds.as_str()),
        "knowledge_bounds",
        true,
    );
    push_if(entries, e, Ghost(cur), Ghost(fc[4]));
    proof { cur = cur.push(fc[4]); }

    let ghost vc = voice_candidates(name@, *ext);
    if ext.voice_markers.len() > 0 {
        let markers = nonblank_marker_list(&ext.voice_markers);
        let joined = join_strings(&markers, "；");
        let e = lore_entry(key_list3("声浪", "口吻", name), non_empty(joined.as_str()), "voice", true);
        push_if(entries, e, Ghost(cur), Ghost(vc[0]));
        proof { cur = cur.push(vc[0]); }
    }
    assert(cur =~= seen + fc + vc);
    push_relationship_entries(entries, name, &ext.relationships, Ghost(cur));
}

/// The lorebook entries of a card, in order, at most [`MAX_LORE_ENTRIES`].
fn collect_entries(card: &TavernCardV2) -> (entries: Vec<LoreEntry>)
    ensures
        entries_match(entries@, lore_drafts(*card)),
{
    let name = trim_str(card.data.name.as_str());
    proof {
        lemma_trim_idempotent(card.data.name@);
    }
    let mut entries: Vec<LoreEntry> = Vec::new();
    let ghost mut seen: Seq<Option<LoreDraft>> = Seq::empty();
    assert(entries_match(entries@, capped(somes(seen))));

    let desc = non_empty(card.data.description.as_str());
    let identity = match desc {
        Some(d) => Some(d),
        None => non_empty(card.data.personality.as_str()),
    };
    let ghost c0 = draft(
        seq![name@, "身份"@, "简介"@],
        match trimmed_text(card.data.description@) {
            Some(d) => Some(d),
            None => trimmed_text(card.data.personality@),
        },
        "identity"@,
        true,
    );
    let e0 = lore_entry(key_list3(name.as_str(), "身份", "简介"), identity, "identity", true);
    push_if(&mut entries, e0, Ghost(seen), Ghost(c0));
    proof { seen = seen.push(c0); }

    let ghost c1 = draft(seq!["场景"@, "开局"@, name@], trimmed_text(card.data.scenario@), "scenario"@, false);
    let e1 = lore_entry(
        key_list3("场景", "开局", name.as_str()),
        non_empty(card.data.scenario.as_str()),
        "scenario",
        false,
    );
    push_if(&mut entries, e1, Ghost(seen), Ghost(c1));
    proof { seen = seen.push(c1); }

    match &card.data.extensions.novelagent {
        None => {
            assert(seen =~= lore_candidates(*card));
        },
        Some(ext) => {
            push_ext_entries(&mut entries, name.as_str(), ext, Ghost(seen));
            assert(seen + ext_field_candidates(name@, *ext) + voice_candidates(name@, *ext)
                + rel_candidates(name@, ext.relationships@) =~= lore_candidates(*card));
        },
    }
    entries
}

/// Build a lorebook from a card (name + static fields + extensions).
///
/// Returns `None` when there is nothing to seed; otherwise a book whose
/// entries are the first [`MAX_LORE_ENTRIES`] drafted candidates, each at
/// its position.
pub fn build_lorebook(card: &TavernCardV2) -> (r: Option<CharacterBook>)
    ensures
        lore_drafts(*card).len() == 0 ==> r is None,
        lore_drafts(*card).len() > 0 ==> (r matches Some(book) && book_matches(book, *card)),
        r matches Some(book) ==> 1 <= book.entries@.len() <= MAX_LORE_ENTRIES,
{
    let entries = collect_entries(card);
    if entries.len() == 0 {
        return None;
    }
    let mut book_name = trim_str(card.data.name.as_str());
    push_str(&mut book_name, " 的 lorebook");
    Some(
        CharacterBook {
            name: Some(book_name),
            description: Some(owned(LOREBOOK_DESCRIPTION)),
            scan_depth: Some(DEFAULT_LORE_SCAN_DEPTH),
            token_budget: Some(DEFAULT_LORE_TOKEN_BUDGET),
            recursive_scanning: Some(false),
            extensions: owned(EMPTY_JSON_OBJECT),
            entries,
        },
    )
}

/// Attach a generated lorebook onto `card.data.character_book` when there
/// is anything to seed; the card is otherwise unchanged.
pub fn attach_lorebook(card: &mut TavernCardV2)
    ensures
        lore_drafts(*old(card)).len() == 0 ==> *final(card) == *old(card),
        lore_drafts(*old(card)).len() > 0 ==> (final(card).data.character_book matches Some(book)
            && book_matches(book, *old(card))),
        final(card).spec == old(card).spec,
        final(card).spec_version == old(card).spec_version,
        final(card).data == (crate::card::CharDataV2 {
            character_book: final(card).data.character_book,
            ..old(card).data
        }),
{
    match build_lorebook(card) {
        Some(book) => {
            card.data.character_book = Some(book);
        },
        None => {},
    }
}

} // verus!
