//! Deterministic post-loop seeding: lorebook, memory stream and knowledge
//! graph derived from a finished card.

use vstd::prelude::*;

use crate::card::TavernCardV2;
use crate::constraints::card_violation;
use crate::kg::{build_kg_from_card, edges_view, kg_of_card, nodes_view, KnowledgeGraph};
use crate::lorebook::{attach_lorebook, book_matches, lore_drafts};
use crate::memory::{counter_after, kept_seeds, seed_candidates, seed_memory_from_card, seeded_entries, MemoryStream};
use crate::text::trim;

verus! {

/// Sidecar artifacts produced alongside an enriched card.
#[derive(Debug, Clone, PartialEq, Eq)]
pub struct CardArtifacts {
    /// Memory stream metadata.
    pub memory: MemoryStream,
    /// Ego knowledge graph.
    pub kg: KnowledgeGraph,
}

/// Attach the lorebook to `card` and build the memory and graph sidecars.
///
/// Only `data.character_book` of the card changes, so its validity is what
/// it was before; the sidecars are those of the card as given.
pub fn seed_card_artifacts(card: &mut TavernCardV2, ts: Option<u64>) -> (art: CardArtifacts)
    ensures
        lore_drafts(*old(card)).len() == 0 ==> *final(card) == *old(card),
        lore_drafts(*old(card)).len() > 0 ==> (final(card).data.character_book matches Some(book)
            && book_matches(book, *old(card))),
        final(card).spec == old(card).spec,
        final(card).spec_version == old(card).spec_version,
        final(card).data == (crate::card::CharDataV2 {
            character_book: final(card).data.character_book,
            ..old(card).data
        }),
        card_violation(*final(card)) == card_violation(*old(card)),
        art.memory.character_name@ == old(card).data.name@,
        art.memory.next_id == counter_after(kept_seeds(seed_candidates(*old(card))).len()),
        ts matches Some(t) ==> seeded_entries(art.memory.entries@, kept_seeds(seed_candidates(*old(card))), t),
        ts is None ==> exists|t: u64| seeded_entries(art.memory.entries@, kept_seeds(seed_candidates(*old(card))), t),
        art.kg.character_name@ == trim(old(card).data.name@),
        (nodes_view(art.kg.nodes@), edges_view(art.kg.edges@)) == kg_of_card(*old(card)),
{
    let ghost before = *card;
    attach_lorebook(card);
    assert(card.data.name == before.data.name);
    assert(card.data.extensions == before.data.extensions);
    assert(seed_candidates(*card) == seed_candidates(before));
    assert(kg_of_card(*card) == kg_of_card(before));
    let memory = seed_memory_from_card(card, ts);
    let kg = build_kg_from_card(card);
    CardArtifacts { memory, kg }
}

} // verus!
