//! Hard validation for character cards (schema-level, no LLM).

use vstd::prelude::*;

use crate::card::{CARD_SPEC, CARD_SPEC_VERSION, TavernCardV2};
use crate::error::CharacterError;
use crate::text::{is_blank, is_blank_str, push_str, str_eq};

verus! {

/// Known constraint IDs used in `extensions.novelagent.constraints`.
pub const KNOWN_CONSTRAINT_IDS: [&'static str; 10] = [
    "C-VOICE",
    "C-SUBTEXT",
    "C-DESIRE-NEED",
    "C-NETWORK",
    "C-TOM",
    "C-NO-USER",
    "C-NO-BUTTON",
    "C-EMOTION",
    "C-BUDGET",
    "C-SCHEMA",
];

/// `id` is one of [`KNOWN_CONSTRAINT_IDS`].
pub open spec fn is_known_constraint(id: Seq<char>) -> bool {
    exists|i: int| 0 <= i < 10 && #[trigger] KNOWN_CONSTRAINT_IDS[i]@ == id
}

/// The first id of `ids` that is not a known constraint.
pub open spec fn first_unknown(ids: Seq<String>) -> Option<String>
    decreases ids.len(),
{
    if ids.len() == 0 {
        None
    } else if !is_known_constraint(ids[0]@) {
        Some(ids[0])
    } else {
        first_unknown(ids.drop_first())
    }
}

/// The message of the first hard rule that `card` breaks, or `None` when the
/// card is valid. Rules, in order: the spec constant, the spec version, a
/// non-blank name, and every constraint id known.
pub open spec fn card_violation(card: TavernCardV2) -> Option<Seq<char>> {
    if card.spec@ != CARD_SPEC@ {
        Some("spec must be `"@ + CARD_SPEC@ + "`, got `"@ + card.spec@ + "`"@)
    } else if card.spec_version@ != CARD_SPEC_VERSION@ {
        Some(
            "spec_version must be `"@ + CARD_SPEC_VERSION@ + "`, got `"@ + card.spec_version@
                + "`"@,
        )
    } else if is_blank(card.data.name@) {
        Some("data.name must be non-empty"@)
    } else {
        match card.data.extensions.novelagent {
            Some(ext) => match first_unknown(ext.constraints@) {
                Some(id) => Some("unknown constraint id `"@ + id@ + "`"@),
                None => None,
            },
            None => None,
        }
    }
}

/// A card that passes every hard rule.
pub open spec fn card_is_valid(card: TavernCardV2) -> bool {
    card_violation(card) is None
}

/// Whether `id` is a known constraint id.
pub fn known_constraint(id: &str) -> (r: bool)
    ensures
        r == is_known_constraint(id@),
{
    let mut i: usize = 0;
    while i < 10
        invariant
            i <= 10,
            forall|j: int| 0 <= j < i ==> KNOWN_CONSTRAINT_IDS[j]@ != id@,
        decreases 10 - i,
    {
        if str_eq(KNOWN_CONSTRAINT_IDS[i], id) {
            return true;
        }
        i += 1;
    }
    false
}

/// Validate a card for export / storage.
///
/// Fails with [`CharacterError::Validation`] exactly when
/// [`card_violation`] names a broken rule, carrying that message.
pub fn validate_card(card: &TavernCardV2) -> (r: Result<(), CharacterError>)
    ensures
        match card_violation(*card) {
            None => r is Ok,
            Some(m) => r matches Err(CharacterError::Validation(msg)) && msg@ == m,
        },
{
    if !str_eq(card.spec.as_str(), CARD_SPEC) {
        let mut m = String::new();
        push_str(&mut m, "spec must be `");
        push_str(&mut m, CARD_SPEC);
        push_str(&mut m, "`, got `");
        push_str(&mut m, card.spec.as_str());
        push_str(&mut m, "`");
        return Err(CharacterError::Validation(m));
    }
    if !str_eq(card.spec_version.as_str(), CARD_SPEC_VERSION) {
        let mut m = String::new();
        push_str(&mut m, "spec_version must be `");
        push_str(&mut m, CARD_SPEC_VERSION);
        push_str(&mut m, "`, got `");
        push_str(&mut m, card.spec_version.as_str());
        push_str(&mut m, "`");
        return Err(CharacterError::Validation(m));
    }
    if is_blank_str(card.data.name.as_str()) {
        let mut m = String::new();
        push_str(&mut m, "data.name must be non-empty");
        return Err(CharacterError::Validation(m));
    }
    match &card.data.extensions.novelagent {
        Some(ext) => {
            let mut i: usize = 0;
            assert(ext.constraints@.subrange(0, ext.constraints@.len() as int) =~= ext.constraints@);
            while i < ext.constraints.len()
                invariant
                    card.spec@ == CARD_SPEC@,
                    card.spec_version@ == CARD_SPEC_VERSION@,
                    !is_blank(card.data.name@),
                    card.data.extensions.novelagent == Some(*ext),
                    i <= ext.constraints@.len(),
                    first_unknown(ext.constraints@) == first_unknown(
                        ext.constraints@.subrange(i as int, ext.constraints@.len() as int),
                    ),
                decreases ext.constraints@.len() - i,
            {
                let ghost rest = ext.constraints@.subrange(i as int, ext.constraints@.len() as int);
                assert(rest[0] == ext.constraints@[i as int]);
                if !known_constraint(ext.constraints[i].as_str()) {
                    let mut m = String::new();
                    push_str(&mut m, "unknown constraint id `");
                    push_str(&mut m, ext.constraints[i].as_str());
                    push_str(&mut m, "`");
                    assert(first_unknown(rest) == Some(ext.constraints@[i as int]));
                    assert(m@ =~= "unknown constraint id `"@ + ext.constraints@[i as int]@ + "`"@);
                    return Err(CharacterError::Validation(m));
                }
                assert(rest.drop_first() =~= ext.constraints@.subrange(
                    i + 1,
                    ext.constraints@.len() as int,
                ));
                i += 1;
            }
            Ok(())
        },
        None => Ok(()),
    }
}

} // verus!
