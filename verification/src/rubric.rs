//! Five-dimension critique report for character-card Self-Refine.

use vstd::prelude::*;

use crate::error::CharacterError;
use crate::text::{decimal, push_decimal, push_str};

verus! {

/// Any score below this triggers refine.
pub const SCORE_THRESHOLD: u8 = 3;

/// Max refine rounds after the initial draft.
pub const MAX_REFINE_ROUNDS: u8 = 2;

/// Per-dimension scores (1–5 integers).
#[derive(Debug, Clone, Copy, PartialEq, Eq)]
pub struct DimensionScores {
    pub premise: u8,
    pub character: u8,
    pub voice: u8,
    pub tom: u8,
    pub constraints: u8,
}

/// Boolean hard checks from the critique rubric.
#[derive(Debug, Clone, Copy, PartialEq, Eq)]
pub struct CritiqueFlags {
    pub schema_ok: bool,
    pub placeholders_ok: bool,
    pub locale_ok: bool,
}

/// Full critique payload (matches the critique rubric template).
#[derive(Debug, Clone, PartialEq, Eq)]
pub struct CritiqueReport {
    pub scores: DimensionScores,
    pub flags: CritiqueFlags,
    pub issues: Vec<String>,
    pub must_fix: Vec<String>,
    pub summary: String,
}

/// Smaller of two scores.
pub open spec fn min2(a: u8, b: u8) -> u8 {
    if a <= b {
        a
    } else {
        b
    }
}

/// The lowest of the five dimension scores.
pub open spec fn scores_min(s: DimensionScores) -> u8 {
    min2(min2(min2(min2(s.premise, s.character), s.voice), s.tom), s.constraints)
}

/// Whether Self-Refine must run another pass on this report: a score below
/// the threshold, a failed schema flag, or any `must_fix` item.
pub open spec fn report_needs_refine(r: CritiqueReport) -> bool {
    scores_min(r.scores) < SCORE_THRESHOLD || !r.flags.schema_ok || r.must_fix@.len() > 0
}

/// A score on the 1..=5 rubric scale.
pub open spec fn in_range(s: u8) -> bool {
    1 <= s <= 5
}

/// The message for the first out-of-range score, in the order premise,
/// character, voice, tom, constraints; `None` when all are in range.
pub open spec fn range_violation(s: DimensionScores) -> Option<Seq<char>> {
    if !in_range(s.premise) {
        Some(score_message("premise"@, s.premise))
    } else if !in_range(s.character) {
        Some(score_message("character"@, s.character))
    } else if !in_range(s.voice) {
        Some(score_message("voice"@, s.voice))
    } else if !in_range(s.tom) {
        Some(score_message("tom"@, s.tom))
    } else if !in_range(s.constraints) {
        Some(score_message("constraints"@, s.constraints))
    } else {
        None
    }
}

/// Parse-error text for an out-of-range score.
pub open spec fn score_message(name: Seq<char>, score: u8) -> Seq<char> {
    "critique score `"@ + name + "` must be 1..=5, got "@ + decimal(score as nat)
}

impl DimensionScores {
    /// Lowest dimension score.
    pub fn min(&self) -> (m: u8)
        ensures
            m == scores_min(*self),
            m <= self.premise && m <= self.character && m <= self.voice && m <= self.tom && m
                <= self.constraints,
            m == self.premise || m == self.character || m == self.voice || m == self.tom || m
                == self.constraints,
    {
        let mut m = self.premise;
        if self.character < m {
            m = self.character;
        }
        if self.voice < m {
            m = self.voice;
        }
        if self.tom < m {
            m = self.tom;
        }
        if self.constraints < m {
            m = self.constraints;
        }
        m
    }

    /// True when any score is below [`SCORE_THRESHOLD`].
    pub fn below_threshold(&self) -> (b: bool)
        ensures
            b == (scores_min(*self) < SCORE_THRESHOLD),
    {
        self.min() < SCORE_THRESHOLD
    }
}

impl CritiqueFlags {
    /// True when every hard flag is ok.
    pub fn all_ok(&self) -> (b: bool)
        ensures
            b == (self.schema_ok && self.placeholders_ok && self.locale_ok),
    {
        self.schema_ok && self.placeholders_ok && self.locale_ok
    }
}

fn score_error(name: &str, score: u8) -> (e: CharacterError)
    ensures
        e matches CharacterError::Parse(m) && m@ == score_message(name@, score),
{
    let mut m = String::new();
    push_str(&mut m, "critique score `");
    push_str(&mut m, name);
    push_str(&mut m, "` must be 1..=5, got ");
    push_decimal(&mut m, score as u64);
    CharacterError::Parse(m)
}

impl CritiqueReport {
    /// Whether Self-Refine should run another refine pass.
    ///
    /// Actionable feedback drives rewrite: a non-empty `must_fix` always
    /// triggers refine; `issues` alone never do.
    pub fn needs_refine(&self) -> (b: bool)
        ensures
            b == report_needs_refine(*self),
    {
        self.scores.below_threshold() || !self.flags.schema_ok || self.must_fix.len() > 0
    }

    /// Check that every score lies in 1..=5.
    pub fn validate_ranges(&self) -> (r: Result<(), CharacterError>)
        ensures
            match range_violation(self.scores) {
                None => r is Ok,
                Some(m) => r matches Err(CharacterError::Parse(msg)) && msg@ == m,
            },
    {
        let s = self.scores;
        if !(1 <= s.premise && s.premise <= 5) {
            return Err(score_error("premise", s.premise));
        }
        if !(1 <= s.character && s.character <= 5) {
            return Err(score_error("character", s.character));
        }
        if !(1 <= s.voice && s.voice <= 5) {
            return Err(score_error("voice", s.voice));
        }
        if !(1 <= s.tom && s.tom <= 5) {
            return Err(score_error("tom", s.tom));
        }
        if !(1 <= s.constraints && s.constraints <= 5) {
            return Err(score_error("constraints", s.constraints));
        }
        Ok(())
    }

    /// Accept a report decoded from the critique reply: it is returned as is
    /// when every score is in range, and refused with the range error
    /// otherwise.
    pub fn checked(self) -> (r: Result<CritiqueReport, CharacterError>)
        ensures
            match range_violation(self.scores) {
                None => r == Ok::<CritiqueReport, CharacterError>(self),
                Some(m) => r matches Err(CharacterError::Parse(msg)) && msg@ == m,
            },
    {
        match self.validate_ranges() {
            Ok(()) => Ok(self),
            Err(e) => Err(e),
        }
    }
}

} // verus!
