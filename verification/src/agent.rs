//! Self-Refine meta-agent: reply parsing helpers and the create-card state
//! machine (draft → critique → refine ≤ 2, one repair per parse).
//!
//! The model calls, JSON decoding and encoding are the caller's work: the
//! machine says what to do next and is told what came back.

use vstd::prelude::*;
use vstd::utf8::encode_utf8;

use crate::card::{CharDataV2, TavernCardV2};
use crate::constraints::{card_violation, validate_card};
use crate::error::{character_error_text, CharacterError};
use crate::kg::{edges_view, kg_of_card, nodes_view, KnowledgeGraph};
use crate::lorebook::{book_matches, lore_drafts};
use crate::memory::{counter_after, kept_seeds, seed_candidates, seeded_entries, MemoryStream};
use crate::prompt_pack::{
    critique_user_text, refine_user_text, render_critique_user, render_refine_user,
    render_user_create, user_create_text,
};
use crate::rubric::{range_violation, report_needs_refine, CritiqueReport, MAX_REFINE_ROUNDS};
use crate::seed::seed_card_artifacts;
use crate::templates::META_SYSTEM;
use crate::text::{owned, is_blank, is_blank_str,
    chars_of, decimal, ends_with, find_char, first_index, last_index, matches_at, push_decimal,
    push_range, push_str, rfind_char, starts_with, trim, trim_str,
};

verus! {

// ---------------------------------------------------------------------------
// Reply parsing
// ---------------------------------------------------------------------------

/// A markdown code fence.
pub open spec fn fence() -> Seq<char> {
    seq!['`', '`', '`']
}

/// Optional language tags accepted after an opening fence.
pub open spec fn tag_lower() -> Seq<char> {
    seq!['j', 's', 'o', 'n']
}

/// Upper-case form of the language tag.
pub open spec fn tag_upper() -> Seq<char> {
    seq!['J', 'S', 'O', 'N']
}

/// `text` trimmed, with one surrounding markdown fence (an opening
/// three-backtick line with an optional `json` / `JSON` tag, and a closing
/// fence) removed.
pub open spec fn strip_fence(text: Seq<char>) -> Seq<char> {
    let t = trim(text);
    if !starts_with(t, fence()) {
        t
    } else {
        let a = t.subrange(3, t.len() as int);
        let b = if starts_with(a, tag_lower()) || starts_with(a, tag_upper()) {
            a.subrange(4, a.len() as int)
        } else {
            a
        };
        let c = if starts_with(b, seq!['\n']) {
            b.subrange(1, b.len() as int)
        } else {
            b
        };
        if ends_with(c, fence()) {
            trim(c.subrange(0, c.len() - 3))
        } else {
            c
        }
    }
}

/// The outermost `{ … }` of the unfenced, trimmed text: from the first `{`
/// to the last `}`; `None` when either is missing or the last `}` comes
/// before the first `{`.
pub open spec fn json_object_in(text: Seq<char>) -> Option<Seq<char>> {
    let u = strip_fence(trim(text));
    match find_char(u, '{') {
        None => None,
        Some(s) => match rfind_char(u, '}') {
            None => None,
            Some(e) => if e < s {
                None
            } else {
                Some(u.subrange(s, e + 1))
            },
        },
    }
}

/// Trim `text` and strip one surrounding markdown fence.
pub fn strip_markdown_fence(text: &str) -> (out: String)
    ensures
        out@ == strip_fence(text@),
{
    let t = trim_str(text);
    let v = chars_of(t.as_str());
    let n = v.len();
    let fv: [char; 3] = ['`', '`', '`'];
    assert(fv@ =~= fence());
    if !matches_at(v.as_slice(), 0, fv.as_slice()) {
        return t;
    }
    let ghost a = v@.subrange(3, n as int);
    let lower: [char; 4] = ['j', 's', 'o', 'n'];
    let upper: [char; 4] = ['J', 'S', 'O', 'N'];
    assert(lower@ =~= tag_lower());
    assert(upper@ =~= tag_upper());
    let tagged = matches_at(v.as_slice(), 3, lower.as_slice()) || matches_at(
        v.as_slice(),
        3,
        upper.as_slice(),
    );
    proof {
        if n >= 7 {
            assert(a.subrange(0, 4) =~= v@.subrange(3, 7));
        }
    }
    let b_lo: usize = if tagged {
        7
    } else {
        3
    };
    let ghost b = v@.subrange(b_lo as int, n as int);
    assert(b =~= if tagged {
        a.subrange(4, a.len() as int)
    } else {
        a
    });
    let newline = b_lo < n && v[b_lo] == '\n';
    proof {
        if b_lo < n {
            assert(b.subrange(0, 1) =~= seq![v@[b_lo as int]]);
            if b.subrange(0, 1) == seq!['\n'] {
                assert(b.subrange(0, 1)[0] == '\n');
            }
        }
    }
    let c_lo: usize = if newline {
        b_lo + 1
    } else {
        b_lo
    };
    let ghost c = v@.subrange(c_lo as int, n as int);
    assert(c =~= if newline {
        b.subrange(1, b.len() as int)
    } else {
        b
    });
    let closed = n - c_lo >= 3 && matches_at(v.as_slice(), n - 3, fv.as_slice());
    proof {
        if n - c_lo >= 3 {
            assert(c.subrange(c.len() - 3, c.len() as int) =~= v@.subrange(n - 3, n as int));
        }
    }
    proof {
        let tt = trim(text@);
        assert(tt == v@);
        assert(starts_with(tt, fence()));
        let aa = tt.subrange(3, tt.len() as int);
        assert(aa == a);
        let bb = if starts_with(aa, tag_lower()) || starts_with(aa, tag_upper()) {
            aa.subrange(4, aa.len() as int)
        } else {
            aa
        };
        assert(tagged == (starts_with(aa, tag_lower()) || starts_with(aa, tag_upper())));
        assert(bb == b);
        let cc = if starts_with(bb, seq!['\n']) {
            bb.subrange(1, bb.len() as int)
        } else {
            bb
        };
        assert(newline == starts_with(bb, seq!['\n']));
        assert(cc == c);
        assert(closed == ends_with(cc, fence()));
    }
    if closed {
        let body = {
            let mut s = String::new();
            push_range(&mut s, v.as_slice(), c_lo, n - 3);
            s
        };
        assert(body@ =~= c.subrange(0, c.len() - 3));
        trim_str(body.as_str())
    } else {
        let mut s = String::new();
        push_range(&mut s, v.as_slice(), c_lo, n);
        s
    }
}

/// Pull the outermost `{ … }` object out of a model reply; strips a
/// surrounding markdown fence first.
pub fn extract_json_object(text: &str) -> (r: Option<String>)
    ensures
        match json_object_in(text@) {
            None => r is None,
            Some(j) => r matches Some(s) && s@ == j,
        },
{
    let trimmed = trim_str(text);
    let unfenced = strip_markdown_fence(trimmed.as_str());
    let v = chars_of(unfenced.as_str());
    proof {
        crate::text::lemma_find_char(v@, '{');
        crate::text::lemma_rfind_char(v@, '}');
        assert(v@ == strip_fence(trim(text@)));
    }
    let start = match first_index(&v, '{') {
        None => return None,
        Some(s) => s,
    };
    let end = match last_index(&v, '}') {
        None => return None,
        Some(e) => e,
    };
    proof {
        match find_char(v@, '{') {
            Some(i) => {
                assert(start as int == i);
            },
            None => {},
        }
        match rfind_char(v@, '}') {
            Some(i) => {
                assert(end as int == i);
            },
            None => {},
        }
    }
    if end < start {
        return None;
    }
    let mut out = String::new();
    push_range(&mut out, v.as_slice(), start, end + 1);
    Some(out)
}

/// Byte length of a text's UTF-8 encoding, as `str::len` reports it.
pub open spec fn byte_len(text: Seq<char>) -> nat {
    (encode_utf8(text).len() as usize) as nat
}

/// Message of the parse error for a card reply without a JSON object; the
/// length is the reply's UTF-8 byte length.
pub open spec fn no_card_json_message(text: Seq<char>) -> Seq<char> {
    "card reply has no json object (len="@ + decimal(byte_len(text)) + ")"@
}

/// The JSON object of a card reply, or the parse error's message.
pub open spec fn card_candidate(text: Seq<char>) -> Result<Seq<char>, Seq<char>> {
    match json_object_in(text) {
        Some(j) => Ok(j),
        None => Err(no_card_json_message(text)),
    }
}

/// The JSON object of a card reply; a reply without one is a
/// [`CharacterError::Parse`] error that names the reply's byte length.
pub fn card_json_candidate(text: &str) -> (r: Result<String, CharacterError>)
    ensures
        match card_candidate(text@) {
            Ok(j) => r matches Ok(s) && s@ == j,
            Err(m) => r matches Err(CharacterError::Parse(msg)) && msg@ == m,
        },
{
    match extract_json_object(text) {
        Some(j) => Ok(j),
        None => {
            let mut m = String::new();
            push_str(&mut m, "card reply has no json object (len=");
            push_decimal(&mut m, text.len() as u64);
            push_str(&mut m, ")");
            Err(CharacterError::Parse(m))
        },
    }
}

/// Leading instruction of the repair prompt; the unparseable reply follows it.
pub const REPAIR_INSTRUCTION: &'static str = "将以下内容修复为合法的 SillyTavern 根 JSON。必须包含顶层字段: \"spec\":\"chara_card_v2\", \"spec_version\":\"2.0\", \"data\":{...}。relationships 每项用 {\"name\",\"type\",\"defines_protagonist_how\"}。仅输出 JSON，无 markdown 围栏、无解释：\n\n";

/// The repair prompt for an unparseable card reply.
pub open spec fn repair_prompt_text(raw: Seq<char>) -> Seq<char> {
    REPAIR_INSTRUCTION@ + raw
}

/// Message of the parse error when the repaired reply fails too: both
/// failures, and the byte length of the first reply.
pub open spec fn repair_failure_text(second: Seq<char>, first: CharacterError, raw: Seq<char>) -> Seq<char> {
    "after repair: "@ + second + "; first: "@ + character_error_text(first) + "; raw_len="@
        + decimal(byte_len(raw))
}

/// Message of the parse error for a critique reply without a JSON object.
pub const NO_CRITIQUE_JSON: &'static str = "critique reply has no json object";

/// Build the repair prompt.
pub fn repair_prompt(raw: &str) -> (s: String)
    ensures
        s@ == repair_prompt_text(raw@),
{
    let mut s = String::new();
    push_str(&mut s, REPAIR_INSTRUCTION);
    push_str(&mut s, raw);
    s
}

fn repair_failure(second: &CharacterError, first: &CharacterError, raw: &str) -> (e: CharacterError)
    ensures
        e matches CharacterError::Parse(m) && m@ == repair_failure_text(
            character_error_text(*second),
            *first,
            raw@,
        ),
{
    let mut m = String::new();
    push_str(&mut m, "after repair: ");
    let t = second.message();
    push_str(&mut m, t.as_str());
    push_str(&mut m, "; first: ");
    let f = first.message();
    push_str(&mut m, f.as_str());
    push_str(&mut m, "; raw_len=");
    push_decimal(&mut m, raw.len() as u64);
    CharacterError::Parse(m)
}

/// What the root of a parsed card reply looks like, as far as reshaping it
/// needs: whether it is an object, and which top-level keys it has.
#[derive(Debug, Clone, Copy, PartialEq, Eq)]
pub struct JsonRootShape {
    pub is_object: bool,
    pub has_data: bool,
    pub has_spec: bool,
    pub has_spec_version: bool,
    pub has_name: bool,
}

/// How a card reply that is not already a full card is reshaped into one.
#[derive(Debug, Clone, Copy, PartialEq, Eq)]
pub enum CoercePlan {
    /// A `data` wrapper: add the missing `spec` / `spec_version` fields.
    FillHeader { add_spec: bool, add_spec_version: bool },
    /// A flat card-data object: wrap it as `data` under a full header.
    WrapFlat,
}

/// The reshaping of a card reply root, or why it cannot be a card.
pub open spec fn coerce_spec(shape: JsonRootShape) -> Result<CoercePlan, Seq<char>> {
    if !shape.is_object {
        Err("card json root must be an object"@)
    } else if shape.has_data {
        Ok(CoercePlan::FillHeader { add_spec: !shape.has_spec, add_spec_version: !shape.has_spec_version })
    } else if shape.has_name {
        Ok(CoercePlan::WrapFlat)
    } else {
        Err("card json missing `data` or top-level `name`"@)
    }
}

/// Decide how to reshape a card reply that did not decode as a full card.
pub fn coerce_plan(shape: JsonRootShape) -> (r: Result<CoercePlan, CharacterError>)
    ensures
        match coerce_spec(shape) {
            Ok(p) => r == Ok::<CoercePlan, CharacterError>(p),
            Err(m) => r matches Err(CharacterError::Parse(msg)) && msg@ == m,
        },
{
    if !shape.is_object {
        return Err(CharacterError::Parse(owned("card json root must be an object")));
    }
    if shape.has_data {
        return Ok(CoercePlan::FillHeader { add_spec: !shape.has_spec, add_spec_version: !shape.has_spec_version });
    }
    if shape.has_name {
        return Ok(CoercePlan::WrapFlat);
    }
    Err(CharacterError::Parse(owned("card json missing `data` or top-level `name`")))
}

/// The shape of the root value that `serde_json` reads from `text`, or
/// `None` when `text` is not JSON.
pub uninterp spec fn json_root_shape(text: Seq<char>) -> Option<JsonRootShape>;

/// `serde_json::from_str::<serde_json::Value>`, read down to the shape of the
/// root: whether it is an object and which of the keys `data`, `spec`,
/// `spec_version` and `name` it has. The shape is a function of the text
/// alone; on text that is not JSON the parser's message comes back, and
/// nothing is claimed of its wording.
#[verifier::external_body]
fn parse_root_shape(text: &str) -> (r: Result<JsonRootShape, String>)
    ensures
        match json_root_shape(text@) {
            Some(shape) => r == Ok::<JsonRootShape, String>(shape),
            None => r is Err,
        },
{
    match serde_json::from_str::<serde_json::Value>(text) {
        Ok(v) => Ok(JsonRootShape {
            is_object: v.is_object(),
            has_data: v.get("data").is_some(),
            has_spec: v.get("spec").is_some(),
            has_spec_version: v.get("spec_version").is_some(),
            has_name: v.get("name").is_some(),
        }),
        Err(e) => Err(e.to_string()),
    }
}

/// How to reshape a card reply that did not decode as a full card: text that
/// is not JSON is a parse error carrying the parser's message after
/// `card json: `; otherwise the shape of its root decides ([`coerce_spec`]).
pub fn coerce_card_reply(json: &str) -> (r: Result<CoercePlan, CharacterError>)
    ensures
        match json_root_shape(json@) {
            None => r matches Err(CharacterError::Parse(m)) && starts_with(m@, "card json: "@),
            Some(shape) => match coerce_spec(shape) {
                Ok(p) => r == Ok::<CoercePlan, CharacterError>(p),
                Err(m) => r matches Err(CharacterError::Parse(msg)) && msg@ == m,
            },
        },
{
    match parse_root_shape(json) {
        Err(e) => {
            let mut m = owned("card json: ");
            let ghost head = m@;
            push_str(&mut m, e.as_str());
            assert(m@.subrange(0, head.len() as int) =~= head);
            Err(CharacterError::Parse(m))
        },
        Ok(shape) => coerce_plan(shape),
    }
}

/// Message of the error for a blank model reply.
pub const EMPTY_REPLY: &'static str = "model returned empty content (check max_tokens / thinking budget)";

/// Accept a model reply unless it is blank, which is an
/// [`CharacterError::Llm`] error.
pub fn nonblank_reply(text: String) -> (r: Result<String, CharacterError>)
    ensures
        is_blank(text@) ==> (r matches Err(CharacterError::Llm(m)) && m@ == EMPTY_REPLY@),
        !is_blank(text@) ==> r == Ok::<String, CharacterError>(text),
{
    if is_blank_str(text.as_str()) {
        return Err(CharacterError::Llm(owned(EMPTY_REPLY)));
    }
    Ok(text)
}

// ---------------------------------------------------------------------------
// The create-card state machine
// ---------------------------------------------------------------------------

/// Outcome of a successful create run.
#[derive(Debug, Clone, PartialEq, Eq)]
pub struct CreateCardOutcome {
    /// Final validated card (with lorebook attached when seedable).
    pub card: TavernCardV2,
    /// Last critique after the final draft/refine.
    pub critique: CritiqueReport,
    /// How many refine calls ran (0..=[`MAX_REFINE_ROUNDS`]).
    pub refine_rounds: u8,
    /// Memory-stream seeds.
    pub memory: MemoryStream,
    /// Ego knowledge-graph seeds.
    pub kg: KnowledgeGraph,
}

/// Where a create run stands.
#[derive(Debug, Clone, PartialEq, Eq)]
pub enum Stage {
    /// Waiting for the model's card reply (draft, or refine when `refining`).
    AwaitCard { refining: bool },
    /// Waiting for the decoded card of reply `raw`.
    DecodeCard { refining: bool, raw: String },
    /// Waiting for the reply to the repair prompt for `raw`, which failed
    /// with `first`.
    AwaitRepair { refining: bool, raw: String, first: CharacterError },
    /// Waiting for the decoded card of the repaired reply.
    DecodeRepair { refining: bool, raw: String, first: CharacterError },
    /// Waiting for the compact JSON of the current card, to critique it.
    EncodeForCritique,
    /// Waiting for the critique reply.
    AwaitCritique,
    /// Waiting for the decoded critique.
    DecodeCritique,
    /// Waiting for the compact JSON of the current card, to refine it.
    EncodeCardForRefine,
    /// Waiting for the compact JSON of the current critique.
    EncodeCritiqueForRefine { card_json: String },
    /// The run has ended.
    Finished,
}

/// State of a create run.
#[derive(Debug, Clone, PartialEq, Eq)]
pub struct CreateMachine {
    /// What the run waits for.
    pub stage: Stage,
    /// The current card, once one was decoded.
    pub card: Option<TavernCardV2>,
    /// The current critique, once one was decoded.
    pub critique: Option<CritiqueReport>,
    /// Refine passes whose card was accepted.
    pub refine_rounds: u8,
}

/// What the caller does next.
#[derive(Debug, PartialEq, Eq)]
pub enum AgentAction {
    /// Ask the model; answer with [`AgentEvent::Text`].
    Complete { system: String, user: String },
    /// Decode this JSON as a card; answer with [`AgentEvent::Card`].
    DecodeCard { json: String },
    /// Decode this JSON as a critique; answer with [`AgentEvent::Critique`].
    DecodeCritique { json: String },
    /// Encode the machine's current card as compact JSON; answer with
    /// [`AgentEvent::Text`].
    EncodeCard,
    /// Encode the machine's current critique as compact JSON; answer with
    /// [`AgentEvent::Text`].
    EncodeCritique,
    /// The run is over.
    Done(Result<CreateCardOutcome, CharacterError>),
}

/// What came back from the caller's work.
#[derive(Debug, PartialEq, Eq)]
pub enum AgentEvent {
    /// A model reply, or an encoded JSON text.
    Text(Result<String, CharacterError>),
    /// A decoded card.
    Card(Result<TavernCardV2, CharacterError>),
    /// A decoded critique (its scores not yet range-checked).
    Critique(Result<CritiqueReport, CharacterError>),
}

/// The kind of event each stage waits for.
pub open spec fn accepts_spec(stage: Stage, e: AgentEvent) -> bool {
    match stage {
        Stage::DecodeCard { .. } | Stage::DecodeRepair { .. } => e is Card,
        Stage::DecodeCritique => e is Critique,
        Stage::Finished => false,
        _ => e is Text,
    }
}

/// Whether a stage waits on a card whose acceptance completes a refine pass.
pub open spec fn pending_refine(stage: Stage) -> bool {
    match stage {
        Stage::AwaitCard { refining } => refining,
        Stage::DecodeCard { refining, .. } => refining,
        Stage::AwaitRepair { refining, .. } => refining,
        Stage::DecodeRepair { refining, .. } => refining,
        _ => false,
    }
}

/// Position of a stage within one draft-or-refine pass (later is lower).
pub open spec fn stage_rank(stage: Stage) -> int {
    match stage {
        Stage::AwaitCard { .. } => 9,
        Stage::DecodeCard { .. } => 8,
        Stage::AwaitRepair { .. } => 7,
        Stage::DecodeRepair { .. } => 6,
        Stage::EncodeForCritique => 5,
        Stage::AwaitCritique => 4,
        Stage::DecodeCritique => 3,
        Stage::EncodeCardForRefine => 2,
        Stage::EncodeCritiqueForRefine { .. } => 1,
        Stage::Finished => 0,
    }
}

/// Steps a run can still take at most: every step lowers it, and a run
/// starts at `10 * (MAX_REFINE_ROUNDS + 1) + 9`.
pub open spec fn steps_left(m: CreateMachine) -> int {
    if m.stage is Finished {
        0
    } else {
        let passes = MAX_REFINE_ROUNDS + 1 - m.refine_rounds - (if pending_refine(m.stage) {
            1int
        } else {
            0int
        });
        passes * 10 + stage_rank(m.stage)
    }
}

impl CreateMachine {
    /// What every reachable state satisfies: the refine count never passes
    /// [`MAX_REFINE_ROUNDS`], a refine pass runs only below it, and a card
    /// (and, when refining, a critique) is held wherever one is needed.
    pub open spec fn wf(self) -> bool {
        &&& self.refine_rounds <= MAX_REFINE_ROUNDS
        &&& if pending_refine(self.stage) {
            &&& self.refine_rounds < MAX_REFINE_ROUNDS
            &&& self.card is Some
            &&& self.critique is Some
        } else {
            match self.stage {
                Stage::AwaitCard { .. } | Stage::DecodeCard { .. } | Stage::AwaitRepair { .. }
                | Stage::DecodeRepair { .. } => self.refine_rounds == 0,
                Stage::EncodeForCritique | Stage::AwaitCritique | Stage::DecodeCritique => self.card is Some,
                Stage::EncodeCardForRefine | Stage::EncodeCritiqueForRefine { .. } => {
                    &&& self.card is Some
                    &&& self.critique is Some
                    &&& self.refine_rounds < MAX_REFINE_ROUNDS
                },
                Stage::Finished => true,
            }
        }
    }
}

/// The card, critique and refine count are carried over.
pub open spec fn same_progress(a: CreateMachine, b: CreateMachine) -> bool {
    a.card == b.card && a.critique == b.critique && a.refine_rounds == b.refine_rounds
}

/// `a` asks the model, with the meta system prompt and this user text.
pub open spec fn asks(a: AgentAction, user: Seq<char>) -> bool {
    a matches AgentAction::Complete { system, user: u } && system@ == META_SYSTEM@ && u@ == user
}

/// The run ends with error `e`.
pub open spec fn fails_with(r: (CreateMachine, AgentAction), e: CharacterError) -> bool {
    r.0.stage is Finished && r.1 == AgentAction::Done(Err::<CreateCardOutcome, CharacterError>(e))
}

/// The run ends with a parse error of this message.
pub open spec fn fails_parsing(r: (CreateMachine, AgentAction), msg: Seq<char>) -> bool {
    &&& r.0.stage is Finished
    &&& r.1 matches AgentAction::Done(Err(CharacterError::Parse(m)))
    &&& m@ == msg
}

/// What a finished run hands back for a card, its last critique and the
/// refine count: a validation error, or the card with its lorebook attached
/// and its memory and graph seeds.
pub open spec fn outcome_of(card: TavernCardV2, critique: CritiqueReport, rounds: u8, a: AgentAction) -> bool {
    match card_violation(card) {
        Some(msg) => a matches AgentAction::Done(Err(CharacterError::Validation(m))) && m@ == msg,
        None => {
            &&& a matches AgentAction::Done(Ok(out))
            &&& out.critique == critique
            &&& out.refine_rounds == rounds
            &&& (lore_drafts(card).len() == 0 ==> out.card == card)
            &&& (lore_drafts(card).len() > 0 ==> (out.card.data.character_book matches Some(book)
                && book_matches(book, card)))
            &&& out.card.spec == card.spec
            &&& out.card.spec_version == card.spec_version
            &&& out.card.data == (CharDataV2 { character_book: out.card.data.character_book, ..card.data })
            &&& card_violation(out.card) is None
            &&& out.memory.character_name@ == card.data.name@
            &&& out.memory.next_id == counter_after(kept_seeds(seed_candidates(card)).len())
            &&& exists|t: u64| seeded_entries(out.memory.entries@, kept_seeds(seed_candidates(card)), t)
            &&& out.kg.character_name@ == trim(card.data.name@)
            &&& (nodes_view(out.kg.nodes@), edges_view(out.kg.edges@)) == kg_of_card(card)
        },
    }
}

/// A card reply `raw` arrived: decode its JSON object, or ask for a repair.
pub open spec fn on_card_reply(m: CreateMachine, refining: bool, raw: Seq<char>, r: (CreateMachine, AgentAction)) -> bool {
    &&& same_progress(r.0, m)
    &&& match card_candidate(raw) {
        Ok(json) => {
            &&& r.0.stage matches Stage::DecodeCard { refining: rf, raw: kept }
            &&& rf == refining
            &&& kept@ == raw
            &&& r.1 matches AgentAction::DecodeCard { json: j }
            &&& j@ == json
        },
        Err(msg) => {
            &&& r.0.stage matches Stage::AwaitRepair { refining: rf, raw: kept, first }
            &&& rf == refining
            &&& kept@ == raw
            &&& first matches CharacterError::Parse(fm)
            &&& fm@ == msg
            &&& asks(r.1, repair_prompt_text(raw))
        },
    }
}

/// The first decode of `raw` failed with `first`: ask for a repair.
pub open spec fn on_first_failure(m: CreateMachine, refining: bool, raw: Seq<char>, first: CharacterError, r: (CreateMachine, AgentAction)) -> bool {
    &&& same_progress(r.0, m)
    &&& r.0.stage matches Stage::AwaitRepair { refining: rf, raw: kept, first: f }
    &&& rf == refining
    &&& kept@ == raw
    &&& f == first
    &&& asks(r.1, repair_prompt_text(raw))
}

/// The repaired reply `fixed` arrived: decode it, or give up.
pub open spec fn on_repair_reply(m: CreateMachine, refining: bool, raw: Seq<char>, first: CharacterError, fixed: Seq<char>, r: (CreateMachine, AgentAction)) -> bool {
    match card_candidate(fixed) {
        Ok(json) => {
            &&& same_progress(r.0, m)
            &&& r.0.stage matches Stage::DecodeRepair { refining: rf, raw: kept, first: f }
            &&& rf == refining
            &&& kept@ == raw
            &&& f == first
            &&& r.1 matches AgentAction::DecodeCard { json: j }
            &&& j@ == json
        },
        Err(msg) => fails_parsing(r, repair_failure_text("failed to parse llm json: "@ + msg, first, raw)),
    }
}

/// A card was decoded: it becomes the current card (completing a refine
/// pass when `refining`), and is sent to be encoded for critique.
pub open spec fn on_card(m: CreateMachine, refining: bool, card: TavernCardV2, r: (CreateMachine, AgentAction)) -> bool {
    &&& r.0.stage is EncodeForCritique
    &&& r.0.card == Some(card)
    &&& r.0.critique == m.critique
    &&& r.0.refine_rounds == (if refining {
        (m.refine_rounds + 1) as u8
    } else {
        m.refine_rounds
    })
    &&& r.1 is EncodeCard
}

/// A critique reply `raw` arrived: decode its JSON object, or fail.
pub open spec fn on_critique_reply(m: CreateMachine, raw: Seq<char>, r: (CreateMachine, AgentAction)) -> bool {
    match json_object_in(raw) {
        None => fails_parsing(r, NO_CRITIQUE_JSON@),
        Some(j) => {
            &&& same_progress(r.0, m)
            &&& r.0.stage is DecodeCritique
            &&& r.1 matches AgentAction::DecodeCritique { json }
            &&& json@ == j
        },
    }
}

/// A critique was decoded: refuse out-of-range scores, refine while it asks
/// for it and passes remain, else finish.
pub open spec fn on_critique(m: CreateMachine, rep: CritiqueReport, r: (CreateMachine, AgentAction)) -> bool {
    match range_violation(rep.scores) {
        Some(msg) => fails_parsing(r, msg),
        None => if report_needs_refine(rep) && m.refine_rounds < MAX_REFINE_ROUNDS {
            &&& r.0.stage is EncodeCardForRefine
            &&& r.0.card == m.card
            &&& r.0.critique == Some(rep)
            &&& r.0.refine_rounds == m.refine_rounds
            &&& r.1 is EncodeCard
        } else {
            &&& r.0.stage is Finished
            &&& outcome_of(m.card->0, rep, m.refine_rounds, r.1)
        },
    }
}

/// What one step does, for each stage and event.
pub open spec fn step_post(m: CreateMachine, e: AgentEvent, r: (CreateMachine, AgentAction)) -> bool {
    match e {
        AgentEvent::Text(Err(err)) => fails_with(r, err),
        AgentEvent::Card(Err(err)) => match m.stage {
            Stage::DecodeCard { refining, raw } => on_first_failure(m, refining, raw@, err, r),
            Stage::DecodeRepair { refining, raw, first } => fails_parsing(
                r,
                repair_failure_text(character_error_text(err), first, raw@),
            ),
            _ => true,
        },
        AgentEvent::Critique(Err(err)) => fails_with(r, err),
        AgentEvent::Text(Ok(t)) => match m.stage {
            Stage::AwaitCard { refining } => on_card_reply(m, refining, t@, r),
            Stage::AwaitRepair { refining, raw, first } => on_repair_reply(m, refining, raw@, first, t@, r),
            Stage::EncodeForCritique => same_progress(r.0, m) && r.0.stage is AwaitCritique && asks(
                r.1,
                critique_user_text(t@),
            ),
            Stage::AwaitCritique => on_critique_reply(m, t@, r),
            Stage::EncodeCardForRefine => {
                &&& same_progress(r.0, m)
                &&& r.0.stage matches Stage::EncodeCritiqueForRefine { card_json }
                &&& card_json@ == t@
                &&& r.1 is EncodeCritique
            },
            Stage::EncodeCritiqueForRefine { card_json } => {
                &&& same_progress(r.0, m)
                &&& r.0.stage == Stage::AwaitCard { refining: true }
                &&& asks(r.1, refine_user_text(card_json@, t@))
            },
            _ => true,
        },
        AgentEvent::Card(Ok(card)) => match m.stage {
            Stage::DecodeCard { refining, .. } => on_card(m, refining, card, r),
            Stage::DecodeRepair { refining, .. } => on_card(m, refining, card, r),
            _ => true,
        },
        AgentEvent::Critique(Ok(rep)) => on_critique(m, rep, r),
    }
}

/// Validate the final card, attach its lorebook, seed its sidecars and
/// validate again.
fn finish(card: TavernCardV2, critique: CritiqueReport, refine_rounds: u8) -> (a: AgentAction)
    ensures
        outcome_of(card, critique, refine_rounds, a),
{
    match validate_card(&card) {
        Err(e) => {
            return AgentAction::Done(Err(e));
        },
        Ok(()) => {},
    }
    let ghost before = card;
    let mut card = card;
    let art = seed_card_artifacts(&mut card, None);
    match validate_card(&card) {
        Err(e) => {
            return AgentAction::Done(Err(e));
        },
        Ok(()) => {},
    }
    AgentAction::Done(
        Ok(
            CreateCardOutcome {
                card,
                critique,
                refine_rounds,
                memory: art.memory,
                kg: art.kg,
            },
        ),
    )
}

fn ended(e: CharacterError) -> (r: (CreateMachine, AgentAction))
    ensures
        fails_with(r, e),
        r.0.wf(),
{
    (
        CreateMachine { stage: Stage::Finished, card: None, critique: None, refine_rounds: 0 },
        AgentAction::Done(Err(e)),
    )
}

impl CreateMachine {
    /// Begin a run for a concept: a blank concept is refused with
    /// [`CharacterError::EmptyConcept`]; otherwise the model is asked for a
    /// draft of the trimmed concept.
    pub fn start(concept: &str) -> (r: Result<(CreateMachine, AgentAction), CharacterError>)
        ensures
            is_blank(concept@) ==> r == Err::<(CreateMachine, AgentAction), CharacterError>(
                CharacterError::EmptyConcept,
            ),
            !is_blank(concept@) ==> (r matches Ok((m, a)) && {
                &&& m.wf()
                &&& m.stage == Stage::AwaitCard { refining: false }
                &&& m.card is None
                &&& m.critique is None
                &&& m.refine_rounds == 0
                &&& steps_left(m) == 10 * (MAX_REFINE_ROUNDS + 1) + 9
                &&& asks(a, user_create_text(trim(concept@)))
            }),
    {
        if is_blank_str(concept) {
            return Err(CharacterError::EmptyConcept);
        }
        let c = trim_str(concept);
        let user = render_user_create(c.as_str());
        proof {
            crate::text::lemma_trim_idempotent(concept@);
        }
        let m = CreateMachine {
            stage: Stage::AwaitCard { refining: false },
            card: None,
            critique: None,
            refine_rounds: 0,
        };
        Ok((m, AgentAction::Complete { system: owned(META_SYSTEM), user }))
    }

    /// Whether `e` is the kind of event this state waits for.
    pub fn accepts(&self, e: &AgentEvent) -> (b: bool)
        ensures
            b == accepts_spec(self.stage, *e),
    {
        match self.stage {
            Stage::DecodeCard { .. } | Stage::DecodeRepair { .. } => matches!(e, AgentEvent::Card(_)),
            Stage::DecodeCritique => matches!(e, AgentEvent::Critique(_)),
            Stage::Finished => false,
            _ => matches!(e, AgentEvent::Text(_)),
        }
    }
}


fn accept_card(refining: bool, card: TavernCardV2, critique: Option<CritiqueReport>, refine_rounds: u8) -> (r: (CreateMachine, AgentAction))
    requires
        refining ==> refine_rounds < MAX_REFINE_ROUNDS,
        refine_rounds <= MAX_REFINE_ROUNDS,
    ensures
        r.0.stage is EncodeForCritique,
        r.0.card == Some(card),
        r.0.critique == critique,
        r.0.refine_rounds == (if refining {
            (refine_rounds + 1) as u8
        } else {
            refine_rounds
        }),
        r.1 is EncodeCard,
{
    let rounds = if refining {
        refine_rounds + 1
    } else {
        refine_rounds
    };
    (
        CreateMachine {
            stage: Stage::EncodeForCritique,
            card: Some(card),
            critique,
            refine_rounds: rounds,
        },
        AgentAction::EncodeCard,
    )
}

fn ask(user: String) -> (a: AgentAction)
    ensures
        asks(a, user@),
{
    AgentAction::Complete { system: owned(META_SYSTEM), user }
}

impl CreateMachine {
    /// Advance the run by one event: the next state and what to do next.
    ///
    /// Each step lowers [`steps_left`], so a run ends after at most
    /// `10 * (MAX_REFINE_ROUNDS + 1) + 9` steps, and every reachable state
    /// keeps [`CreateMachine::wf`].
    pub fn step(self, e: AgentEvent) -> (r: (CreateMachine, AgentAction))
        requires
            self.wf(),
            accepts_spec(self.stage, e),
        ensures
            r.0.wf(),
            step_post(self, e, r),
            steps_left(r.0) < steps_left(self),
            r.1 is Done <==> r.0.stage is Finished,
    {
        let CreateMachine { stage, card, critique, refine_rounds } = self;
        match stage {
            Stage::AwaitCard { refining } => match e {
                AgentEvent::Text(Ok(raw)) => match card_json_candidate(raw.as_str()) {
                    Ok(json) => (
                        CreateMachine {
                            stage: Stage::DecodeCard { refining, raw },
                            card,
                            critique,
                            refine_rounds,
                        },
                        AgentAction::DecodeCard { json },
                    ),
                    Err(first) => {
                        let user = repair_prompt(raw.as_str());
                        (
                            CreateMachine {
                                stage: Stage::AwaitRepair { refining, raw, first },
                                card,
                                critique,
                                refine_rounds,
                            },
                            ask(user),
                        )
                    },
                },
                AgentEvent::Text(Err(err)) => ended(err),
                _ => {
                    proof {
                        assert(false);
                    }
                    ended(CharacterError::EmptyConcept)
                },
            },
            Stage::DecodeCard { refining, raw } => match e {
                AgentEvent::Card(Ok(c)) => accept_card(refining, c, critique, refine_rounds),
                AgentEvent::Card(Err(first)) => {
                    let user = repair_prompt(raw.as_str());
                    (
                        CreateMachine {
                            stage: Stage::AwaitRepair { refining, raw, first },
                            card,
                            critique,
                            refine_rounds,
                        },
                        ask(user),
                    )
                },
                _ => {
                    proof {
                        assert(false);
                    }
                    ended(CharacterError::EmptyConcept)
                },
            },
            Stage::AwaitRepair { refining, raw, first } => match e {
                AgentEvent::Text(Ok(fixed)) => match card_json_candidate(fixed.as_str()) {
                    Ok(json) => (
                        CreateMachine {
                            stage: Stage::DecodeRepair { refining, raw, first },
                            card,
                            critique,
                            refine_rounds,
                        },
                        AgentAction::DecodeCard { json },
                    ),
                    Err(second) => ended(repair_failure(&second, &first, raw.as_str())),
                },
                AgentEvent::Text(Err(err)) => ended(err),
                _ => {
                    proof {
                        assert(false);
                    }
                    ended(CharacterError::EmptyConcept)
                },
            },
            Stage::DecodeRepair { refining, raw, first } => match e {
                AgentEvent::Card(Ok(c)) => accept_card(refining, c, critique, refine_rounds),
                AgentEvent::Card(Err(second)) => ended(repair_failure(&second, &first, raw.as_str())),
                _ => {
                    proof {
                        assert(false);
                    }
                    ended(CharacterError::EmptyConcept)
                },
            },
            Stage::EncodeForCritique => match e {
                AgentEvent::Text(Ok(json)) => {
                    let user = render_critique_user(json.as_str());
                    (
                        CreateMachine { stage: Stage::AwaitCritique, card, critique, refine_rounds },
                        ask(user),
                    )
                },
                AgentEvent::Text(Err(err)) => ended(err),
                _ => {
                    proof {
                        assert(false);
                    }
                    ended(CharacterError::EmptyConcept)
                },
            },
            Stage::AwaitCritique => match e {
                AgentEvent::Text(Ok(raw)) => match extract_json_object(raw.as_str()) {
                    None => ended(CharacterError::Parse(owned(NO_CRITIQUE_JSON))),
                    Some(json) => (
                        CreateMachine { stage: Stage::DecodeCritique, card, critique, refine_rounds },
                        AgentAction::DecodeCritique { json },
                    ),
                },
                AgentEvent::Text(Err(err)) => ended(err),
                _ => {
                    proof {
                        assert(false);
                    }
                    ended(CharacterError::EmptyConcept)
                },
            },
            Stage::DecodeCritique => match e {
                AgentEvent::Critique(Ok(rep)) => match rep.checked() {
                    Err(err) => ended(err),
                    Ok(rep) => {
                        if rep.needs_refine() && refine_rounds < MAX_REFINE_ROUNDS {
                            (
                                CreateMachine {
                                    stage: Stage::EncodeCardForRefine,
                                    card,
                                    critique: Some(rep),
                                    refine_rounds,
                                },
                                AgentAction::EncodeCard,
                            )
                        } else {
                            match card {
                                Some(c) => (
                                    CreateMachine {
                                        stage: Stage::Finished,
                                        card: None,
                                        critique: None,
                                        refine_rounds,
                                    },
                                    finish(c, rep, refine_rounds),
                                ),
                                None => {
                                    proof {
                                        assert(false);
                                    }
                                    ended(CharacterError::EmptyConcept)
                                },
                            }
                        }
                    },
                },
                AgentEvent::Critique(Err(err)) => ended(err),
                _ => {
                    proof {
                        assert(false);
                    }
                    ended(CharacterError::EmptyConcept)
                },
            },
            Stage::EncodeCardForRefine => match e {
                AgentEvent::Text(Ok(card_json)) => (
                    CreateMachine {
                        stage: Stage::EncodeCritiqueForRefine { card_json },
                        card,
                        critique,
                        refine_rounds,
                    },
                    AgentAction::EncodeCritique,
                ),
                AgentEvent::Text(Err(err)) => ended(err),
                _ => {
                    proof {
                        assert(false);
                    }
                    ended(CharacterError::EmptyConcept)
                },
            },
            Stage::EncodeCritiqueForRefine { card_json } => match e {
                AgentEvent::Text(Ok(critique_json)) => {
                    let user = render_refine_user(card_json.as_str(), critique_json.as_str());
                    (
                        CreateMachine {
                            stage: Stage::AwaitCard { refining: true },
                            card,
                            critique,
                            refine_rounds,
                        },
                        ask(user),
                    )
                },
                AgentEvent::Text(Err(err)) => ended(err),
                _ => {
                    proof {
                        assert(false);
                    }
                    ended(CharacterError::EmptyConcept)
                },
            },
            Stage::Finished => {
                proof {
                    assert(false);
                }
                ended(CharacterError::EmptyConcept)
            },
        }
    }
}

/// A run never has a negative step budget, so [`steps_left`] bounds how many
/// steps remain.
pub proof fn lemma_steps_left_nonnegative(m: CreateMachine)
    requires
        m.wf(),
    ensures
        steps_left(m) >= 0,
        !(m.stage is Finished) ==> steps_left(m) >= 11,
{
}

/// Self-Refine's stopping rule: a run that ends with an outcome hands back a
/// card that passes hard validation and a critique whose scores are in
/// range; it stopped refining either because the critique asked for no more
/// or because [`MAX_REFINE_ROUNDS`] passes were spent.
pub proof fn lemma_outcome_settled(
    m: CreateMachine,
    e: AgentEvent,
    r: (CreateMachine, AgentAction),
    out: CreateCardOutcome,
)
    requires
        m.wf(),
        accepts_spec(m.stage, e),
        step_post(m, e, r),
        r.1 == AgentAction::Done(Ok::<CreateCardOutcome, CharacterError>(out)),
    ensures
        card_violation(out.card) is None,
        range_violation(out.critique.scores) is None,
        out.refine_rounds <= MAX_REFINE_ROUNDS,
        out.refine_rounds < MAX_REFINE_ROUNDS ==> !report_needs_refine(out.critique),
{
}

} // verus!
