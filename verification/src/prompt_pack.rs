//! Rendering of the meta-agent templates and assembly of the playable
//! system / post-history / role-context strings of a card.

use vstd::prelude::*;

use crate::card::{NovelAgentCharExt, TavernCardV2};
use crate::templates::{CRITIQUE_RUBRIC, REFINE, USER_CREATE};
use crate::text::{
    is_blank, is_blank_str, join, join_strings, push_str, replace_all, replace_str, trim,
    trim_str, views,
};

verus! {

/// Placeholder for the character name.
pub const CHAR_PLACEHOLDER: &'static str = "{{char}}";

/// Placeholder for the concept in the create template.
pub const CONCEPT_PLACEHOLDER: &'static str = "{{concept}}";

/// Placeholder for the card JSON in the critique / refine templates.
pub const CARD_JSON_PLACEHOLDER: &'static str = "{{card_json}}";

/// Placeholder for the critique JSON in the refine template.
pub const CRITIQUE_JSON_PLACEHOLDER: &'static str = "{{critique_json}}";

/// Post-history instructions used when the card leaves them empty.
pub const DEFAULT_PHI: &'static str = "只以 {{char}} 的身份回应。禁止代写 {{user}} 的对话、动作或内心。禁止总结道德金句收尾。禁止透露 {{char}} 不可能知道的信息。情绪用行为与身体细节外化，勿堆砌情绪标签。";

/// First fixed line of a synthesized system prompt after the identity line.
pub const SYSTEM_LINE_LANGUAGE: &'static str = "对白与动作使用第二人称互动对象为用户；用中文书写（除非角色设定要求其他语言）。";

/// Second fixed line of a synthesized system prompt.
pub const SYSTEM_LINE_NO_USER: &'static str = "禁止代写用户的对话、动作或内心。禁止用道德总结金句收尾。";

/// Third fixed line of a synthesized system prompt.
pub const SYSTEM_LINE_TOM: &'static str = "禁止写出角色不可能知道的信息。情绪通过行为与身体细节外化。";

/// Playable prompt surfaces derived from a V2 card.
#[derive(Debug, Clone, PartialEq, Eq)]
pub struct PromptPack {
    /// System / 扮演契约（`{{char}}` 已替换为角色名）。
    pub system: String,
    /// 尾部纠偏（PHI / UJB 位）。
    pub post_history_instructions: String,
    /// description + personality + scenario + 扩展字段拼成的角色上下文块。
    pub role_context: String,
}

/// `parts` with `item` appended when `cond` holds.
pub open spec fn push_when(parts: Seq<Seq<char>>, cond: bool, item: Seq<char>) -> Seq<Seq<char>> {
    if cond {
        parts.push(item)
    } else {
        parts
    }
}

/// A labelled line for a field that is non-blank: `label` + trimmed field.
pub open spec fn push_field(parts: Seq<Seq<char>>, label: Seq<char>, field: Seq<char>) -> Seq<
    Seq<char>,
> {
    push_when(parts, !is_blank(field), label + trim(field))
}

/// Extension lines of the role context.
pub open spec fn role_ext_parts(parts: Seq<Seq<char>>, ext: NovelAgentCharExt) -> Seq<Seq<char>> {
    let p1 = push_field(parts, "【欲望】"@, ext.desire@);
    let p2 = push_field(p1, "【需求】"@, ext.need@);
    let p3 = push_field(p2, "【所知边界】"@, ext.knowledge_bounds@);
    push_when(
        p3,
        ext.voice_markers@.len() > 0,
        "【声浪】"@ + join(views(ext.voice_markers@), "；"@),
    )
}

/// The lines of the role context, in order.
pub open spec fn role_context_parts(card: TavernCardV2) -> Seq<Seq<char>> {
    let d = card.data;
    let p1 = push_field(Seq::empty(), "【设定】"@, d.description@);
    let p2 = push_field(p1, "【性格】"@, d.personality@);
    let p3 = push_field(p2, "【场景】"@, d.scenario@);
    match d.extensions.novelagent {
        Some(ext) => role_ext_parts(p3, ext),
        None => p3,
    }
}

/// Role context block: the non-empty labelled fields joined by newlines.
pub open spec fn role_context_spec(card: TavernCardV2) -> Seq<char> {
    join(role_context_parts(card), "\n"@)
}

/// Extension lines of a synthesized system prompt.
pub open spec fn system_ext_lines(lines: Seq<Seq<char>>, ext: NovelAgentCharExt) -> Seq<Seq<char>> {
    let l1 = push_field(lines, "外在目标："@, ext.desire@);
    let l2 = push_field(l1, "内在需求："@, ext.need@);
    let l3 = push_field(l2, "所知边界："@, ext.knowledge_bounds@);
    let l4 = push_when(
        l3,
        ext.voice_markers@.len() > 0,
        "声浪标记："@ + join(views(ext.voice_markers@), "；"@),
    );
    push_when(l4, ext.constraints@.len() > 0, "启用约束："@ + join(views(ext.constraints@), ", "@))
}

/// The lines of a synthesized system prompt, in order.
pub open spec fn system_lines(card: TavernCardV2) -> Seq<Seq<char>> {
    let name = card.data.name@;
    let base = seq![
        "你是"@ + name + "。只扮演"@ + name + "，绝不扮演用户或其他角色。"@,
        SYSTEM_LINE_LANGUAGE@,
        SYSTEM_LINE_NO_USER@,
        SYSTEM_LINE_TOM@,
    ];
    let with_ext = match card.data.extensions.novelagent {
        Some(ext) => system_ext_lines(base, ext),
        None => base,
    };
    push_field(with_ext, "性格要点："@, card.data.personality@)
}

/// Chinese role-play contract synthesized from the card's core fields.
pub open spec fn synthesized_system(card: TavernCardV2) -> Seq<char> {
    join(system_lines(card), "\n"@)
}

/// The system surface of a card: its trimmed `system_prompt` with `{{char}}`
/// replaced, or the synthesized contract when the prompt is blank.
pub open spec fn pack_system(card: TavernCardV2) -> Seq<char> {
    if is_blank(card.data.system_prompt@) {
        synthesized_system(card)
    } else {
        replace_all(trim(card.data.system_prompt@), CHAR_PLACEHOLDER@, card.data.name@)
    }
}

/// The post-history surface of a card: its trimmed instructions with
/// `{{char}}` replaced, or [`DEFAULT_PHI`] with `{{char}}` replaced.
pub open spec fn pack_phi(card: TavernCardV2) -> Seq<char> {
    if is_blank(card.data.post_history_instructions@) {
        replace_all(DEFAULT_PHI@, CHAR_PLACEHOLDER@, card.data.name@)
    } else {
        replace_all(trim(card.data.post_history_instructions@), CHAR_PLACEHOLDER@, card.data.name@)
    }
}

/// `text` is a sequence of `\n`-separated lines, one of which is `line`.
pub open spec fn has_line(text: Seq<char>, line: Seq<char>) -> bool {
    exists|lines: Seq<Seq<char>>| text == join(lines, "\n"@) && lines.contains(line)
}

proof fn lemma_push_when_keeps(parts: Seq<Seq<char>>, cond: bool, item: Seq<char>, x: Seq<char>)
    ensures
        parts.contains(x) ==> push_when(parts, cond, item).contains(x),
        cond ==> push_when(parts, cond, item).contains(item),
{
    if parts.contains(x) {
        let k = choose|k: int| 0 <= k < parts.len() && parts[k] == x;
        assert(push_when(parts, cond, item)[k] == x);
    }
    if cond {
        assert(push_when(parts, cond, item)[parts.len() as int] == item);
    }
}

proof fn lemma_push_field_keeps(parts: Seq<Seq<char>>, label: Seq<char>, field: Seq<char>, x: Seq<char>)
    ensures
        parts.contains(x) ==> push_field(parts, label, field).contains(x),
        !is_blank(field) ==> push_field(parts, label, field).contains(label + trim(field)),
{
    lemma_push_when_keeps(parts, !is_blank(field), label + trim(field), x);
}

/// A card without a system prompt of its own gets a synthesized role-play
/// contract that names the character and states, each on a line of its
/// own, every non-blank field it is built from: the desire, the need, what
/// the character does not know, the voice markers, the enabled constraints
/// and the personality.
pub proof fn lemma_contract_states_fields(card: TavernCardV2)
    requires
        is_blank(card.data.system_prompt@),
    ensures
        has_line(
            pack_system(card),
            "你是"@ + card.data.name@ + "。只扮演"@ + card.data.name@ + "，绝不扮演用户或其他角色。"@,
        ),
        has_line(pack_system(card), SYSTEM_LINE_TOM@),
        !is_blank(card.data.personality@) ==> has_line(
            pack_system(card),
            "性格要点："@ + trim(card.data.personality@),
        ),
        card.data.extensions.novelagent matches Some(ext) ==> {
            &&& !is_blank(ext.desire@) ==> has_line(pack_system(card), "外在目标："@ + trim(ext.desire@))
            &&& !is_blank(ext.need@) ==> has_line(pack_system(card), "内在需求："@ + trim(ext.need@))
            &&& !is_blank(ext.knowledge_bounds@) ==> has_line(
                pack_system(card),
                "所知边界："@ + trim(ext.knowledge_bounds@),
            )
            &&& ext.voice_markers@.len() > 0 ==> has_line(
                pack_system(card),
                "声浪标记："@ + join(views(ext.voice_markers@), "；"@),
            )
            &&& ext.constraints@.len() > 0 ==> has_line(
                pack_system(card),
                "启用约束："@ + join(views(ext.constraints@), ", "@),
            )
        },
{
    let name = card.data.name@;
    let first = "你是"@ + name + "。只扮演"@ + name + "，绝不扮演用户或其他角色。"@;
    let base = seq![first, SYSTEM_LINE_LANGUAGE@, SYSTEM_LINE_NO_USER@, SYSTEM_LINE_TOM@];
    assert(base[0] == first);
    assert(base[3] == SYSTEM_LINE_TOM@);
    let lines = system_lines(card);
    let pers = "性格要点："@ + trim(card.data.personality@);
    match card.data.extensions.novelagent {
        None => {
            lemma_push_field_keeps(base, "性格要点："@, card.data.personality@, first);
            lemma_push_field_keeps(base, "性格要点："@, card.data.personality@, SYSTEM_LINE_TOM@);
        },
        Some(ext) => {
            let d = "外在目标："@ + trim(ext.desire@);
            let n = "内在需求："@ + trim(ext.need@);
            let kb = "所知边界："@ + trim(ext.knowledge_bounds@);
            let l1 = push_field(base, "外在目标："@, ext.desire@);
            let l2 = push_field(l1, "内在需求："@, ext.need@);
            let l3 = push_field(l2, "所知边界："@, ext.knowledge_bounds@);
            let vm = "声浪标记："@ + join(views(ext.voice_markers@), "；"@);
            let l4 = push_when(l3, ext.voice_markers@.len() > 0, vm);
            let cs = "启用约束："@ + join(views(ext.constraints@), ", "@);
            let l5 = push_when(l4, ext.constraints@.len() > 0, cs);
            assert(system_ext_lines(base, ext) == l5);
            assert forall|x: Seq<char>| base.contains(x) || x == d && !is_blank(ext.desire@) || x == n
                && !is_blank(ext.need@) || x == kb && !is_blank(ext.knowledge_bounds@) || x == vm
                && ext.voice_markers@.len() > 0 || x == cs && ext.constraints@.len() > 0 implies (
            #[trigger] lines.contains(x)) by {
                lemma_push_field_keeps(base, "外在目标："@, ext.desire@, x);
                lemma_push_field_keeps(l1, "内在需求："@, ext.need@, x);
                lemma_push_field_keeps(l2, "所知边界："@, ext.knowledge_bounds@, x);
                lemma_push_when_keeps(l3, ext.voice_markers@.len() > 0, vm, x);
                lemma_push_when_keeps(l4, ext.constraints@.len() > 0, cs, x);
                lemma_push_field_keeps(l5, "性格要点："@, card.data.personality@, x);
            }
            assert(base.contains(first));
            assert(base.contains(SYSTEM_LINE_TOM@));
            assert(lines.contains(first));
            assert(lines.contains(SYSTEM_LINE_TOM@));
            if !is_blank(ext.desire@) {
                assert(lines.contains(d));
            }
            if !is_blank(ext.need@) {
                assert(lines.contains(n));
            }
            if !is_blank(ext.knowledge_bounds@) {
                assert(lines.contains(kb));
            }
            if ext.voice_markers@.len() > 0 {
                assert(lines.contains(vm));
            }
            if ext.constraints@.len() > 0 {
                assert(lines.contains(cs));
            }
        },
    }
    let with_ext = match card.data.extensions.novelagent {
        Some(ext) => system_ext_lines(base, ext),
        None => base,
    };
    lemma_push_field_keeps(with_ext, "性格要点："@, card.data.personality@, first);
    assert(pack_system(card) == join(lines, "\n"@));
}

/// The text of the create prompt for a concept.
pub open spec fn user_create_text(concept: Seq<char>) -> Seq<char> {
    replace_all(USER_CREATE@, CONCEPT_PLACEHOLDER@, trim(concept))
}

/// The text of the critique prompt for a card's JSON.
pub open spec fn critique_user_text(card_json: Seq<char>) -> Seq<char> {
    replace_all(CRITIQUE_RUBRIC@, CARD_JSON_PLACEHOLDER@, card_json)
}

/// The text of the refine prompt for a card's JSON and its critique's JSON.
pub open spec fn refine_user_text(card_json: Seq<char>, critique_json: Seq<char>) -> Seq<char> {
    replace_all(
        replace_all(REFINE@, CARD_JSON_PLACEHOLDER@, card_json),
        CRITIQUE_JSON_PLACEHOLDER@,
        critique_json,
    )
}

/// Replace every `{{char}}` with the card name; `{{user}}` and any other
/// placeholder are left for the host chat layer.
pub fn apply_char_placeholder(text: &str, char_name: &str) -> (out: String)
    ensures
        out@ == replace_all(text@, CHAR_PLACEHOLDER@, char_name@),
{
    proof {
        reveal_strlit("{{char}}");
    }
    replace_str(text, CHAR_PLACEHOLDER, char_name)
}

/// Fill `{{concept}}` in the create user template with the trimmed concept.
pub fn render_user_create(concept: &str) -> (out: String)
    ensures
        out@ == user_create_text(concept@),
{
    proof {
        reveal_strlit("{{concept}}");
    }
    let c = trim_str(concept);
    replace_str(USER_CREATE, CONCEPT_PLACEHOLDER, c.as_str())
}

/// Fill `{{card_json}}` in the critique template.
pub fn render_critique_user(card_json: &str) -> (out: String)
    ensures
        out@ == critique_user_text(card_json@),
{
    proof {
        reveal_strlit("{{card_json}}");
    }
    replace_str(CRITIQUE_RUBRIC, CARD_JSON_PLACEHOLDER, card_json)
}

/// Fill card + critique JSON into the refine template.
pub fn render_refine_user(card_json: &str, critique_json: &str) -> (out: String)
    ensures
        out@ == refine_user_text(card_json@, critique_json@),
{
    proof {
        reveal_strlit("{{card_json}}");
        reveal_strlit("{{critique_json}}");
    }
    let first = replace_str(REFINE, CARD_JSON_PLACEHOLDER, card_json);
    replace_str(first.as_str(), CRITIQUE_JSON_PLACEHOLDER, critique_json)
}

/// Appends `label` + trimmed `field` when the field is not blank.
fn push_labeled(parts: &mut Vec<String>, label: &str, field: &str)
    ensures
        views(final(parts)@) == push_field(views(old(parts)@), label@, field@),
{
    if !is_blank_str(field) {
        let mut line = String::new();
        push_str(&mut line, label);
        let t = trim_str(field);
        push_str(&mut line, t.as_str());
        let ghost before = parts@;
        parts.push(line);
        assert(views(parts@) =~= views(before).push(label@ + trim(field@)));
    }
}

/// Appends `label` + the items joined by `sep` when there is any item.
fn push_joined(parts: &mut Vec<String>, label: &str, items: &Vec<String>, sep: &str)
    ensures
        views(final(parts)@) == push_when(
            views(old(parts)@),
            items@.len() > 0,
            label@ + join(views(items@), sep@),
        ),
{
    if items.len() > 0 {
        let mut line = String::new();
        push_str(&mut line, label);
        let j = join_strings(items, sep);
        push_str(&mut line, j.as_str());
        let ghost before = parts@;
        parts.push(line);
        assert(views(parts@) =~= views(before).push(label@ + join(views(items@), sep@)));
    }
}

/// Appends the extension lines of the role context.
fn append_ext_context(parts: &mut Vec<String>, ext: &NovelAgentCharExt)
    ensures
        views(final(parts)@) == role_ext_parts(views(old(parts)@), *ext),
{
    push_labeled(parts, "【欲望】", ext.desire.as_str());
    push_labeled(parts, "【需求】", ext.need.as_str());
    push_labeled(parts, "【所知边界】", ext.knowledge_bounds.as_str());
    push_joined(parts, "【声浪】", &ext.voice_markers, "；");
}

/// The role context block of a card.
fn assemble_role_context(card: &TavernCardV2) -> (out: String)
    ensures
        out@ == role_context_spec(*card),
{
    let d = &card.data;
    let mut parts: Vec<String> = Vec::new();
    assert(views(parts@) =~= Seq::<Seq<char>>::empty());
    push_labeled(&mut parts, "【设定】", d.description.as_str());
    push_labeled(&mut parts, "【性格】", d.personality.as_str());
    push_labeled(&mut parts, "【场景】", d.scenario.as_str());
    if let Some(ext) = &d.extensions.novelagent {
        append_ext_context(&mut parts, ext);
    }
    join_strings(&parts, "\n")
}

fn synthesize_system(card: &TavernCardV2) -> (out: String)
    ensures
        out@ == synthesized_system(*card),
{
    let name = card.data.name.as_str();
    let mut first = String::new();
    push_str(&mut first, "你是");
    push_str(&mut first, name);
    push_str(&mut first, "。只扮演");
    push_str(&mut first, name);
    push_str(&mut first, "，绝不扮演用户或其他角色。");
    let mut lines: Vec<String> = Vec::new();
    lines.push(first);
    lines.push(crate::text::owned(SYSTEM_LINE_LANGUAGE));
    lines.push(crate::text::owned(SYSTEM_LINE_NO_USER));
    lines.push(crate::text::owned(SYSTEM_LINE_TOM));
    assert(views(lines@) =~= seq![
        "你是"@ + card.data.name@ + "。只扮演"@ + card.data.name@ + "，绝不扮演用户或其他角色。"@,
        SYSTEM_LINE_LANGUAGE@,
        SYSTEM_LINE_NO_USER@,
        SYSTEM_LINE_TOM@,
    ]);
    if let Some(ext) = &card.data.extensions.novelagent {
        push_labeled(&mut lines, "外在目标：", ext.desire.as_str());
        push_labeled(&mut lines, "内在需求：", ext.need.as_str());
        push_labeled(&mut lines, "所知边界：", ext.knowledge_bounds.as_str());
        push_joined(&mut lines, "声浪标记：", &ext.voice_markers, "；");
        push_joined(&mut lines, "启用约束：", &ext.constraints, ", ");
    }
    push_labeled(&mut lines, "性格要点：", card.data.personality.as_str());
    join_strings(&lines, "\n")
}

/// Assemble system + post-history + role context for chat injection.
///
/// - A non-blank `system_prompt` / `post_history_instructions` is used
///   trimmed, after `{{char}}` → name substitution.
/// - A blank `system_prompt` falls back to a synthesized Chinese contract
///   from the core fields and `extensions.novelagent`.
/// - Blank post-history instructions fall back to [`DEFAULT_PHI`] with
///   `{{char}}` replaced.
pub fn assemble_prompt_pack(card: &TavernCardV2) -> (pack: PromptPack)
    ensures
        pack.system@ == pack_system(*card),
        pack.post_history_instructions@ == pack_phi(*card),
        pack.role_context@ == role_context_spec(*card),
{
    let name = card.data.name.as_str();
    let system = if is_blank_str(card.data.system_prompt.as_str()) {
        synthesize_system(card)
    } else {
        let t = trim_str(card.data.system_prompt.as_str());
        apply_char_placeholder(t.as_str(), name)
    };
    let phi = if is_blank_str(card.data.post_history_instructions.as_str()) {
        apply_char_placeholder(DEFAULT_PHI, name)
    } else {
        let t = trim_str(card.data.post_history_instructions.as_str());
        apply_char_placeholder(t.as_str(), name)
    };
    PromptPack { system, post_history_instructions: phi, role_context: assemble_role_context(card) }
}

} // verus!
