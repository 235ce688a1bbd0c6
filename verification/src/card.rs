//! SillyTavern Character Card V2 types plus the `novelagent` extension.
//!
//! Field shapes follow the community V2 spec (`chara_card_v2` /
//! `spec_version` `2.0`). Fields owned by this project live under
//! `data.extensions.novelagent` so cards stay importable elsewhere.
//! Free-form extension maps are carried as their raw JSON object text.

use vstd::prelude::*;

use crate::text::owned;

verus! {

/// Spec constant for V2 cards.
pub const CARD_SPEC: &'static str = "chara_card_v2";

/// Spec version constant.
pub const CARD_SPEC_VERSION: &'static str = "2.0";

/// Product default locale for generated cards and prompts.
pub const DEFAULT_CARD_LOCALE: &'static str = "zh-CN";

/// Default creator written into skeleton cards.
pub const DEFAULT_CREATOR: &'static str = "NovelAgent";

/// Default character version written into skeleton cards.
pub const DEFAULT_CHARACTER_VERSION: &'static str = "0.1.0";

/// Raw JSON text of an empty extension object.
pub const EMPTY_JSON_OBJECT: &'static str = "{}";

/// V2 root wrapper (PNG/JSON export envelope).
#[derive(Debug, Clone, PartialEq, Eq)]
pub struct TavernCardV2 {
    /// Must be `"chara_card_v2"`.
    pub spec: String,
    /// Must be `"2.0"`.
    pub spec_version: String,
    /// Card payload.
    pub data: CharDataV2,
}

/// V2 character payload (permanent defs + control surfaces + lorebook).
#[derive(Debug, Clone, PartialEq, Eq)]
pub struct CharDataV2 {
    pub name: String,
    pub description: String,
    pub personality: String,
    pub scenario: String,
    pub first_mes: String,
    pub mes_example: String,
    pub creator_notes: String,
    pub system_prompt: String,
    pub post_history_instructions: String,
    pub alternate_greetings: Vec<String>,
    pub tags: Vec<String>,
    pub creator: String,
    pub character_version: String,
    pub character_book: Option<CharacterBook>,
    pub extensions: CardExtensions,
}

/// Extension bag; only the `novelagent` namespace is modelled.
#[derive(Debug, Clone, PartialEq, Eq, Default)]
pub struct CardExtensions {
    pub novelagent: Option<NovelAgentCharExt>,
}

/// Character-engineering fields owned by this project (not ST-native).
#[derive(Debug, Clone, PartialEq, Eq, Default)]
pub struct NovelAgentCharExt {
    /// 外在欲望（可见目标）。
    pub desire: String,
    /// 内在需求（须克服的缺陷/错误认知）。
    pub need: String,
    /// 开局致命弱点。
    pub weakness: String,
    /// 道德/主题张力轴。
    pub moral_axis: String,
    /// 情绪弧：短标签或 `{trigger, response}` 节拍。
    pub emotion_arc: Vec<EmotionBeat>,
    /// 人物网络节点。
    pub relationships: Vec<RelationshipNode>,
    /// 声浪标记（用词/句式/禁忌）。
    pub voice_markers: Vec<String>,
    /// 启用的约束 ID（如 `C-TOM`）。
    pub constraints: Vec<String>,
    /// 所知边界说明。
    pub knowledge_bounds: String,
    /// 默认内容语言（BCP-47）；产品默认 `zh-CN`。
    pub locale: String,
}

/// One beat on the emotional arc (tag and/or concrete trigger→response).
#[derive(Debug, Clone, PartialEq, Eq, Default)]
pub struct EmotionBeat {
    /// Optional short tag (e.g. `hope` / `fear`).
    pub tag: String,
    /// Situation that fires the beat.
    pub trigger: String,
    /// Character response / behavior.
    pub response: String,
}

/// One node in the character network (defines the protagonist from an angle).
#[derive(Debug, Clone, PartialEq, Eq)]
pub struct RelationshipNode {
    pub name: String,
    /// e.g. `ally` / `rival` / `mentor` / `foil` (`"type"` on the wire).
    pub relation_type: String,
    /// How this character defines the protagonist.
    pub defines_protagonist_how: String,
}

/// Embedded lorebook (ST `character_book`).
#[derive(Debug, Clone, PartialEq, Eq)]
pub struct CharacterBook {
    pub name: Option<String>,
    pub description: Option<String>,
    pub scan_depth: Option<u32>,
    pub token_budget: Option<u32>,
    pub recursive_scanning: Option<bool>,
    /// Raw JSON text of the book's extension object.
    pub extensions: String,
    pub entries: Vec<LoreEntry>,
}

/// One lorebook entry (keyword-triggered or constant).
#[derive(Debug, Clone, PartialEq, Eq)]
pub struct LoreEntry {
    pub keys: Vec<String>,
    pub content: String,
    pub enabled: bool,
    pub insertion_order: i32,
    pub case_sensitive: Option<bool>,
    pub name: Option<String>,
    pub priority: Option<i32>,
    pub id: Option<i32>,
    pub comment: Option<String>,
    pub selective: Option<bool>,
    pub secondary_keys: Option<Vec<String>>,
    pub constant: Option<bool>,
    pub position: Option<String>,
    /// Raw JSON text of the entry's extension object.
    pub extensions: String,
}

/// The extension block that [`TavernCardV2::skeleton_zh`] carries.
pub open spec fn skeleton_ext_spec(e: NovelAgentCharExt) -> bool {
    &&& e.desire@.len() == 0
    &&& e.need@.len() == 0
    &&& e.weakness@.len() == 0
    &&& e.moral_axis@.len() == 0
    &&& e.emotion_arc@.len() == 0
    &&& e.relationships@.len() == 0
    &&& e.voice_markers@.len() == 0
    &&& e.constraints@.len() == 0
    &&& e.knowledge_bounds@.len() == 0
    &&& e.locale@ == DEFAULT_CARD_LOCALE@
}

/// The skeleton card for `name`: spec constants, the name, every free-text
/// field empty, tag `zh-CN`, default creator/version, no book, and an empty
/// `novelagent` extension with locale `zh-CN`.
pub open spec fn is_skeleton_of(card: TavernCardV2, name: Seq<char>) -> bool {
    &&& card.spec@ == CARD_SPEC@
    &&& card.spec_version@ == CARD_SPEC_VERSION@
    &&& card.data.name@ == name
    &&& card.data.description@.len() == 0
    &&& card.data.personality@.len() == 0
    &&& card.data.scenario@.len() == 0
    &&& card.data.first_mes@.len() == 0
    &&& card.data.mes_example@.len() == 0
    &&& card.data.creator_notes@.len() == 0
    &&& card.data.system_prompt@.len() == 0
    &&& card.data.post_history_instructions@.len() == 0
    &&& card.data.alternate_greetings@.len() == 0
    &&& card.data.tags@.len() == 1
    &&& card.data.tags@[0]@ == DEFAULT_CARD_LOCALE@
    &&& card.data.creator@ == DEFAULT_CREATOR@
    &&& card.data.character_version@ == DEFAULT_CHARACTER_VERSION@
    &&& card.data.character_book is None
    &&& card.data.extensions.novelagent matches Some(e) && skeleton_ext_spec(e)
}

/// The locale a card extension gets when none is given.
pub fn default_locale() -> (s: String)
    ensures
        s@ == DEFAULT_CARD_LOCALE@,
{
    owned(DEFAULT_CARD_LOCALE)
}

impl TavernCardV2 {
    /// Build an empty-but-valid Chinese skeleton card with a name.
    pub fn skeleton_zh(name: &str) -> (card: Self)
        ensures
            is_skeleton_of(card, name@),
    {
        let mut tags: Vec<String> = Vec::new();
        tags.push(default_locale());
        TavernCardV2 {
            spec: owned(CARD_SPEC),
            spec_version: owned(CARD_SPEC_VERSION),
            data: CharDataV2 {
                name: owned(name),
                description: String::new(),
                personality: String::new(),
                scenario: String::new(),
                first_mes: String::new(),
                mes_example: String::new(),
                creator_notes: String::new(),
                system_prompt: String::new(),
                post_history_instructions: String::new(),
                alternate_greetings: Vec::new(),
                tags,
                creator: owned(DEFAULT_CREATOR),
                character_version: owned(DEFAULT_CHARACTER_VERSION),
                character_book: None,
                extensions: CardExtensions {
                    novelagent: Some(
                        NovelAgentCharExt {
                            desire: String::new(),
                            need: String::new(),
                            weakness: String::new(),
                            moral_axis: String::new(),
                            emotion_arc: Vec::new(),
                            relationships: Vec::new(),
                            voice_markers: Vec::new(),
                            constraints: Vec::new(),
                            knowledge_bounds: String::new(),
                            locale: default_locale(),
                        },
                    ),
                },
            },
        }
    }
}

impl EmotionBeat {
    /// A beat given only as a short tag (the arc's plain-string form).
    pub fn from_tag(tag: String) -> (b: Self)
        ensures
            b.tag == tag,
            b.trigger@.len() == 0,
            b.response@.len() == 0,
    {
        EmotionBeat { tag, trigger: String::new(), response: String::new() }
    }
}

} // verus!
