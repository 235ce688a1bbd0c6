//! Character-card library: SillyTavern V2 card model, validation, prompt
//! assembly, lorebook / memory / knowledge-graph seeding, the Self-Refine
//! state machine and the pure parts of persistence, retrieval and the
//! command line.

pub mod error;
pub mod text;
pub mod card;
pub mod constraints;
pub mod rubric;
pub mod prompt_pack;
pub mod templates;
pub mod kg;
pub mod lorebook;
pub mod clock;
pub mod memory;
pub mod seed;
pub mod agent;
pub mod vector_store;
pub mod persist;
pub mod cli;
pub mod web;
pub mod model;

pub use agent::{
    extract_json_object, strip_markdown_fence, AgentAction, AgentEvent, CreateCardOutcome,
    CreateMachine, Stage,
};
pub use card::{
    CardExtensions, CharDataV2, CharacterBook, EmotionBeat, LoreEntry, NovelAgentCharExt,
    RelationshipNode, TavernCardV2, DEFAULT_CARD_LOCALE,
};
pub use cli::{
    format_character_list_summary, format_delete_summary, parse_command, usage_text,
    validate_user_message, Command,
};
pub use constraints::{validate_card, KNOWN_CONSTRAINT_IDS};
pub use error::{CharacterError, ModelError};
pub use kg::{build_kg_from_card, KgEdge, KgNode, KnowledgeGraph};
pub use lorebook::{
    attach_lorebook, build_lorebook, DEFAULT_LORE_SCAN_DEPTH, DEFAULT_LORE_TOKEN_BUDGET,
    MAX_LORE_ENTRIES,
};
pub use memory::{seed_memory_from_card, MemoryEntry, MemoryKind, MemoryStream};
pub use model::{
    COHERE_API_KEY_ENV, COHERE_EMBED_DIMS, COHERE_EMBED_MODEL_ID, COHERE_INPUT_DOCUMENT,
    COHERE_INPUT_QUERY, DEEPSEEK_V4_FLASH_MODEL_ID, OPENCODE_GO_API_KEY_ENV, OPENCODE_GO_BASE_URL,
};
pub use persist::{
    ArtifactPaths, CharacterSummary, CreateReport, DeleteOutcome, DEFAULT_CHARACTERS_DIR,
    format_create_summary,
};
pub use prompt_pack::{
    apply_char_placeholder, assemble_prompt_pack, render_critique_user, render_refine_user,
    render_user_create, PromptPack,
};
pub use rubric::{CritiqueFlags, CritiqueReport, DimensionScores, MAX_REFINE_ROUNDS, SCORE_THRESHOLD};
pub use seed::{seed_card_artifacts, CardArtifacts};
pub use templates::{CRITIQUE_RUBRIC, META_SYSTEM, REFINE, USER_CREATE};
pub use vector_store::{
    character_slug, db_path_for, MemoryDoc, DEFAULT_LANCEDB_DIR, MEMORY_TABLE_NAME,
};
