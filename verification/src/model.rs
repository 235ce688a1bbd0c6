//! Static configuration of the upstream chat model and the embedding model.

use vstd::prelude::*;

verus! {

/// OpenAI-compatible base URL for the OpenCode Go plan.
pub const OPENCODE_GO_BASE_URL: &'static str = "https://opencode.ai/zen/go/v1";

/// Model identifier for DeepSeek V4 Flash on OpenCode Go.
pub const DEEPSEEK_V4_FLASH_MODEL_ID: &'static str = "deepseek-v4-flash";

/// Environment variable that holds the OpenCode Go API key.
pub const OPENCODE_GO_API_KEY_ENV: &'static str = "OPENCODE_GO_API_KEY";

/// Token headroom for one card-sized JSON reply.
pub const CARD_MAX_TOKENS: u64 = 8192;

/// Environment variable read for the Cohere key.
pub const COHERE_API_KEY_ENV: &'static str = "COHERE_API_KEY";

/// Embedding model for Chinese / multilingual memory.
pub const COHERE_EMBED_MODEL_ID: &'static str = "embed-multilingual-v3.0";

/// Dimensions of [`COHERE_EMBED_MODEL_ID`].
pub const COHERE_EMBED_DIMS: usize = 1024;

/// Cohere input type when indexing documents.
pub const COHERE_INPUT_DOCUMENT: &'static str = "search_document";

/// Cohere input type when embedding a retrieval query.
pub const COHERE_INPUT_QUERY: &'static str = "search_query";

} // verus!
