use novelagent::{
    COHERE_EMBED_DIMS, COHERE_EMBED_MODEL_ID, COHERE_INPUT_DOCUMENT, COHERE_INPUT_QUERY,
    DEEPSEEK_V4_FLASH_MODEL_ID, DEFAULT_CARD_LOCALE, OPENCODE_GO_API_KEY_ENV, OPENCODE_GO_BASE_URL,
};
use novelagent::{CharacterError, ModelError};

#[test]
fn model_id_is_multilingual_v3() {
    assert_eq!(COHERE_EMBED_MODEL_ID, "embed-multilingual-v3.0");
    assert_eq!(COHERE_EMBED_DIMS, 1024);
    assert_eq!(DEFAULT_CARD_LOCALE, "zh-CN");
    assert_eq!(COHERE_INPUT_DOCUMENT, "search_document");
    assert_eq!(COHERE_INPUT_QUERY, "search_query");
}

#[test]
fn base_url_constant_points_at_opencode_go() {
    assert_eq!(OPENCODE_GO_BASE_URL, "https://opencode.ai/zen/go/v1");
    assert_eq!(DEEPSEEK_V4_FLASH_MODEL_ID, "deepseek-v4-flash");
    assert_eq!(OPENCODE_GO_API_KEY_ENV, "OPENCODE_GO_API_KEY");
}

#[test]
fn model_errors_render_and_convert() {
    let missing = ModelError::MissingApiKey("OPENCODE_GO_API_KEY");
    assert_eq!(missing.message(), "environment variable `OPENCODE_GO_API_KEY` is not set");
    assert_eq!(
        missing.into_character_error(),
        CharacterError::MissingApiKey("OPENCODE_GO_API_KEY")
    );
    let build = ModelError::ClientBuild("bad url".to_owned());
    assert_eq!(build.message(), "failed to build opencode go client: bad url");
    assert_eq!(
        CharacterError::Parse("x".to_owned()).message(),
        "failed to parse llm json: x"
    );
    assert_eq!(CharacterError::EmptyConcept.message(), "concept must not be empty");
}
