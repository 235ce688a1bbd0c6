//! Typed errors for the character-card domain and for model construction.

use vstd::prelude::*;

use crate::text::push_str;

verus! {

/// Errors raised while validating, building, parsing or storing character
/// cards and their sidecars.
#[derive(Debug, Clone, PartialEq, Eq)]
pub enum CharacterError {
    /// Hard schema / constraint validation failed.
    Validation(String),
    /// Concept / user input empty after trim.
    EmptyConcept,
    /// Required environment variable missing (e.g. Cohere key).
    MissingApiKey(&'static str),
    /// Upstream client construction failed.
    ClientBuild(String),
    /// LLM completion failed (network / provider / scripted mock exhausted).
    Llm(String),
    /// Failed to parse LLM output into card or critique JSON.
    Parse(String),
    /// JSON (de)serialization failed; holds the serializer's message.
    Json(String),
    /// Embedding API / model call failed.
    Embed(String),
    /// Vector store (index / query) I/O failed.
    VectorStore(String),
    /// Filesystem I/O under the characters directory failed.
    Io(String),
}

/// Human-readable rendering of a [`CharacterError`] (what `Display` prints).
pub open spec fn character_error_text(e: CharacterError) -> Seq<char> {
    match e {
        CharacterError::Validation(m) => "character card validation failed: "@ + m@,
        CharacterError::EmptyConcept => "concept must not be empty"@,
        CharacterError::MissingApiKey(k) => "environment variable `"@ + k@ + "` is not set"@,
        CharacterError::ClientBuild(m) => "failed to build client: "@ + m@,
        CharacterError::Llm(m) => "llm call failed: "@ + m@,
        CharacterError::Parse(m) => "failed to parse llm json: "@ + m@,
        CharacterError::Json(m) => "character card json error: "@ + m@,
        CharacterError::Embed(m) => "embedding failed: "@ + m@,
        CharacterError::VectorStore(m) => "vector store error: "@ + m@,
        CharacterError::Io(m) => "io error: "@ + m@,
    }
}

impl CharacterError {
    /// The error's message, as its `Display` form reads.
    pub fn message(&self) -> (s: String)
        ensures
            s@ == character_error_text(*self),
    {
        let mut s = String::new();
        match self {
            CharacterError::Validation(m) => {
                push_str(&mut s, "character card validation failed: ");
                push_str(&mut s, m.as_str());
            },
            CharacterError::EmptyConcept => {
                push_str(&mut s, "concept must not be empty");
            },
            CharacterError::MissingApiKey(k) => {
                push_str(&mut s, "environment variable `");
                push_str(&mut s, k);
                push_str(&mut s, "` is not set");
            },
            CharacterError::ClientBuild(m) => {
                push_str(&mut s, "failed to build client: ");
                push_str(&mut s, m.as_str());
            },
            CharacterError::Llm(m) => {
                push_str(&mut s, "llm call failed: ");
                push_str(&mut s, m.as_str());
            },
            CharacterError::Parse(m) => {
                push_str(&mut s, "failed to parse llm json: ");
                push_str(&mut s, m.as_str());
            },
            CharacterError::Json(m) => {
                push_str(&mut s, "character card json error: ");
                push_str(&mut s, m.as_str());
            },
            CharacterError::Embed(m) => {
                push_str(&mut s, "embedding failed: ");
                push_str(&mut s, m.as_str());
            },
            CharacterError::VectorStore(m) => {
                push_str(&mut s, "vector store error: ");
                push_str(&mut s, m.as_str());
            },
            CharacterError::Io(m) => {
                push_str(&mut s, "io error: ");
                push_str(&mut s, m.as_str());
            },
        }
        s
    }
}

/// Errors raised while constructing the upstream model client.
#[derive(Debug, Clone, PartialEq, Eq)]
pub enum ModelError {
    /// The required API key environment variable was not set.
    MissingApiKey(&'static str),
    /// The underlying HTTP client builder rejected the configuration.
    ClientBuild(String),
}

/// Human-readable rendering of a [`ModelError`].
pub open spec fn model_error_text(e: ModelError) -> Seq<char> {
    match e {
        ModelError::MissingApiKey(k) => "environment variable `"@ + k@ + "` is not set"@,
        ModelError::ClientBuild(m) => "failed to build opencode go client: "@ + m@,
    }
}

impl ModelError {
    /// The error's message, as its `Display` form reads.
    pub fn message(&self) -> (s: String)
        ensures
            s@ == model_error_text(*self),
    {
        let mut s = String::new();
        match self {
            ModelError::MissingApiKey(k) => {
                push_str(&mut s, "environment variable `");
                push_str(&mut s, k);
                push_str(&mut s, "` is not set");
            },
            ModelError::ClientBuild(m) => {
                push_str(&mut s, "failed to build opencode go client: ");
                push_str(&mut s, m.as_str());
            },
        }
        s
    }

    /// The character-domain error that a model construction failure becomes
    /// when the live LLM backend is built.
    pub fn into_character_error(self) -> (e: CharacterError)
        ensures
            match self {
                ModelError::MissingApiKey(k) => e == CharacterError::MissingApiKey(k),
                ModelError::ClientBuild(m) => e == CharacterError::ClientBuild(m),
            },
    {
        match self {
            ModelError::MissingApiKey(k) => CharacterError::MissingApiKey(k),
            ModelError::ClientBuild(m) => CharacterError::ClientBuild(m),
        }
    }
}

} // verus!
