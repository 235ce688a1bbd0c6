# novelagent

A character-card agent for SillyTavern V2 cards: it drafts a card from a
free-text concept with an LLM, critiques and refines it (Self-Refine, at most
two refine passes, one repair per unparseable reply), validates it, seeds a
lorebook, a memory stream and an ego knowledge graph from it, and keeps the
results on disk for listing, chatting, deleting and regenerating.

## Layout

- `src/` — the library, verified with Verus. Every function states its
  result over `Seq<char>` views of its strings:
  - `text` — trimming, searching, replacing and joining, with exact specs.
  - `card`, `constraints`, `rubric` — the card model, hard validation, the
    five-dimension critique.
  - `prompt_pack`, `templates` — prompt templates and the chat prompt pack.
  - `lorebook`, `memory`, `kg`, `seed` — deterministic seeding from a card.
  - `agent` — reply parsing and the create-card state machine: the caller
    performs each action (model call, JSON decode/encode) and feeds back the
    result; the machine's invariant bounds refine passes and run length.
  - `persist`, `vector_store` — file layout, report contents, slugs, listing
    order, deletion verdicts, search and indexing checks.
  - `cli`, `web`, `model` — argument dispatch, reply lines, configuration.
- `app/` — the binary: environment, LLM and embedding clients, filesystem,
  JSON (de)serialisation, floating-point ranking and the Topcoat web UI.
  `app/vector.rs` is the optional LanceDB + Cohere semantic memory
  (indexing a memory stream, hybrid-ranked search); it needs the `lancedb`,
  `arrow-array` and `rig-lancedb` crates, which `Cargo.toml` does not list,
  so the binary builds only once they are added. The library side of it —
  document rows, database paths, the search and indexing checks — is in
  `src/vector_store.rs` and is verified.
- `tests/` — tests of the library's public functions.
