use novelagent::memory::{MemoryEntry, MemoryKind, MemoryStream};
use novelagent::vector_store::{
    check_embed_dims, docs_of_stream, join_path, plan_search, SearchPlan,
};
use novelagent::{character_slug, db_path_for, CharacterError, MemoryDoc};

#[test]
fn character_slug_strips_path_chars() {
    assert_eq!(character_slug("苏晚"), "苏晚");
    assert_eq!(character_slug("a/b:c"), "a_b_c");
    assert_eq!(character_slug("   "), "character");
}

#[test]
fn slug_trims_underscores_and_is_idempotent() {
    assert_eq!(character_slug("  林 晚 "), "林_晚");
    assert_eq!(character_slug("__x?<y>__"), "x__y");
    for name in ["苏晚", "a/b:c", "   ", "  林 晚 ", "__x?<y>__", "Ab-9_z"] {
        let once = character_slug(name);
        assert_eq!(character_slug(&once), once);
    }
}

#[test]
fn slug_is_one_ordinary_path_component() {
    assert_eq!(character_slug(".."), "character");
    assert_eq!(character_slug("."), "character");
    assert_eq!(character_slug(" .. "), "character");
    assert_eq!(character_slug("_._"), "character");
    assert_eq!(character_slug("..."), "...");
    assert_eq!(character_slug("a.b"), "a.b");
    assert_eq!(character_slug("../x"), ".._x");
    assert_eq!(db_path_for("data/lancedb", ".."), "data/lancedb/character");
    for name in ["..", ".", "...", "../x", "a.b"] {
        let once = character_slug(name);
        assert_eq!(character_slug(&once), once);
    }
}

#[test]
fn db_path_joins_slug() {
    let p = db_path_for("data/lancedb", "苏晚");
    assert!(std::path::Path::new(&p).ends_with("苏晚"));
    assert_eq!(p, "data/lancedb/苏晚");
}

#[test]
fn join_path_separator_rules() {
    assert_eq!(join_path("", "x"), "x");
    assert_eq!(join_path("a/", "x"), "a/x");
    assert_eq!(join_path("a", "x"), "a/x");
}

#[test]
fn memory_doc_from_entry() {
    let e = MemoryEntry {
        id: "0".into(),
        ts: 42,
        kind: MemoryKind::Seed,
        text: "雨夜便利店".into(),
        importance: 8,
    };
    let d = MemoryDoc::from_entry(&e);
    assert_eq!(d.id, "0");
    assert_eq!(d.kind, "seed");
    assert_eq!(d.importance, 8);
    assert_eq!(d.text, "雨夜便利店");
    assert_eq!(d.ts, 42);
}

#[test]
fn memory_doc_kind_maps_all_variants() {
    for (kind, expected) in [
        (MemoryKind::Seed, "seed"),
        (MemoryKind::Observation, "observation"),
        (MemoryKind::Reflection, "reflection"),
    ] {
        let e = MemoryEntry { id: "0".into(), ts: 1, kind, text: "t".into(), importance: 1 };
        assert_eq!(MemoryDoc::from_entry(&e).kind, expected);
    }
}

#[test]
fn empty_stream_has_no_rows_to_index() {
    let stream = MemoryStream::new("empty_test");
    assert!(docs_of_stream(&stream).is_empty());
}

#[test]
fn docs_follow_stream_order() {
    let mut stream = MemoryStream::new("x");
    stream.append(MemoryKind::Seed, "一", 9, Some(1)).unwrap();
    stream.append(MemoryKind::Observation, "二", 3, Some(2)).unwrap();
    let docs = docs_of_stream(&stream);
    assert_eq!(docs.len(), 2);
    assert_eq!(docs[1].text, "二");
    assert_eq!(docs[1].kind, "observation");
    assert_eq!(docs[1].id, "1");
}

#[test]
fn search_rejects_empty_query_without_key() {
    let err = plan_search("   ", 5).expect_err("blank query rejected");
    assert!(matches!(err, CharacterError::Validation(_)));
    assert_eq!(err, CharacterError::Validation("memory search query must not be empty".to_owned()));
}

#[test]
fn search_k_zero_returns_empty_without_key() {
    assert_eq!(plan_search("雨夜", 0), Ok(SearchPlan::Empty));
}

#[test]
fn search_over_fetches_twice_k() {
    assert_eq!(
        plan_search("  雨夜  ", 3),
        Ok(SearchPlan::Query { query: "雨夜".to_owned(), samples: 6, k: 3 })
    );
    assert_eq!(
        plan_search("q", usize::MAX),
        Ok(SearchPlan::Query { query: "q".to_owned(), samples: usize::MAX as u64, k: usize::MAX })
    );
}

#[test]
fn embed_dims_checked() {
    assert_eq!(check_embed_dims(1024), Ok(()));
    assert_eq!(
        check_embed_dims(768),
        Err(CharacterError::Embed("unexpected embedding dims 768, expected 1024".to_owned()))
    );
}
