use novelagent::card::{CardExtensions, NovelAgentCharExt, RelationshipNode, TavernCardV2};
use novelagent::{seed_card_artifacts, validate_card, MemoryKind};

fn rich_card() -> TavernCardV2 {
    let mut card = TavernCardV2::skeleton_zh("苏晚");
    card.data.description = "夜班店员".to_owned();
    card.data.personality = "克制".to_owned();
    card.data.scenario = "雨夜".to_owned();
    card.data.extensions = CardExtensions {
        novelagent: Some(NovelAgentCharExt {
            desire: "离开".to_owned(),
            need: "被看见".to_owned(),
            weakness: "拒人千里".to_owned(),
            moral_axis: "独立 vs 依附".to_owned(),
            knowledge_bounds: "不知用户身份".to_owned(),
            relationships: vec![RelationshipNode {
                name: "老周".to_owned(),
                relation_type: "mentor".to_owned(),
                defines_protagonist_how: "记得她".to_owned(),
            }],
            constraints: vec!["C-TOM".to_owned(), "C-NO-USER".to_owned()],
            ..NovelAgentCharExt::default()
        }),
    };
    card
}

#[test]
fn seed_fills_book_mem_kg() {
    let mut card = rich_card();
    validate_card(&card).expect("valid before seed");
    let art = seed_card_artifacts(&mut card, Some(1_700_000_000));
    let book = card.data.character_book.as_ref().expect("lorebook attached");
    assert!(book.entries.len() >= 3);
    assert!(art.memory.entries.len() >= 5);
    assert!(!art.kg.edges.is_empty());
    validate_card(&card).expect("still valid after seed");
}

#[test]
fn produces_card_mem_kg_trio() {
    let mut card = rich_card();
    let art = seed_card_artifacts(&mut card, Some(1_700_000_000));
    let book = card.data.character_book.as_ref().expect("lorebook attached on card");
    assert_eq!(book.name.as_deref(), Some("苏晚 的 lorebook"));
    assert_eq!(art.memory.character_name, "苏晚");
    assert!(art.memory.next_id > 0);
    assert!(!art.memory.entries.is_empty());
    assert!(art.memory.entries.iter().all(|e| matches!(e.kind, MemoryKind::Seed)));
    assert!(art.memory.entries.iter().any(|e| e.text.starts_with("苏晚：")));
    assert_eq!(art.kg.character_name, "苏晚");
    assert!(art.kg.nodes.iter().any(|n| n.node_type == "protagonist" && n.label == "苏晚"));
}

#[test]
fn seeding_changes_only_the_book() {
    let given = rich_card();
    let mut card = given.clone();
    let _ = seed_card_artifacts(&mut card, Some(5));
    assert_eq!(card.data.name, given.data.name);
    assert_eq!(card.data.extensions, given.data.extensions);
    assert_eq!(card.spec, given.spec);
    let mut skeleton = TavernCardV2::skeleton_zh("空");
    let before = skeleton.clone();
    let art = seed_card_artifacts(&mut skeleton, Some(5));
    assert_eq!(skeleton, before);
    assert!(art.memory.entries.is_empty());
}
