use novelagent::card::{CardExtensions, NovelAgentCharExt, RelationshipNode, TavernCardV2};
use novelagent::{
    attach_lorebook, build_lorebook, DEFAULT_LORE_SCAN_DEPTH, DEFAULT_LORE_TOKEN_BUDGET,
    MAX_LORE_ENTRIES,
};

fn rich_card() -> TavernCardV2 {
    let mut card = TavernCardV2::skeleton_zh("苏晚");
    card.data.description = "雨夜便利店的夜班店员。".to_owned();
    card.data.scenario = "台风夜，店 bell 响起。".to_owned();
    card.data.extensions = CardExtensions {
        novelagent: Some(NovelAgentCharExt {
            desire: "攒钱离开这座城".to_owned(),
            need: "承认自己需要被看见".to_owned(),
            weakness: "把关心当成施舍".to_owned(),
            moral_axis: "独立 vs 依附".to_owned(),
            knowledge_bounds: "不知道用户真实身份".to_owned(),
            voice_markers: vec!["短句".to_owned(), "少用感叹号".to_owned()],
            relationships: vec![RelationshipNode {
                name: "老周".to_owned(),
                relation_type: "mentor".to_owned(),
                defines_protagonist_how: "提醒她还有人会记得她".to_owned(),
            }],
            locale: "zh-CN".to_owned(),
            ..NovelAgentCharExt::default()
        }),
    };
    card
}

#[test]
fn builds_between_3_and_10_entries() {
    let book = build_lorebook(&rich_card()).expect("book");
    assert!(book.entries.len() >= 3);
    assert!(book.entries.len() <= MAX_LORE_ENTRIES);
    assert_eq!(book.token_budget, Some(DEFAULT_LORE_TOKEN_BUDGET));
}

#[test]
fn book_header_fields() {
    let book = build_lorebook(&rich_card()).expect("book");
    assert_eq!(book.name.as_deref(), Some("苏晚 的 lorebook"));
    assert_eq!(book.scan_depth, Some(DEFAULT_LORE_SCAN_DEPTH));
    assert_eq!(book.recursive_scanning, Some(false));
    assert_eq!(book.entries.len(), 9);
    assert_eq!(book.entries[0].comment.as_deref(), Some("identity"));
    assert_eq!(book.entries[0].keys, vec!["苏晚", "身份", "简介"]);
    assert_eq!(book.entries[7].content, "短句；少用感叹号");
}

#[test]
fn empty_skeleton_yields_none() {
    let card = TavernCardV2::skeleton_zh("空");
    assert!(build_lorebook(&card).is_none());
}

#[test]
fn attach_writes_character_book() {
    let mut card = rich_card();
    attach_lorebook(&mut card);
    let book = card.data.character_book.expect("attached");
    assert!(book.entries.iter().any(|e| e.keys.iter().any(|k| k == "苏晚")));
    assert!(book.entries.iter().any(|e| e.comment.as_deref() == Some("desire")));
}

#[test]
fn relationship_entry_contains_other_name() {
    let book = build_lorebook(&rich_card()).expect("book");
    let rel = book
        .entries
        .iter()
        .find(|e| e.comment.as_deref() == Some("relationship"))
        .expect("rel entry");
    assert!(rel.content.contains("老周"));
    assert!(rel.keys.iter().any(|k| k == "老周"));
}

#[test]
fn attaches_lorebook_within_budget() {
    let book = build_lorebook(&rich_card()).expect("book");
    assert!(book.entries.len() <= MAX_LORE_ENTRIES, "got {} entries", book.entries.len());
    assert!(book.entries.len() >= 3);
}

#[test]
fn truncates_when_over_max() {
    let mut card = TavernCardV2::skeleton_zh("宁");
    card.data.description = "描述".to_owned();
    card.data.scenario = "场景".to_owned();
    card.data.extensions = CardExtensions {
        novelagent: Some(NovelAgentCharExt {
            desire: "欲望".to_owned(),
            need: "需求".to_owned(),
            weakness: "弱点".to_owned(),
            moral_axis: "主题".to_owned(),
            knowledge_bounds: "边界".to_owned(),
            voice_markers: vec!["短句".to_owned()],
            relationships: (0..5)
                .map(|i| RelationshipNode {
                    name: format!("人{i}"),
                    relation_type: "ally".to_owned(),
                    defines_protagonist_how: "对照".to_owned(),
                })
                .collect(),
            ..NovelAgentCharExt::default()
        }),
    };
    let book = build_lorebook(&card).expect("book");
    assert_eq!(book.entries.len(), MAX_LORE_ENTRIES);
}

#[test]
fn constant_entries_always_active() {
    let book = build_lorebook(&rich_card()).expect("book");
    let kb = book
        .entries
        .iter()
        .find(|e| e.comment.as_deref() == Some("knowledge_bounds"))
        .expect("kb entry");
    assert_eq!(kb.constant, Some(true));
    let voice = book.entries.iter().find(|e| e.comment.as_deref() == Some("voice")).expect("voice entry");
    assert_eq!(voice.constant, Some(true));
}
