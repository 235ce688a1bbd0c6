use novelagent::card::{CardExtensions, NovelAgentCharExt, RelationshipNode, TavernCardV2};
use novelagent::{seed_memory_from_card, CharacterError, MemoryKind, MemoryStream};

fn sample_card() -> TavernCardV2 {
    let mut card = TavernCardV2::skeleton_zh("苏晚");
    card.data.description = "夜班店员".to_owned();
    card.data.personality = "克制".to_owned();
    card.data.scenario = "雨夜".to_owned();
    card.data.extensions = CardExtensions {
        novelagent: Some(NovelAgentCharExt {
            desire: "离开".to_owned(),
            need: "被看见".to_owned(),
            weakness: "拒人".to_owned(),
            moral_axis: "独立/依附".to_owned(),
            knowledge_bounds: "不知用户身份".to_owned(),
            relationships: vec![RelationshipNode {
                name: "老周".to_owned(),
                relation_type: "mentor".to_owned(),
                defines_protagonist_how: "唯一还记得她的人".to_owned(),
            }],
            ..NovelAgentCharExt::default()
        }),
    };
    card
}

#[test]
fn seed_produces_multiple_seed_entries() {
    let stream = seed_memory_from_card(&sample_card(), Some(1_700_000_000));
    assert!(stream.entries.len() >= 5);
    assert!(stream.entries.iter().all(|e| e.kind == MemoryKind::Seed));
    assert_eq!(stream.character_name, "苏晚");
}

#[test]
fn seed_texts_and_ids_are_exact() {
    let stream = seed_memory_from_card(&sample_card(), Some(42));
    let texts: Vec<&str> = stream.entries.iter().map(|e| e.text.as_str()).collect();
    assert_eq!(
        texts,
        vec![
            "苏晚：夜班店员",
            "性格：克制",
            "场景：雨夜",
            "欲望：离开",
            "内在需求：被看见",
            "弱点：拒人",
            "主题张力：独立/依附",
            "所知边界：不知用户身份",
            "关系：苏晚 —[mentor]→ 老周；唯一还记得她的人",
        ]
    );
    let importance: Vec<u8> = stream.entries.iter().map(|e| e.importance).collect();
    assert_eq!(importance, vec![7, 6, 6, 8, 8, 7, 6, 7, 7]);
    assert!(stream.entries.iter().enumerate().all(|(i, e)| e.id == i.to_string() && e.ts == 42));
    assert_eq!(stream.next_id, 9);
}

#[test]
fn skeleton_seeds_nothing() {
    let stream = seed_memory_from_card(&TavernCardV2::skeleton_zh("空"), Some(1));
    assert!(stream.entries.is_empty());
    assert_eq!(stream.next_id, 0);
}

#[test]
fn append_rejects_empty_text() {
    let mut s = MemoryStream::new("x");
    assert!(s.append(MemoryKind::Observation, "  ", 5, Some(1)).is_err());
    assert_eq!(
        s.append(MemoryKind::Observation, "", 5, Some(1)),
        Err(CharacterError::Validation("memory entry text must not be empty".to_owned()))
    );
    assert!(s.entries.is_empty());
    assert_eq!(s.next_id, 0);
}

#[test]
fn append_clamps_importance() {
    let mut s = MemoryStream::new("x");
    s.append(MemoryKind::Observation, "看到了雨", 99, Some(10)).expect("ok");
    assert_eq!(s.entries[0].importance, 10);
}

#[test]
fn append_preserves_order() {
    let mut s = MemoryStream::new("x");
    s.append(MemoryKind::Observation, "一", 5, Some(300)).unwrap();
    s.append(MemoryKind::Observation, "二", 5, Some(100)).unwrap();
    s.append(MemoryKind::Observation, "三", 5, Some(200)).unwrap();
    assert_eq!(s.entries[0].text, "一");
    assert_eq!(s.entries[1].text, "二");
    assert_eq!(s.entries[2].text, "三");
    assert!(s.entries[0].ts > s.entries[1].ts);
}

#[test]
fn importance_clamps_zero_to_one() {
    let mut s = MemoryStream::new("x");
    s.append(MemoryKind::Observation, "极低", 0, Some(1)).unwrap();
    assert_eq!(s.entries[0].importance, 1);
}

#[test]
fn append_trims_and_numbers_entries() {
    let mut s = MemoryStream::new("x");
    let e = s.append(MemoryKind::Reflection, "  想起了  ", 5, Some(7)).unwrap();
    assert_eq!(e.text, "想起了");
    assert_eq!(e.id, "0");
    let e = s.append(MemoryKind::Reflection, "又一次", 5, Some(8)).unwrap();
    assert_eq!(e.id, "1");
    assert_eq!(s.next_id, 2);
    assert_eq!(s.entries[1], e);
}

#[test]
fn filters_by_kind() {
    let mut s = MemoryStream::new("x");
    s.append(MemoryKind::Observation, "obs-1", 5, Some(1)).unwrap();
    s.append(MemoryKind::Reflection, "ref-1", 5, Some(2)).unwrap();
    s.append(MemoryKind::Observation, "obs-2", 5, Some(3)).unwrap();
    s.append(MemoryKind::Reflection, "ref-2", 5, Some(4)).unwrap();
    let matching = s.entries_of_kind(MemoryKind::Reflection);
    let reflections: Vec<&str> = matching.iter().map(|e| e.text.as_str()).collect();
    assert_eq!(reflections, vec!["ref-1", "ref-2"]);
}

#[test]
fn appended_ids_never_repeat() {
    let mut s = MemoryStream::new("x");
    for i in 0..12 {
        s.append(MemoryKind::Observation, "记", (i % 11) as u8, Some(i)).unwrap();
    }
    let mut ids: Vec<&str> = s.entries.iter().map(|e| e.id.as_str()).collect();
    assert_eq!(ids[10], "10");
    ids.sort();
    ids.dedup();
    assert_eq!(ids.len(), 12);
}
