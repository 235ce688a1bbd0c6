use novelagent::card::{CardExtensions, NovelAgentCharExt, RelationshipNode, TavernCardV2};
use novelagent::{
    apply_char_placeholder, assemble_prompt_pack, render_critique_user, render_refine_user,
    render_user_create, CRITIQUE_RUBRIC, META_SYSTEM, REFINE, USER_CREATE,
};

fn fixture_card() -> TavernCardV2 {
    let mut card = TavernCardV2::skeleton_zh("林晚");
    card.data.description = "雨夜便利店的夜班店员".to_owned();
    card.data.personality = "寡言，观察力强".to_owned();
    card.data.scenario = "暴雨停电前的十分钟".to_owned();
    card.data.system_prompt = "你是{{char}}。只扮演{{char}}。禁止代写{{user}}。".to_owned();
    card.data.post_history_instructions = "保持{{char}}的短句习惯。".to_owned();
    card.data.extensions = CardExtensions {
        novelagent: Some(NovelAgentCharExt {
            desire: "撑完这班".to_owned(),
            need: "承认自己害怕孤独".to_owned(),
            knowledge_bounds: "不知道用户真实姓名".to_owned(),
            voice_markers: vec!["短句".to_owned(), "少形容词".to_owned()],
            constraints: vec!["C-TOM".to_owned(), "C-NO-USER".to_owned()],
            locale: "zh-CN".to_owned(),
            relationships: vec![
                RelationshipNode {
                    name: "店长".to_owned(),
                    relation_type: "boss".to_owned(),
                    defines_protagonist_how: "压榨与秩序".to_owned(),
                },
                RelationshipNode {
                    name: "常客".to_owned(),
                    relation_type: "foil".to_owned(),
                    defines_protagonist_how: "对照其冷漠".to_owned(),
                },
            ],
            ..NovelAgentCharExt::default()
        }),
    };
    card
}

#[test]
fn meta_templates_are_nonempty_and_mention_constraints() {
    assert!(META_SYSTEM.contains("C-TOM"));
    assert!(META_SYSTEM.contains("chara_card_v2"));
    assert!(USER_CREATE.contains("{{concept}}"));
    assert!(CRITIQUE_RUBRIC.contains("premise"));
    assert!(REFINE.contains("{{critique_json}}"));
}

#[test]
fn apply_char_placeholder_replaces_char_keeps_user() {
    let out = apply_char_placeholder("{{char}}对{{user}}点头", "林晚");
    assert_eq!(out, "林晚对{{user}}点头");
}

#[test]
fn assemble_uses_card_system_and_replaces_char() {
    let pack = assemble_prompt_pack(&fixture_card());
    assert!(pack.system.contains("林晚"));
    assert!(!pack.system.contains("{{char}}"));
    assert!(pack.system.contains("{{user}}"));
    assert!(pack.post_history_instructions.contains("林晚"));
    assert!(pack.role_context.contains("雨夜便利店"));
    assert!(pack.role_context.contains("撑完这班"));
    assert!(pack.role_context.contains("不知道用户真实姓名"));
    assert!(pack.role_context.contains("短句"));
}

#[test]
fn assemble_exact_pack_from_card_fields() {
    let pack = assemble_prompt_pack(&fixture_card());
    assert_eq!(pack.system, "你是林晚。只扮演林晚。禁止代写{{user}}。");
    assert_eq!(pack.post_history_instructions, "保持林晚的短句习惯。");
    assert_eq!(
        pack.role_context,
        "【设定】雨夜便利店的夜班店员\n【性格】寡言，观察力强\n【场景】暴雨停电前的十分钟\n【欲望】撑完这班\n【需求】承认自己害怕孤独\n【所知边界】不知道用户真实姓名\n【声浪】短句；少形容词"
    );
}

#[test]
fn empty_system_falls_back_to_synthesized() {
    let mut card = fixture_card();
    card.data.system_prompt.clear();
    card.data.post_history_instructions.clear();
    let pack = assemble_prompt_pack(&card);
    assert!(pack.system.contains("林晚"));
    assert!(pack.system.contains("撑完这班"));
    assert!(pack.system.contains("C-TOM"));
    assert!(pack.post_history_instructions.contains("林晚"));
    assert!(pack.post_history_instructions.contains("禁止代写"));
}

#[test]
fn render_user_create_injects_concept() {
    let s = render_user_create("  赛博僧侣  ");
    assert!(s.contains("赛博僧侣"));
    assert!(!s.contains("{{concept}}"));
    assert_eq!(s, USER_CREATE.replace("{{concept}}", "赛博僧侣"));
}

#[test]
fn render_critique_user_injects_card_json() {
    let json = r#"{"spec":"chara_card_v2","spec_version":"2.0","data":{"name":"x"}}"#;
    let out = render_critique_user(json);
    assert!(out.contains(json));
    assert!(!out.contains("{{card_json}}"));
}

#[test]
fn render_refine_user_injects_card_and_critique() {
    let card = r#"{"data":{"name":"x"}}"#;
    let crit = r#"{"scores":{"premise":3}}"#;
    let out = render_refine_user(card, crit);
    assert!(out.contains(card));
    assert!(out.contains(crit));
    assert!(!out.contains("{{card_json}}"));
    assert!(!out.contains("{{critique_json}}"));
}

#[test]
fn role_context_omits_empty_fields() {
    let card = TavernCardV2::skeleton_zh("x");
    let pack = assemble_prompt_pack(&card);
    assert!(pack.role_context.is_empty());
}

#[test]
fn synthesize_system_includes_constraints_and_voice() {
    let mut card = TavernCardV2::skeleton_zh("阿宁");
    card.data.extensions = CardExtensions {
        novelagent: Some(NovelAgentCharExt {
            voice_markers: vec!["短句".to_owned()],
            constraints: vec!["C-VOICE".to_owned()],
            ..NovelAgentCharExt::default()
        }),
    };
    let pack = assemble_prompt_pack(&card);
    assert!(pack.system.contains("声浪标记"));
    assert!(pack.system.contains("启用约束"));
    assert!(pack.system.contains("C-VOICE"));
}

#[test]
fn apply_char_placeholder_replaces_all_occurrences() {
    let out = apply_char_placeholder("{{char}}→{{user}}·{{char}}·{{char_name}}", "宁");
    assert_eq!(out, "宁→{{user}}·宁·{{char_name}}");
}
