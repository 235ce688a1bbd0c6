use std::collections::VecDeque;

use novelagent::agent::{
    card_json_candidate, coerce_card_reply, coerce_plan, nonblank_reply, repair_prompt, CoercePlan, JsonRootShape,
    REPAIR_INSTRUCTION,
};
use novelagent::card::{CARD_SPEC, CARD_SPEC_VERSION, CardExtensions, NovelAgentCharExt, RelationshipNode, TavernCardV2};
use novelagent::rubric::{CritiqueFlags, CritiqueReport, DimensionScores, MAX_REFINE_ROUNDS};
use novelagent::{
    extract_json_object, strip_markdown_fence, validate_card, AgentAction, AgentEvent,
    CharacterError, CreateCardOutcome, CreateMachine,
};

fn sample_card(name: &str) -> TavernCardV2 {
    let mut card = TavernCardV2::skeleton_zh(name);
    card.data.description = "雨夜便利店夜班店员".to_owned();
    card.data.personality = "寡言".to_owned();
    card.data.scenario = "暴雨停电前".to_owned();
    card.data.first_mes = "……灯又闪了。".to_owned();
    card.data.mes_example = "<START>\n{{user}}: 你好\n{{char}}: 嗯。要热饭吗。\n".to_owned();
    card.data.system_prompt = "你是{{char}}。只扮演{{char}}。禁止代写{{user}}。".to_owned();
    card.data.post_history_instructions = "保持短句；禁止全知。".to_owned();
    card.data.extensions = CardExtensions {
        novelagent: Some(NovelAgentCharExt {
            desire: "撑完这班".to_owned(),
            need: "承认害怕孤独".to_owned(),
            weakness: "不求人".to_owned(),
            moral_axis: "自保 vs 伸出援手".to_owned(),
            knowledge_bounds: "不知道用户真名".to_owned(),
            voice_markers: vec!["短句".to_owned()],
            constraints: vec![
                "C-TOM".to_owned(),
                "C-NO-USER".to_owned(),
                "C-VOICE".to_owned(),
                "C-DESIRE-NEED".to_owned(),
                "C-SCHEMA".to_owned(),
            ],
            locale: "zh-CN".to_owned(),
            relationships: vec![
                RelationshipNode {
                    name: "店长".to_owned(),
                    relation_type: "boss".to_owned(),
                    defines_protagonist_how: "压榨与秩序".to_owned(),
                },
                RelationshipNode {
                    name: "常客".to_owned(),
                    relation_type: "foil".to_owned(),
                    defines_protagonist_how: "对照冷漠".to_owned(),
                },
            ],
            ..NovelAgentCharExt::default()
        }),
    };
    card
}

/// A reply standing for a serialized card of this name.
fn valid_card_json(name: &str) -> String {
    format!("{{\"card\":\"{name}\"}}")
}

fn good_critique_json() -> String {
    "{\"critique\":\"good\"}".to_owned()
}

fn weak_critique_json() -> String {
    "{\"critique\":\"weak\"}".to_owned()
}

fn report(scores: [u8; 5], must_fix: Vec<String>) -> CritiqueReport {
    CritiqueReport {
        scores: DimensionScores {
            premise: scores[0],
            character: scores[1],
            voice: scores[2],
            tom: scores[3],
            constraints: scores[4],
        },
        flags: CritiqueFlags { schema_ok: true, placeholders_ok: true, locale_ok: true },
        issues: Vec::new(),
        must_fix,
        summary: "s".to_owned(),
    }
}

fn decode_card(json: &str) -> Result<TavernCardV2, CharacterError> {
    if let Some(rest) = json.strip_prefix("{\"card\":\"") {
        if let Some(name) = rest.strip_suffix("\"}") {
            return Ok(sample_card(name));
        }
    }
    Err(CharacterError::Parse(format!("card json: not a card ({json})")))
}

fn decode_critique(json: &str) -> Result<CritiqueReport, CharacterError> {
    match json {
        "{\"critique\":\"good\"}" => Ok(report([4, 4, 4, 4, 4], Vec::new())),
        "{\"critique\":\"weak\"}" => Ok(report([2, 3, 3, 3, 3], vec!["强化 desire/need 对立".to_owned()])),
        "{\"critique\":\"wild\"}" => Ok(report([9, 3, 3, 3, 3], Vec::new())),
        _ => Err(CharacterError::Parse(format!("critique json: unexpected ({json})"))),
    }
}

/// Drive a create run against scripted model replies; returns the result
/// and the number of steps taken.
fn drive(concept: &str, replies: Vec<String>) -> (Result<CreateCardOutcome, CharacterError>, usize, usize) {
    let (mut machine, mut action) = match CreateMachine::start(concept) {
        Ok(pair) => pair,
        Err(e) => return (Err(e), 0, 0),
    };
    let mut queue: VecDeque<String> = replies.into();
    let mut steps = 0;
    loop {
        let event = match action {
            AgentAction::Done(result) => return (result, steps, queue.len()),
            AgentAction::Complete { system, user } => {
                assert_eq!(system, novelagent::META_SYSTEM);
                assert!(!user.is_empty());
                AgentEvent::Text(
                    queue
                        .pop_front()
                        .ok_or_else(|| CharacterError::Llm("scripted responses exhausted".to_owned())),
                )
            },
            AgentAction::DecodeCard { json } => AgentEvent::Card(decode_card(&json)),
            AgentAction::DecodeCritique { json } => AgentEvent::Critique(decode_critique(&json)),
            AgentAction::EncodeCard => {
                let name = machine.card.as_ref().expect("card held").data.name.clone();
                AgentEvent::Text(Ok(valid_card_json(&name)))
            },
            AgentAction::EncodeCritique => {
                assert!(machine.critique.is_some());
                AgentEvent::Text(Ok(weak_critique_json()))
            },
        };
        assert!(machine.accepts(&event));
        let (next, next_action) = machine.step(event);
        machine = next;
        action = next_action;
        steps += 1;
        assert!(steps <= 39);
    }
}

#[test]
fn extract_json_object_from_noise() {
    let raw = "here you go:\n{\"a\":1}\nthanks";
    assert_eq!(extract_json_object(raw).as_deref(), Some(r#"{"a":1}"#));
}

#[test]
fn extract_json_object_returns_none_for_no_braces() {
    assert_eq!(extract_json_object(""), None);
    assert_eq!(extract_json_object("no json here"), None);
    assert_eq!(extract_json_object("{unclosed"), None);
}

#[test]
fn strip_fence_handles_json_and_bare() {
    let json_body = r#"{"a":1}"#;
    let cases = [
        format!("```json\n{json_body}\n```"),
        format!("```JSON\n{json_body}\n```"),
        format!("```\n{json_body}\n```"),
    ];
    for c in cases {
        assert_eq!(extract_json_object(&c).as_deref(), Some(json_body), "input: {c}");
    }
}

#[test]
fn strip_fence_keeps_unfenced_text_trimmed() {
    assert_eq!(strip_markdown_fence("  plain  "), "plain");
    assert_eq!(strip_markdown_fence("```json\n{}"), "{}");
    assert_eq!(strip_markdown_fence("```"), "");
}

#[test]
fn extract_rejects_closing_brace_before_opening() {
    assert_eq!(extract_json_object("} then {"), None);
    assert_eq!(extract_json_object("a {x} b {y} c").as_deref(), Some("{x} b {y}"));
}

#[test]
fn card_candidate_reports_byte_length() {
    let err = card_json_candidate("雨夜").expect_err("no object");
    assert_eq!(err, CharacterError::Parse("card reply has no json object (len=6)".to_owned()));
    assert_eq!(card_json_candidate("x {\"a\":1} y").unwrap(), "{\"a\":1}");
}

#[test]
fn repair_prompt_wraps_raw_text() {
    let p = repair_prompt("oops");
    assert!(p.starts_with("将以下内容修复为合法的 SillyTavern 根 JSON。"));
    assert!(p.contains("\"spec\":\"chara_card_v2\""));
    assert!(p.ends_with("无解释：\n\noops"));
    assert_eq!(p, format!("{REPAIR_INSTRUCTION}oops"));
}

#[test]
fn coerce_plan_cases() {
    let shape = |is_object, has_data, has_spec, has_spec_version, has_name| JsonRootShape {
        is_object,
        has_data,
        has_spec,
        has_spec_version,
        has_name,
    };
    assert_eq!(
        coerce_plan(shape(false, false, false, false, false)),
        Err(CharacterError::Parse("card json root must be an object".to_owned()))
    );
    assert_eq!(
        coerce_plan(shape(true, true, false, true, true)),
        Ok(CoercePlan::FillHeader { add_spec: true, add_spec_version: false })
    );
    assert_eq!(coerce_plan(shape(true, false, false, false, true)), Ok(CoercePlan::WrapFlat));
    assert_eq!(
        coerce_plan(shape(true, false, true, true, false)),
        Err(CharacterError::Parse("card json missing `data` or top-level `name`".to_owned()))
    );
}

/// Apply a reshaping plan to the decoded reply, as the caller that decodes
/// the card does.
fn reshape(raw: &str, plan: &CoercePlan) -> serde_json::Value {
    let value: serde_json::Value = serde_json::from_str(raw).expect("valid json");
    match plan {
        CoercePlan::FillHeader { add_spec, add_spec_version } => {
            let mut v = value;
            let obj = v.as_object_mut().expect("object");
            if *add_spec {
                obj.insert("spec".to_owned(), serde_json::Value::from(CARD_SPEC));
            }
            if *add_spec_version {
                obj.insert("spec_version".to_owned(), serde_json::Value::from(CARD_SPEC_VERSION));
            }
            v
        }
        CoercePlan::WrapFlat => {
            let mut obj = serde_json::Map::new();
            obj.insert("spec".to_owned(), serde_json::Value::from(CARD_SPEC));
            obj.insert("spec_version".to_owned(), serde_json::Value::from(CARD_SPEC_VERSION));
            obj.insert("data".to_owned(), value);
            serde_json::Value::Object(obj)
        }
    }
}

#[test]
fn coerce_wraps_flat_data_with_name() {
    let raw = r#"{"name":"阿宁","description":"店员","extensions":{}}"#;
    let plan = coerce_card_reply(raw).expect("coerce flat");
    assert_eq!(plan, CoercePlan::WrapFlat);
    let card = reshape(raw, &plan);
    assert_eq!(card["spec"], CARD_SPEC);
    assert_eq!(card["spec_version"], CARD_SPEC_VERSION);
    assert_eq!(card["data"]["name"], "阿宁");
}

#[test]
fn coerce_fills_missing_spec_on_data_wrapper() {
    let raw = r#"{"data":{"name":"阿宁","description":"x","extensions":{}}}"#;
    let plan = coerce_card_reply(raw).expect("coerce wrapper");
    assert_eq!(plan, CoercePlan::FillHeader { add_spec: true, add_spec_version: true });
    let card = reshape(raw, &plan);
    assert_eq!(card["spec"], CARD_SPEC);
    assert_eq!(card["spec_version"], CARD_SPEC_VERSION);
    assert_eq!(card["data"]["name"], "阿宁");
    assert_eq!(
        coerce_card_reply(r#"{"spec":"chara_card_v2","data":{}}"#),
        Ok(CoercePlan::FillHeader { add_spec: false, add_spec_version: true })
    );
}

#[test]
fn coerce_refuses_non_cards() {
    assert_eq!(
        coerce_card_reply("[1, 2]"),
        Err(CharacterError::Parse("card json root must be an object".to_owned()))
    );
    assert_eq!(
        coerce_card_reply(r#"{"other":1}"#),
        Err(CharacterError::Parse("card json missing `data` or top-level `name`".to_owned()))
    );
    match coerce_card_reply("{not json") {
        Err(CharacterError::Parse(m)) => assert!(m.starts_with("card json: ") && m.len() > 11),
        other => panic!("unexpected {other:?}"),
    }
}

#[test]
fn blank_model_reply_is_llm_error() {
    assert_eq!(
        nonblank_reply(" \n".to_owned()),
        Err(CharacterError::Llm(
            "model returned empty content (check max_tokens / thinking budget)".to_owned()
        ))
    );
    assert_eq!(nonblank_reply("ok".to_owned()), Ok("ok".to_owned()));
}

#[test]
fn empty_concept_rejected() {
    let (r, _, _) = drive("  \n", Vec::new());
    assert!(matches!(r, Err(CharacterError::EmptyConcept)));
}

#[test]
fn happy_path_no_refine() {
    let (r, _, left) = drive("雨夜店员", vec![valid_card_json("林晚"), good_critique_json()]);
    let out = r.expect("create");
    assert_eq!(left, 0);
    assert_eq!(out.card.data.name, "林晚");
    assert_eq!(out.refine_rounds, 0);
    assert!(!out.critique.needs_refine());
    let book = out.card.data.character_book.as_ref().expect("lorebook attached");
    assert!(book.entries.len() >= 3);
    assert!(out.memory.entries.len() >= 3);
    assert!(!out.kg.edges.is_empty());
    validate_card(&out.card).expect("final card valid");
}

#[test]
fn refine_once_when_critique_weak() {
    let (r, _, _) = drive(
        "雨夜店员",
        vec![
            valid_card_json("林晚"),
            weak_critique_json(),
            valid_card_json("林晚·改"),
            good_critique_json(),
        ],
    );
    let out = r.expect("create");
    assert_eq!(out.refine_rounds, 1);
    assert_eq!(out.card.data.name, "林晚·改");
    assert!(!out.critique.needs_refine());
}

#[test]
fn fenced_card_json_parses() {
    let fenced = format!("```json\n{}\n```", valid_card_json("阿宁"));
    let (r, _, _) = drive("概念", vec![fenced, good_critique_json()]);
    assert_eq!(r.expect("create").card.data.name, "阿宁");
}

#[test]
fn repair_once_on_invalid_then_ok() {
    let (r, _, _) = drive(
        "概念",
        vec!["not json at all".to_owned(), valid_card_json("修复后"), good_critique_json()],
    );
    assert_eq!(r.expect("repaired").card.data.name, "修复后");
}

#[test]
fn valid_first_parse_skips_repair_call() {
    let (r, _, left) = drive("概念", vec![valid_card_json("阿宁"), good_critique_json()]);
    assert_eq!(r.expect("create").card.data.name, "阿宁");
    assert_eq!(left, 0);
}

#[test]
fn repair_failure_yields_parse_error() {
    let (r, _, _) = drive(
        "概念",
        vec!["totally not json".to_owned(), "still not json".to_owned(), good_critique_json()],
    );
    let err = r.expect_err("should fail");
    assert_eq!(
        err,
        CharacterError::Parse(
            "after repair: failed to parse llm json: card reply has no json object (len=14); first: failed to parse llm json: card reply has no json object (len=16); raw_len=16"
                .to_owned()
        )
    );
}

#[test]
fn repair_after_undecodable_object() {
    let (r, _, _) = drive(
        "概念",
        vec!["{\"x\":1}".to_owned(), "{\"y\":2}".to_owned()],
    );
    let err = r.expect_err("both undecodable");
    assert_eq!(
        err,
        CharacterError::Parse(
            "after repair: failed to parse llm json: card json: not a card ({\"y\":2}); first: failed to parse llm json: card json: not a card ({\"x\":1}); raw_len=7"
                .to_owned()
        )
    );
}

#[test]
fn refine_caps_at_max_rounds_then_accepts() {
    let (r, steps, _) = drive(
        "概念",
        vec![
            valid_card_json("v0"),
            weak_critique_json(),
            valid_card_json("v1"),
            weak_critique_json(),
            valid_card_json("v2"),
            weak_critique_json(),
        ],
    );
    let out = r.expect("create with capped refine");
    assert_eq!(out.refine_rounds, MAX_REFINE_ROUNDS);
    assert_eq!(out.card.data.name, "v2");
    assert!(out.critique.needs_refine());
    assert!(steps <= 39);
}

#[test]
fn llm_error_during_critique_propagates() {
    let (r, _, _) = drive("概念", vec![valid_card_json("x"), "this is not json for critique".to_owned()]);
    assert_eq!(
        r.expect_err("no critique object"),
        CharacterError::Parse("critique reply has no json object".to_owned())
    );
}

#[test]
fn exhausted_script_surfaces_llm_error() {
    let (r, _, _) = drive("概念", vec![valid_card_json("x")]);
    assert_eq!(
        r.expect_err("exhausted"),
        CharacterError::Llm("scripted responses exhausted".to_owned())
    );
}

#[test]
fn out_of_range_critique_score_fails_run() {
    let (r, _, _) = drive("概念", vec![valid_card_json("x"), "{\"critique\":\"wild\"}".to_owned()]);
    let err = r.expect_err("score 9");
    assert!(matches!(err, CharacterError::Parse(ref m) if m.contains("premise")));
}

#[test]
fn invalid_final_card_is_refused() {
    let (r, _, _) = drive("概念", vec![valid_card_json("   "), good_critique_json()]);
    assert_eq!(
        r.expect_err("blank name"),
        CharacterError::Validation("data.name must be non-empty".to_owned())
    );
}
