use novelagent::card::{CardExtensions, NovelAgentCharExt, TavernCardV2};
use novelagent::validate_card;

#[test]
fn accepts_skeleton() {
    let card = TavernCardV2::skeleton_zh("阿宁");
    validate_card(&card).expect("skeleton ok");
}

#[test]
fn rejects_empty_name() {
    let mut card = TavernCardV2::skeleton_zh("x");
    card.data.name = "   ".to_owned();
    assert!(validate_card(&card).is_err());
}

#[test]
fn rejects_unknown_constraint() {
    let mut card = TavernCardV2::skeleton_zh("阿宁");
    card.data.extensions = CardExtensions {
        novelagent: Some(NovelAgentCharExt {
            constraints: vec!["C-FAKE".to_owned()],
            locale: "zh-CN".to_owned(),
            ..NovelAgentCharExt::default()
        }),
    };
    assert!(validate_card(&card).is_err());
}

#[test]
fn accepts_known_constraint() {
    let mut card = TavernCardV2::skeleton_zh("阿宁");
    card.data.extensions = CardExtensions {
        novelagent: Some(NovelAgentCharExt {
            constraints: vec!["C-TOM".to_owned(), "C-NO-USER".to_owned()],
            locale: "zh-CN".to_owned(),
            ..NovelAgentCharExt::default()
        }),
    };
    validate_card(&card).expect("known constraints ok");
}

#[test]
fn rejects_wrong_spec() {
    let mut card = TavernCardV2::skeleton_zh("x");
    card.spec = "chara_card_v3".to_owned();
    let err = validate_card(&card).expect_err("wrong spec");
    let msg = err.message();
    assert!(msg.contains("spec must be"), "msg: {msg}");
    assert_eq!(
        msg,
        "character card validation failed: spec must be `chara_card_v2`, got `chara_card_v3`"
    );
}

#[test]
fn rejects_wrong_spec_version() {
    let mut card = TavernCardV2::skeleton_zh("x");
    card.spec_version = "1.5".to_owned();
    let err = validate_card(&card).expect_err("wrong version");
    let msg = err.message();
    assert!(msg.contains("spec_version must be"), "msg: {msg}");
}

#[test]
fn rejects_whitespace_only_name() {
    let mut card = TavernCardV2::skeleton_zh("x");
    card.data.name = "\t \n".to_owned();
    assert!(validate_card(&card).is_err());
}

#[test]
fn accepts_single_char_name() {
    let card = TavernCardV2::skeleton_zh("宁");
    validate_card(&card).expect("single char ok");
}

#[test]
fn reports_first_unknown_constraint_id() {
    let mut card = TavernCardV2::skeleton_zh("x");
    card.data.extensions = CardExtensions {
        novelagent: Some(NovelAgentCharExt {
            constraints: vec!["C-TOM".to_owned(), "C-INVENTED".to_owned()],
            locale: "zh-CN".to_owned(),
            ..NovelAgentCharExt::default()
        }),
    };
    let err = validate_card(&card).expect_err("unknown id");
    assert!(err.message().contains("C-INVENTED"));
}

#[test]
fn accepts_empty_constraints() {
    let card = TavernCardV2::skeleton_zh("x");
    validate_card(&card).expect("no constraints is fine");
}
