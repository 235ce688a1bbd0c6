use novelagent::cli::{
    chat_preamble, parse_command, regenerate_concept, require_concept, require_slug, usage_text,
    validate_user_message, Command,
};
use novelagent::persist::{CharacterSummary, DeleteOutcome};
use novelagent::prompt_pack::PromptPack;
use novelagent::rubric::DimensionScores;
use novelagent::{format_character_list_summary, format_delete_summary};

fn args(words: &[&str]) -> Vec<String> {
    words.iter().map(|w| (*w).to_owned()).collect()
}

fn sample_with_scores() -> CharacterSummary {
    CharacterSummary {
        slug: "苏晚".to_owned(),
        name: "苏晚".to_owned(),
        concept: None,
        refine_rounds: Some(1),
        scores: Some(DimensionScores {
            premise: 4,
            character: 5,
            voice: 4,
            tom: 4,
            constraints: 5,
        }),
        memory_entries: Some(3),
        kg_edges: Some(2),
        lore_entries: Some(1),
        card_path: "data/characters/苏晚_card.json".to_owned(),
    }
}

fn sample_without_report() -> CharacterSummary {
    CharacterSummary {
        slug: "ghost".to_owned(),
        name: "ghost".to_owned(),
        concept: None,
        refine_rounds: None,
        scores: None,
        memory_entries: None,
        kg_edges: None,
        lore_entries: None,
        card_path: "data/characters/ghost_card.json".to_owned(),
    }
}

#[test]
fn validate_user_message_rejects_blank() {
    assert!(validate_user_message("").is_err());
    assert!(validate_user_message("   \n\t  ").is_err());
}

#[test]
fn validate_user_message_trims_content() {
    let ok = validate_user_message("  hello  ").expect("non-empty");
    assert_eq!(ok, "hello");
}

#[test]
fn validate_user_message_error_text() {
    assert_eq!(validate_user_message(" ").unwrap_err(), "message must not be empty");
}

#[test]
fn format_character_list_summary_empty() {
    assert_eq!(format_character_list_summary(&[]), "已存 0 个角色");
}

#[test]
fn format_character_list_summary_one_row() {
    let out = format_character_list_summary(&[sample_with_scores()]);
    assert!(out.contains("已存 1 个角色"));
    assert!(out.contains("• 苏晚"));
    assert!(out.contains("scores=4/5/4/4/5"));
}

#[test]
fn format_character_list_summary_exact_text() {
    let out = format_character_list_summary(&[sample_with_scores(), sample_without_report()]);
    assert_eq!(
        out,
        "已存 2 个角色:\n• 苏晚 (slug=苏晚, rounds=1, scores=4/5/4/4/5, mem=3, kg=2, lore=1)\n• ghost (slug=ghost, rounds=n/a, scores=n/a, mem=n/a, kg=n/a, lore=n/a)"
    );
}

/// A blank slug is refused before any file is touched.
#[test]
fn character_delete_rejects_blank() {
    let err = require_slug("   ").expect_err("blank");
    assert!(err.contains("empty"));
}

#[test]
fn character_create_rejects_blank() {
    let err = require_concept("   ").expect_err("blank");
    assert!(err.contains("empty"));
    assert_eq!(require_concept("  雨夜  ").unwrap(), "雨夜");
}

#[test]
fn character_chat_rejects_blank_slug() {
    let err = require_slug("   ").expect_err("blank slug");
    assert_eq!(err, "character slug must not be empty");
    assert_eq!(require_slug(" 苏晚 ").unwrap(), "苏晚");
}

#[test]
fn format_delete_summary_lists_each_flag() {
    let outcome = DeleteOutcome {
        slug: "苏晚".to_owned(),
        card_removed: true,
        memory_removed: true,
        kg_removed: true,
        report_removed: true,
    };
    let s = format_delete_summary(&outcome);
    assert!(s.contains("slug=苏晚"));
    assert!(s.contains("removed=4"));
    assert!(s.contains("card=true"));
    assert!(s.contains("report=true"));
}

#[test]
fn format_delete_summary_partial_exact() {
    let outcome = DeleteOutcome {
        slug: "ghost".to_owned(),
        card_removed: true,
        memory_removed: false,
        kg_removed: false,
        report_removed: true,
    };
    assert_eq!(
        format_delete_summary(&outcome),
        "deleted slug=ghost removed=2 (card=true memory=false kg=false report=true)"
    );
}

#[test]
fn usage_mentions_character_list() {
    let u = usage_text();
    assert!(u.contains("character-list"));
    assert!(u.contains("character-create"));
    assert!(u.contains("character-chat"));
    assert!(u.contains("character-delete"));
    assert!(u.contains("character-regenerate"));
}

#[test]
fn run_help_exits_ok() {
    assert_eq!(parse_command(&args(&["help"])), Ok(Command::Help));
    assert_eq!(parse_command(&args(&["--help"])), Ok(Command::Help));
    assert_eq!(parse_command(&args(&["-h"])), Ok(Command::Help));
}

#[test]
fn run_unknown_command_errors() {
    let msg = parse_command(&args(&["nope"])).expect_err("unknown");
    assert!(msg.contains("unknown command"));
    assert!(msg.contains("character-create"));
    assert!(msg.starts_with("unknown command `nope`\nusage:"));
}

#[test]
fn run_character_create_requires_concept() {
    let msg = parse_command(&args(&["character-create"])).expect_err("missing concept");
    assert!(msg.contains("usage"));
    assert_eq!(
        parse_command(&args(&["character-create", "雨夜", "店员"])),
        Ok(Command::Create { concept: "雨夜 店员".to_owned() })
    );
}

#[test]
fn run_character_chat_requires_message() {
    let msg = parse_command(&args(&["character-chat", "苏晚"])).expect_err("missing message");
    assert!(msg.contains("usage"));
    assert_eq!(
        parse_command(&args(&["character-chat", "苏晚", "你", "好"])),
        Ok(Command::Chat { slug: "苏晚".to_owned(), message: "你 好".to_owned() })
    );
}

#[test]
fn run_character_list_is_not_unknown() {
    assert_eq!(parse_command(&args(&["character-list"])), Ok(Command::List));
    assert_eq!(parse_command(&args(&[])), Ok(Command::Serve));
}

#[test]
fn parse_delete_and_regenerate_need_slug() {
    assert_eq!(
        parse_command(&args(&["character-delete"])),
        Err("usage: novelagent character-delete <slug>".to_owned())
    );
    assert_eq!(
        parse_command(&args(&["character-regenerate", ""])),
        Err("usage: novelagent character-regenerate <slug>".to_owned())
    );
    assert_eq!(
        parse_command(&args(&["character-delete", "ghost"])),
        Ok(Command::Delete { slug: "ghost".to_owned() })
    );
}

#[test]
fn character_regenerate_rejects_blank() {
    let err = require_slug("   ").expect_err("blank");
    assert!(err.contains("empty"));
}

#[test]
fn regenerate_concept_cases() {
    assert_eq!(
        regenerate_concept("苏晚", None),
        Err("no stored concept for slug `苏晚` (legacy report or report missing)".to_owned())
    );
    assert_eq!(
        regenerate_concept("苏晚", Some("  ".to_owned())),
        Err("stored concept for slug `苏晚` is empty".to_owned())
    );
    assert_eq!(regenerate_concept("苏晚", Some("雨夜".to_owned())), Ok("雨夜".to_owned()));
}

#[test]
fn chat_preamble_joins_blocks() {
    let pack = PromptPack {
        system: "S".to_owned(),
        post_history_instructions: "P".to_owned(),
        role_context: "R".to_owned(),
    };
    assert_eq!(chat_preamble(&pack), "S\n\nR\n\nP");
}

#[test]
fn shared_formatter_empty_says_zero() {
    let out = format_character_list_summary(&[]);
    assert!(out.contains("已存 0 个角色"));
    assert!(!out.contains('•'));
}

#[test]
fn shared_formatter_with_score_row_includes_all_fields() {
    let out = format_character_list_summary(&[sample_with_scores()]);
    assert!(out.contains("已存 1 个角色"));
    assert!(out.contains("• 苏晚"));
    assert!(out.contains("slug=苏晚"));
    assert!(out.contains("rounds=1"));
    assert!(out.contains("scores=4/5/4/4/5"));
    assert!(out.contains("mem=3"));
    assert!(out.contains("kg=2"));
    assert!(out.contains("lore=1"));
}

#[test]
fn shared_formatter_without_report_uses_na_placeholders() {
    let out = format_character_list_summary(&[sample_without_report()]);
    assert!(out.contains("ghost"));
    assert!(out.contains("rounds=n/a"));
    assert!(out.contains("scores=n/a"));
    assert!(out.contains("mem=n/a"));
}

#[test]
fn shared_formatter_multi_rows_separated_by_newline() {
    let out = format_character_list_summary(&[sample_with_scores(), sample_without_report()]);
    assert!(out.contains("已存 2 个角色"));
    assert!(out.contains("• 苏晚"));
    assert!(out.contains("• ghost"));
}
