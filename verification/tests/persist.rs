use novelagent::agent::CreateCardOutcome;
use novelagent::card::{CardExtensions, NovelAgentCharExt, RelationshipNode, TavernCardV2};
use novelagent::persist::{
    artifact_paths, card_path_for, card_slug_from_file_name, create_report, deletion_outcome,
    finish_deletion, plan_deletion, report_path_for, sort_by_slug, stored_concept, summarize,
    CreateReport,
};
use novelagent::rubric::{CritiqueFlags, CritiqueReport, DimensionScores};
use novelagent::{
    format_create_summary, seed_card_artifacts, CharacterError, CharacterSummary, DeleteOutcome,
};

fn sample_outcome() -> CreateCardOutcome {
    let mut card = TavernCardV2::skeleton_zh("苏晚");
    card.data.description = "夜班店员".to_owned();
    card.data.personality = "克制".to_owned();
    card.data.scenario = "雨夜".to_owned();
    card.data.system_prompt = "你是苏晚。".to_owned();
    card.data.extensions = CardExtensions {
        novelagent: Some(NovelAgentCharExt {
            desire: "离开".to_owned(),
            need: "被看见".to_owned(),
            weakness: "拒人千里".to_owned(),
            moral_axis: "独立 vs 依附".to_owned(),
            knowledge_bounds: "不知用户身份".to_owned(),
            relationships: vec![RelationshipNode {
                name: "老周".to_owned(),
                relation_type: "mentor".to_owned(),
                defines_protagonist_how: "记得她".to_owned(),
            }],
            constraints: vec!["C-TOM".to_owned(), "C-NO-USER".to_owned()],
            ..NovelAgentCharExt::default()
        }),
    };
    let art = seed_card_artifacts(&mut card, Some(1_700_000_000));
    CreateCardOutcome {
        card,
        critique: CritiqueReport {
            scores: DimensionScores { premise: 4, character: 4, voice: 4, tom: 4, constraints: 5 },
            flags: CritiqueFlags { schema_ok: true, placeholders_ok: true, locale_ok: true },
            issues: Vec::new(),
            must_fix: Vec::new(),
            summary: "ok".to_owned(),
        },
        refine_rounds: 1,
        memory: art.memory,
        kg: art.kg,
    }
}

fn summary(slug: &str) -> CharacterSummary {
    summarize(slug.to_owned(), slug.to_owned(), None, format!("d/{slug}_card.json"))
}

#[test]
fn artifact_paths_use_slug() {
    let paths = artifact_paths("data/characters", "苏晚");
    assert_eq!(paths.slug, "苏晚");
    assert_eq!(paths.dir, "data/characters");
    assert_eq!(paths.card, "data/characters/苏晚_card.json");
    assert_eq!(paths.memory, "data/characters/苏晚_memory.json");
    assert_eq!(paths.kg, "data/characters/苏晚_kg.json");
    assert_eq!(paths.report, "data/characters/苏晚_report.json");
    assert_eq!(artifact_paths("d/", "a/b").card, "d/a_b_card.json");
}

#[test]
fn lookups_accept_name_or_stem() {
    assert_eq!(card_path_for("d", "林 晚"), "d/林_晚_card.json");
    assert_eq!(card_path_for("d", "林_晚"), "d/林_晚_card.json");
    assert_eq!(report_path_for("d", "x"), "d/x_report.json");
}

#[test]
fn create_summary_names_card_and_path() {
    let outcome = sample_outcome();
    let paths = artifact_paths("dir", &outcome.card.data.name);
    let summary = format_create_summary(&outcome, &paths);
    assert!(summary.contains("苏晚"));
    assert!(summary.contains("card="));
    let lore = outcome.card.data.character_book.as_ref().map_or(0, |b| b.entries.len());
    assert_eq!(
        summary,
        format!(
            "created name=苏晚 refine_rounds=1 scores={{premise:4,character:4,voice:4,tom:4,constraints:5}} lore={lore} mem={} kg_edges={} card=dir/苏晚_card.json",
            outcome.memory.entries.len(),
            outcome.kg.edges.len()
        )
    );
}

#[test]
fn report_records_outcome_and_concept() {
    let outcome = sample_outcome();
    let r = create_report(&outcome, "test concept");
    assert_eq!(r.name, "苏晚");
    assert_eq!(r.concept, "test concept");
    assert_eq!(r.refine_rounds, 1);
    assert_eq!(r.scores.constraints, 5);
    assert_eq!(r.summary, "ok");
    assert_eq!(r.memory_entries, outcome.memory.entries.len());
    assert_eq!(r.kg_edges, outcome.kg.edges.len());
    assert_eq!(r.lore_entries, outcome.card.data.character_book.as_ref().unwrap().entries.len());
    assert_eq!(stored_concept(Some(r.clone())), Some("test concept".to_owned()));
    let legacy = CreateReport { concept: String::new(), ..r };
    assert_eq!(stored_concept(Some(legacy)), None);
    assert_eq!(stored_concept(None), None);
}

#[test]
fn card_file_names_map_to_slugs() {
    assert_eq!(card_slug_from_file_name("苏晚_card.json").as_deref(), Some("苏晚"));
    assert_eq!(card_slug_from_file_name("a_card.json_card.json").as_deref(), Some("a"));
    assert_eq!(card_slug_from_file_name("苏晚_memory.json"), None);
    assert_eq!(card_slug_from_file_name("random.json"), None);
    assert_eq!(card_slug_from_file_name("苏晚_report.json.bak"), None);
    assert_eq!(card_slug_from_file_name("_card.json").as_deref(), Some(""));
}

#[test]
fn summaries_carry_report_fields_or_none() {
    let report = CreateReport {
        name: "苏晚".to_owned(),
        concept: String::new(),
        refine_rounds: 1,
        scores: DimensionScores { premise: 4, character: 5, voice: 4, tom: 4, constraints: 5 },
        must_fix: vec![],
        summary: "ok".to_owned(),
        memory_entries: 3,
        kg_edges: 2,
        lore_entries: 1,
    };
    let s = summarize("苏晚".to_owned(), "苏晚".to_owned(), Some(report), "p".to_owned());
    assert_eq!(s.refine_rounds, Some(1));
    assert_eq!(s.scores.map(|x| x.character), Some(5));
    assert_eq!(s.memory_entries, Some(3));
    assert_eq!(s.kg_edges, Some(2));
    assert_eq!(s.lore_entries, Some(1));
    assert_eq!(s.concept, None);
    let ghost = summary("ghost");
    assert!(ghost.scores.is_none());
    assert!(ghost.refine_rounds.is_none());
}

#[test]
fn list_is_sorted_by_slug() {
    let sorted = sort_by_slug(vec![summary("老周"), summary("ghost"), summary("苏晚"), summary("Alpha")]);
    let slugs: Vec<&str> = sorted.iter().map(|s| s.slug.as_str()).collect();
    let mut expected = vec!["老周", "ghost", "苏晚", "Alpha"];
    expected.sort();
    assert_eq!(slugs, expected);
    assert!(sort_by_slug(Vec::new()).is_empty());
}

#[test]
fn delete_plan_lists_four_files() {
    let plan = plan_deletion("d", "苏 晚");
    assert_eq!(plan.slug, "苏_晚");
    assert_eq!(
        plan.paths,
        vec!["d/苏_晚_card.json", "d/苏_晚_memory.json", "d/苏_晚_kg.json", "d/苏_晚_report.json"]
    );
}

#[test]
fn delete_character_partial_when_only_card_exists() {
    let outcome = deletion_outcome("ghost".to_owned(), &vec![true, false, false, false]);
    assert_eq!(outcome.removed_count(), 1);
    let ok = finish_deletion(outcome.clone(), "d").expect("partial delete");
    assert_eq!(ok, outcome);
}

#[test]
fn delete_character_missing_slug_errors() {
    let outcome = deletion_outcome("never_existed".to_owned(), &vec![false, false, false, false]);
    let err = finish_deletion(outcome, "dir").expect_err("missing");
    assert!(matches!(err, CharacterError::Io(_)));
    assert!(err.message().contains("never_existed"));
    assert_eq!(
        err,
        CharacterError::Io("no character files found for slug `never_existed` under dir".to_owned())
    );
}

#[test]
fn removed_count_counts_flags() {
    let all = DeleteOutcome {
        slug: "苏晚".to_owned(),
        card_removed: true,
        memory_removed: true,
        kg_removed: true,
        report_removed: true,
    };
    assert_eq!(all.removed_count(), 4);
    let none = DeleteOutcome { card_removed: false, memory_removed: false, kg_removed: false, report_removed: false, ..all };
    assert_eq!(none.removed_count(), 0);
}
