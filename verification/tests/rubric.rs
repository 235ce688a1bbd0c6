use novelagent::rubric::{CritiqueFlags, CritiqueReport, DimensionScores};

fn scores(p: u8, c: u8, v: u8, t: u8, k: u8) -> DimensionScores {
    DimensionScores { premise: p, character: c, voice: v, tom: t, constraints: k }
}

fn flags(schema_ok: bool) -> CritiqueFlags {
    CritiqueFlags { schema_ok, placeholders_ok: true, locale_ok: true }
}

fn report(s: DimensionScores, f: CritiqueFlags, issues: &[&str], must_fix: &[&str], summary: &str) -> CritiqueReport {
    CritiqueReport {
        scores: s,
        flags: f,
        issues: issues.iter().map(|x| (*x).to_owned()).collect(),
        must_fix: must_fix.iter().map(|x| (*x).to_owned()).collect(),
        summary: summary.to_owned(),
    }
}

#[test]
fn parse_valid_critique() {
    let report = report(scores(4, 3, 5, 4, 3), flags(true), &["mes_example 偏说明书"], &[], "可用")
        .checked()
        .expect("parse");
    assert_eq!(report.scores.min(), 3);
    assert!(!report.needs_refine());
}

#[test]
fn must_fix_triggers_refine_even_if_scores_ok() {
    let report = report(scores(4, 4, 4, 4, 4), flags(true), &[], &["补 defines_protagonist_how"], "有硬债")
        .checked()
        .expect("parse");
    assert!(report.needs_refine());
}

#[test]
fn low_score_needs_refine() {
    let report = report(scores(2, 4, 4, 4, 4), flags(true), &[], &["补全 desire/need 冲突"], "前提弱")
        .checked()
        .expect("parse");
    assert!(report.needs_refine());
    assert!(report.scores.below_threshold());
}

#[test]
fn schema_flag_false_needs_refine() {
    let report = report(scores(5, 5, 5, 5, 5), flags(false), &[], &["缺 name"], "schema 坏")
        .checked()
        .expect("parse");
    assert!(report.needs_refine());
}

#[test]
fn out_of_range_score_rejected() {
    assert!(report(scores(0, 3, 3, 3, 3), flags(true), &[], &[], "").checked().is_err());
}

#[test]
fn score_above_five_rejected() {
    let err = report(scores(6, 3, 3, 3, 3), flags(true), &[], &[], "").checked().expect_err("score > 5");
    assert!(err.message().contains("premise"));
}

#[test]
fn later_dimension_out_of_range_is_named() {
    let err = report(scores(3, 3, 3, 3, 0), flags(true), &[], &[], "").checked().expect_err("constraints 0");
    assert!(err.message().contains("constraints"));
    assert!(report(scores(1, 5, 1, 5, 1), flags(true), &[], &[], "").validate_ranges().is_ok());
}

#[test]
fn all_equal_scores_min_is_the_score() {
    let report = report(scores(3, 3, 3, 3, 3), flags(true), &[], &[], "").checked().expect("parse");
    assert_eq!(report.scores.min(), 3);
    assert!(!report.scores.below_threshold());
    assert!(!report.needs_refine());
}

#[test]
fn issues_alone_do_not_trigger_refine() {
    let report = report(scores(4, 4, 4, 4, 4), flags(true), &["mes_example 偏说明书", "声浪可更锐"], &[], "可用")
        .checked()
        .expect("parse");
    assert!(!report.needs_refine());
}

#[test]
fn flags_all_ok_requires_every_flag() {
    let ok = CritiqueFlags { schema_ok: true, placeholders_ok: true, locale_ok: true };
    assert!(ok.all_ok());
    let bad = CritiqueFlags { schema_ok: true, placeholders_ok: false, locale_ok: true };
    assert!(!bad.all_ok());
}

#[test]
fn min_picks_lowest_dimension() {
    assert_eq!(scores(5, 4, 2, 3, 5).min(), 2);
    assert_eq!(scores(5, 5, 5, 5, 1).min(), 1);
}
