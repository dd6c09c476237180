use cucumber_output::buffer::{Color, OutputBuffer};
use cucumber_output::document::{Feature, FeatureError, Rule, Scenario, Step, StepResult, Table};
use cucumber_output::render::{DefaultOutput, EntryKind, RowState};
use cucumber_output::summary::ScenarioOutcome;
use cucumber_output::DebugOutput;

const TW: usize = 60;

fn text_of(b: &OutputBuffer) -> String {
    b.segments.iter().map(|s| s.text.as_str()).collect()
}

fn step(value: &str, line: u64) -> Step {
    Step {
        keyword: "Given".to_string(),
        value: value.to_string(),
        line,
        column: 5,
        table: None,
        docstring: None,
    }
}

fn scenario(name: &str, line: u64, steps: Vec<Step>) -> Scenario {
    Scenario { name: name.to_string(), line, column: 3, steps }
}

fn feature(rules: Vec<Rule>, scenarios: Vec<Scenario>) -> Feature {
    Feature { name: "Demo".to_string(), line: 1, column: 1, rules, scenarios }
}

fn run_scenario(out: &mut DefaultOutput, rule: Option<&Rule>, sc: &Scenario, results: &[StepResult]) {
    out.visit_scenario(rule, sc, TW);
    for (st, res) in sc.steps.iter().zip(results) {
        out.visit_step(rule, sc, st);
        out.visit_step_result(rule, sc, st, res, TW);
    }
    out.visit_scenario_end(rule, sc);
}

fn fail() -> StepResult {
    StepResult::Fail {
        location: "src/steps.rs:10:5".to_string(),
        payload: "assertion failed".to_string(),
        stdout: String::new(),
        stderr: String::new(),
    }
}

#[test]
fn three_passing_steps() {
    let sc = scenario("One", 3, vec![step("a", 4), step("b", 5), step("c", 6)]);
    let f = feature(vec![], vec![sc]);
    let mut out = DefaultOutput::new();
    let head = out.visit_feature(&f, "features/demo.feature", TW);
    assert!(text_of(&head).starts_with("Feature: Demo"));
    assert!(text_of(&head).contains("features/demo.feature:1:1"));
    run_scenario(&mut out, None, &f.scenarios[0], &[StepResult::Pass, StepResult::Pass, StepResult::Pass]);
    out.repaint_stopped();
    let flushed = out.visit_feature_end();
    let greens: Vec<_> = flushed
        .segments
        .iter()
        .filter(|s| s.color == Some(Color::Green) && s.text.starts_with("  ✔ Given"))
        .collect();
    assert_eq!(greens.len(), 3);
    let summary = text_of(&out.visit_finish());
    assert!(summary.contains("1 scenarios (1 passed)"));
    assert!(summary.ends_with("3 steps (3 passed)\n\n"));
    assert_eq!(summary, "1 features\n1 scenarios (1 passed)\n3 steps (3 passed)\n\n");
}

#[test]
fn syntax_error_is_counted_and_located() {
    let mut out = DefaultOutput::new();
    let err = FeatureError::Syntax { line: 4, column: 2, message: "unexpected token".to_string() };
    let b = out.visit_feature_error("features/bad.feature", &err, TW);
    assert_eq!(out.counters.feature_errors, 1);
    assert_eq!(out.counters.steps, 0);
    assert_eq!(out.counters.failed, 0);
    assert_eq!(out.counters.skipped, 0);
    assert!(out.outcomes.is_empty());
    let t = text_of(&b);
    assert!(t.contains("features/bad.feature:4:2"));
    assert!(t.starts_with("———— ! Parsing feature failed: "));
    assert!(t.contains("  unexpected token\n"));
    assert!(t.ends_with(&format!("{}\n\n", "—".repeat(TW))));
    assert!(b.segments.iter().all(|s| s.color == Some(Color::Red) || s.color == Some(Color::White)));
    let summary = text_of(&out.visit_finish());
    assert!(summary.starts_with("0 features (1 errored)\n"));
}

#[test]
fn io_error_shows_the_path() {
    let mut out = DefaultOutput::new();
    let err = FeatureError::Io { message: "not found".to_string() };
    let t = text_of(&out.visit_feature_error("missing.feature", &err, TW));
    assert!(t.contains(" missing.feature\n"));
    assert_eq!(out.counters.feature_errors, 1);
}

#[test]
fn pass_fail_skip_steps() {
    let sc = scenario("Mixed", 3, vec![step("a", 4), step("b", 5), step("c", 6)]);
    let f = feature(vec![], vec![sc]);
    let mut out = DefaultOutput::new();
    out.visit_feature(&f, "f.feature", TW);
    run_scenario(&mut out, None, &f.scenarios[0], &[StepResult::Pass, fail(), StepResult::Skipped]);
    assert_eq!(out.counters.steps, 3);
    assert_eq!(out.counters.failed, 1);
    assert_eq!(out.counters.skipped, 1);
    let slot = out.entries[0].slot;
    assert_eq!(out.outcomes[slot], Some(ScenarioOutcome::Fail));
    assert_eq!(out.entries[0].row.icon, Some(ScenarioOutcome::Fail));
    assert_eq!(out.entries[0].row.message, "failed");
    let t = text_of(&out.entries[0].buffer);
    assert!(t.contains("  ✘ Given b"));
    assert!(t.contains("! Step failed: "));
    assert!(t.contains("src/steps.rs:10:5"));
    assert!(t.contains("  - Given c"));
    let summary = text_of(&out.visit_finish());
    assert!(summary.contains("1 scenarios (1 failed, 0 passed)"));
    assert!(summary.contains("3 steps (1 failed, 1 skipped, 1 passed)"));
}

#[test]
fn failure_after_end_wins() {
    let sc = scenario("Late", 3, vec![step("a", 4)]);
    let f = feature(vec![], vec![sc]);
    let mut out = DefaultOutput::new();
    out.visit_feature(&f, "f.feature", TW);
    let s = &f.scenarios[0];
    out.visit_scenario(None, s, TW);
    out.visit_step(None, s, &s.steps[0]);
    out.visit_scenario_end(None, s);
    assert_eq!(out.outcomes[0], Some(ScenarioOutcome::Pass));
    out.visit_step_result(None, s, &s.steps[0], &fail(), TW);
    assert_eq!(out.outcomes[0], Some(ScenarioOutcome::Fail));
    out.visit_scenario_end(None, s);
    assert_eq!(out.outcomes[0], Some(ScenarioOutcome::Fail));
}

#[test]
fn failing_step_clears_the_row() {
    let sc = scenario("Clear", 3, vec![step("a", 4)]);
    let f = feature(vec![], vec![sc]);
    let mut out = DefaultOutput::new();
    out.visit_feature(&f, "f.feature", TW);
    let s = &f.scenarios[0];
    out.visit_step(None, s, &s.steps[0]);
    assert_eq!(out.entries[0].row.message, "Step: Given a");
    assert_eq!(out.entries[0].row.position, 1);
    out.visit_step_result(None, s, &s.steps[0], &fail(), TW);
    assert_eq!(out.entries[0].row.state, RowState::Cleared);
}

#[test]
fn captured_streams_are_labelled() {
    let sc = scenario("Streams", 3, vec![step("a", 4)]);
    let f = feature(vec![], vec![sc]);
    let mut out = DefaultOutput::new();
    out.visit_feature(&f, "f.feature", TW);
    let s = &f.scenarios[0];
    out.visit_step(None, s, &s.steps[0]);
    let res = StepResult::Fail {
        location: "l:1:1".to_string(),
        payload: "boom".to_string(),
        stdout: "printed out".to_string(),
        stderr: "printed err".to_string(),
    };
    out.visit_step_result(None, s, &s.steps[0], &res, TW);
    let t = text_of(&out.entries[0].buffer);
    let o = t.find("———— Captured stdout: ").unwrap();
    let e = t.find("———— Captured stderr: ").unwrap();
    assert!(o < e);
    assert!(t[o..e].contains("  printed out\n"));
    assert!(t[e..].contains("  printed err\n"));
    assert!(t.ends_with(&format!("{}\n", "—".repeat(TW))));
}

#[test]
fn unimplemented_step_is_marked() {
    let sc = scenario("Todo", 3, vec![step("a", 4)]);
    let f = feature(vec![], vec![sc]);
    let mut out = DefaultOutput::new();
    out.visit_feature(&f, "f.feature", TW);
    let s = &f.scenarios[0];
    out.visit_step(None, s, &s.steps[0]);
    out.visit_step_result(None, s, &s.steps[0], &StepResult::Unimplemented, TW);
    assert_eq!(out.counters.skipped, 1);
    let b = &out.entries[0].buffer;
    let marker = b.segments.iter().find(|s| s.color == Some(Color::Yellow)).unwrap();
    assert_eq!(marker.text, "    ⚡ ");
    assert!(text_of(b).ends_with("Not yet implemented (skipped)\n"));
}

#[test]
fn rules_and_scenarios_flush_in_document_order() {
    let r = Rule {
        name: "R".to_string(),
        line: 2,
        column: 1,
        scenarios: vec![scenario("In rule", 3, vec![step("a", 4)])],
    };
    let f = feature(vec![r], vec![scenario("Top", 8, vec![step("b", 9)])]);
    let mut out = DefaultOutput::new();
    out.visit_feature(&f, "f.feature", TW);
    assert!(out.repainting);
    assert_eq!(out.entries.len(), 3);
    assert_eq!(out.entries[0].kind, EntryKind::Rule);
    assert_eq!(out.entries[0].row.message, "starting…");
    assert!(out.entries[1].row.nested);
    assert!(!out.entries[2].row.nested);
    // Events in an order other than the document's.
    run_scenario(&mut out, None, &f.scenarios[0], &[StepResult::Pass]);
    let rl = &f.rules[0];
    out.visit_rule(rl, TW);
    run_scenario(&mut out, Some(rl), &rl.scenarios[0], &[StepResult::Pass]);
    out.visit_rule_end(rl);
    assert_eq!(out.entries[0].row.position, 1);
    assert_eq!(out.entries[0].row.state, RowState::Finished);
    assert_eq!(out.counters.rules, 1);
    out.repaint_stopped();
    let t = text_of(&out.visit_feature_end());
    let a = t.find("Rule: R").unwrap();
    let b = t.find("  Scenario: In rule").unwrap();
    let c = t.find(" Scenario: Top").unwrap();
    assert!(a < b && b < c);
    assert!(t.contains("   ✔ Given a"));
    assert!(out.entries.is_empty());
    let summary = text_of(&out.visit_finish());
    assert!(summary.starts_with("1 features, 1 rules\n2 scenarios (2 passed)\n"));
}

#[test]
fn skip_notice_is_recorded_only_when_asked() {
    let f = feature(vec![], vec![scenario("S", 3, vec![])]);
    let mut out = DefaultOutput::new();
    out.visit_feature(&f, "f.feature", TW);
    out.visit_scenario_skipped(None, &f.scenarios[0]);
    assert_eq!(out.outcomes[0], None);
    out.set_record_skipped(true);
    out.visit_scenario_skipped(None, &f.scenarios[0]);
    assert_eq!(out.outcomes[0], Some(ScenarioOutcome::Skip));
    out.visit_scenario_end(None, &f.scenarios[0]);
    assert_eq!(out.entries[0].row.message, "skipped");
    let summary = text_of(&out.visit_finish());
    assert!(summary.contains("1 scenarios (1 skipped, 0 passed)"));
}

#[test]
fn summary_parts_add_up() {
    let f = feature(
        vec![],
        vec![
            scenario("A", 3, vec![step("a", 4)]),
            scenario("B", 6, vec![step("b", 7), step("c", 8)]),
        ],
    );
    let mut out = DefaultOutput::new();
    out.visit_feature(&f, "f.feature", TW);
    run_scenario(&mut out, None, &f.scenarios[0], &[StepResult::Pass]);
    run_scenario(&mut out, None, &f.scenarios[1], &[fail(), StepResult::Skipped]);
    let c = out.counters;
    assert_eq!(c.steps, 3);
    assert_eq!(c.failed + c.skipped + (c.steps - c.failed - c.skipped), c.steps);
    let summary = text_of(&out.visit_finish());
    assert!(summary.contains("2 scenarios (1 failed, 1 passed)"));
    assert!(summary.contains("3 steps (1 failed, 1 skipped, 1 passed)"));
}

#[test]
fn start_banner() {
    let out = DefaultOutput::new();
    let b = out.visit_start("0.7.3");
    assert_eq!(text_of(&b), "[Cucumber v0.7.3]\n\n");
    assert_eq!(b.segments[0].color, Some(Color::Green));
}

#[test]
fn relative_feature_path() {
    let out = DefaultOutput::new();
    assert_eq!(out.relpath("/work/features/a.feature", "/work"), Some("features/a.feature".to_string()));
    assert_eq!(out.relpath("/work/a.feature", "/work/sub"), Some("../a.feature".to_string()));
}

#[test]
fn echo_lines() {
    let d = DebugOutput::new();
    let st = step("x", 2);
    let sc = scenario("S", 1, vec![]);
    assert_eq!(d.visit_start(), "visit_start");
    assert_eq!(d.visit_step(None, &sc, &st), "visit_step Given x");
    assert_eq!(d.visit_scenario(None, &sc), "visit_scenario S");
    assert_eq!(
        d.visit_step_result(None, &sc, &st, "Skipped"),
        "visit_step_result Given x - Skipped"
    );
    assert_eq!(d.visit_feature_error("p", "Io"), "visit_feature_error p Io");
    assert_eq!(d.visit_finish(), "visit_finish");
}

#[test]
fn short_table_rows_render_their_own_cells() {
    let t = Table {
        header: vec!["name".to_string(), "count".to_string()],
        rows: vec![vec!["x".to_string()], vec!["longer name".to_string(), "12".to_string()]],
        numeric: vec![vec![false], vec![false, true]],
    };
    let st = Step { table: Some(t), ..step("a table", 4) };
    let f = feature(vec![], vec![scenario("T", 3, vec![st])]);
    let mut out = DefaultOutput::new();
    out.visit_feature(&f, "f.feature", TW);
    let s = &f.scenarios[0];
    out.visit_step(None, s, &s.steps[0]);
    out.visit_step_result(None, s, &s.steps[0], &StepResult::Pass, TW);
    let t = text_of(&out.entries[0].buffer);
    assert!(t.contains("      | name        | count |\n"));
    assert!(t.contains("      | x           |\n"));
    assert!(t.contains("      | longer name |    12 |\n"));
}

#[test]
fn a_scenario_ended_twice_is_counted_once() {
    let f = feature(vec![], vec![scenario("Once", 3, vec![]), scenario("Never", 5, vec![])]);
    let mut out = DefaultOutput::new();
    out.visit_feature(&f, "f.feature", TW);
    out.visit_scenario_end(None, &f.scenarios[0]);
    out.visit_scenario_end(None, &f.scenarios[0]);
    let summary = text_of(&out.visit_finish());
    assert!(summary.contains("1 scenarios (1 passed)"));
}
