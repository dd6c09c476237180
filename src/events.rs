//! The renderer's response to each lifecycle event after a feature starts.

use vstd::prelude::*;
use crate::buffer::{Color, OutputBuffer, SegmentView, plain, line};
use crate::document::{FeatureError, Rule, Scenario, Step, StepResult};
use crate::layout::{comment_segments, write_comment_line};
use crate::render::{
    find_from, DefaultOutput, Entry, EntryKind, Row, RowState, all_buffers, buffer_grew, concat2,
    counters_after_result, dash_line, dashes, entry_updated, error_location, error_message,
    feature_error_segments, find_entry, inc, lemma_all_buffers_front, outcome_after_end,
    outcome_after_result, outcome_after_skip_notice, outcome_word, row_became, scenario_indent,
    step_indent, step_result_segments, write_failure_head, write_red_block, write_step_result,
};
use crate::summary::{Counters, ScenarioOutcome, summary, summary_segments};
use crate::text::{location, location_string};

verus! {

impl DefaultOutput {
    /// Records that the background repaint has ended.
    pub fn repaint_stopped(&mut self)
        ensures
            !final(self).repainting,
            final(self).cur_feature == old(self).cur_feature,
            final(self).counters == old(self).counters,
            final(self).outcomes == old(self).outcomes,
            final(self).entries == old(self).entries,
            final(self).record_skipped == old(self).record_skipped,
    {
        self.repainting = false;
    }

    /// Ends a feature: once repainting has stopped, retires every entry and
    /// returns their buffers concatenated in document order.
    pub fn visit_feature_end(&mut self) -> (r: OutputBuffer)
        requires
            old(self).wf(),
            !old(self).repainting,
        ensures
            final(self).wf(),
            r@ == all_buffers(old(self).entries@),
            final(self).entries@ == Seq::<Entry>::empty(),
            final(self).cur_feature == old(self).cur_feature,
            final(self).counters == old(self).counters,
            final(self).outcomes == old(self).outcomes,
            final(self).repainting == old(self).repainting,
            final(self).record_skipped == old(self).record_skipped,
    {
        let mut es: Vec<Entry> = Vec::new();
        std::mem::swap(&mut es, &mut self.entries);
        let ghost all = es@;
        let mut r = OutputBuffer::new();
        while es.len() > 0
            invariant
                r@ + all_buffers(es@) == all_buffers(all),
            decreases es.len(),
        {
            proof {
                lemma_all_buffers_front(es@);
            }
            let ghost before = es@;
            let e = es.remove(0);
            assert(es@ =~= before.subrange(1, before.len() as int));
            r.append(e.buffer);
            assert(r@ + all_buffers(es@) =~= all_buffers(all));
        }
        assert(all_buffers(es@) =~= Seq::<SegmentView>::empty());
        assert(r@ =~= all_buffers(all));
        r
    }

    /// A feature that did not load: returns the error block and counts it.
    pub fn visit_feature_error(&mut self, path: &str, error: &FeatureError, tw: usize) -> (r:
        OutputBuffer)
        requires
            old(self).counters.feature_errors < u64::MAX,
        ensures
            r@ == feature_error_segments(error_location(path@, *error), error_message(*error), tw as nat),
            final(self).counters == (Counters {
                feature_errors: (old(self).counters.feature_errors + 1) as u64,
                ..old(self).counters
            }),
            final(self).cur_feature == old(self).cur_feature,
            final(self).outcomes == old(self).outcomes,
            final(self).entries == old(self).entries,
            final(self).repainting == old(self).repainting,
            final(self).record_skipped == old(self).record_skipped,
    {
        proof {
            reveal_strlit("\n");
        }
        let (loc, msg) = match error {
            FeatureError::Syntax { line, column, message } => (
                location_string(path, *line, *column),
                message.as_str(),
            ),
            FeatureError::Io { message } => (String::from_str(path), message.as_str()),
        };
        let mut r = OutputBuffer::new();
        write_failure_head(&mut r, "! Parsing feature failed: ", loc.as_str(), tw);
        write_red_block(&mut r, msg, tw);
        let mut d = dash_line(tw);
        d.append("\n\n");
        proof {
            reveal_strlit("\n\n");
        }
        assert(d@ =~= line(dashes(tw as nat) + "\n"@));
        r.push_styled(d, Color::Red, true);
        assert(r@ =~= feature_error_segments(error_location(path@, *error), error_message(*error), tw as nat));
        self.counters.feature_errors = self.counters.feature_errors + 1;
        r
    }

    /// A rule begins: its heading goes into its buffer.
    pub fn visit_rule(&mut self, rule: &Rule, tw: usize)
        requires
            find_entry(old(self).entries@, EntryKind::Rule, rule.line, rule.column) >= 0,
            old(self).wf(),
        ensures
            final(self).wf(),
            ({
                let k = find_entry(old(self).entries@, EntryKind::Rule, rule.line, rule.column);
                &&& entry_updated(old(self).entries@, final(self).entries@, k)
                &&& buffer_grew(
                    old(self).entries@[k],
                    final(self).entries@[k],
                    comment_segments(
                        "Rule: "@ + rule.name@ + "\n"@,
                        location(old(self).cur_feature@, rule.line as nat, rule.column as nat),
                        " "@,
                        Color::White,
                        true,
                        tw as nat,
                    ),
                )
            }),
            final(self).cur_feature == old(self).cur_feature,
            final(self).counters == old(self).counters,
            final(self).outcomes == old(self).outcomes,
            final(self).repainting == old(self).repainting,
            final(self).record_skipped == old(self).record_skipped,
    {
        match self.find(EntryKind::Rule, rule.line, rule.column) {
            Some(k) => {
                let mut msg = concat2("Rule: ", rule.name.as_str());
                msg.append("\n");
                let cmt = location_string(self.cur_feature.as_str(), rule.line, rule.column);
                let ghost before = self.entries@;
                let mut e = self.entries.remove(k);
                write_comment_line(&mut e.buffer, msg.as_str(), cmt.as_str(), " ", Color::White, true, tw);
                self.entries.insert(k, e);
                assert(self.entries@ =~= before.update(k as int, e));
            },
            None => {},
        }
    }

    /// A rule ends: it is counted and its row finishes.
    pub fn visit_rule_end(&mut self, rule: &Rule)
        requires
            find_entry(old(self).entries@, EntryKind::Rule, rule.line, rule.column) >= 0,
            old(self).wf(),
            old(self).counters.rules < u64::MAX,
        ensures
            final(self).wf(),
            final(self).counters == (Counters { rules: (old(self).counters.rules + 1) as u64, ..old(self).counters }),
            ({
                let k = find_entry(old(self).entries@, EntryKind::Rule, rule.line, rule.column);
                &&& entry_updated(old(self).entries@, final(self).entries@, k)
                &&& row_became(
                    old(self).entries@[k],
                    final(self).entries@[k],
                    Row {
                        state: RowState::Finished,
                        position: old(self).entries@[k].row.length,
                        ..old(self).entries@[k].row
                    },
                )
            }),
            final(self).cur_feature == old(self).cur_feature,
            final(self).outcomes == old(self).outcomes,
            final(self).repainting == old(self).repainting,
            final(self).record_skipped == old(self).record_skipped,
    {
        self.counters.rules = self.counters.rules + 1;
        match self.find(EntryKind::Rule, rule.line, rule.column) {
            Some(k) => {
                let ghost before = self.entries@;
                let mut e = self.entries.remove(k);
                e.row.state = RowState::Finished;
                e.row.position = e.row.length;
                self.entries.insert(k, e);
                assert(self.entries@ =~= before.update(k as int, e));
            },
            None => {},
        }
    }

    /// A scenario begins: its heading goes into its buffer and, when it sits
    /// under a rule, the rule's row advances.
    pub fn visit_scenario(&mut self, rule: Option<&Rule>, scenario: &Scenario, tw: usize)
        requires
            find_entry(old(self).entries@, EntryKind::Scenario, scenario.line, scenario.column) >= 0,
            rule matches Some(rl) ==> find_entry(old(self).entries@, EntryKind::Rule, rl.line, rl.column)
                >= 0,
            old(self).wf(),
        ensures
            final(self).wf(),
            ({
                let k = find_entry(old(self).entries@, EntryKind::Scenario, scenario.line, scenario.column);
                let kr = match rule {
                    Some(rl) => find_entry(old(self).entries@, EntryKind::Rule, rl.line, rl.column),
                    _ => -1,
                };
                &&& final(self).entries@.len() == old(self).entries@.len()
                &&& forall|j: int|
                    0 <= j < old(self).entries@.len() && j != k && j != kr ==> final(self).entries@[j]
                        == old(self).entries@[j]
                &&& buffer_grew(
                    old(self).entries@[k],
                    final(self).entries@[k],
                    comment_segments(
                        "Scenario: "@ + scenario.name@,
                        location(old(self).cur_feature@, scenario.line as nat, scenario.column as nat),
                        scenario_indent(rule is Some),
                        Color::White,
                        true,
                        tw as nat,
                    ),
                )
                &&& kr >= 0 ==> row_became(
                    old(self).entries@[kr],
                    final(self).entries@[kr],
                    Row { position: inc(old(self).entries@[kr].row.position), ..old(self).entries@[kr].row },
                )
            }),
            final(self).cur_feature == old(self).cur_feature,
            final(self).counters == old(self).counters,
            final(self).outcomes == old(self).outcomes,
            final(self).repainting == old(self).repainting,
            final(self).record_skipped == old(self).record_skipped,
    {
        let k = match self.find(EntryKind::Scenario, scenario.line, scenario.column) {
            Some(k) => k,
            None => return,
        };
        let msg = concat2("Scenario: ", scenario.name.as_str());
        let cmt = location_string(self.cur_feature.as_str(), scenario.line, scenario.column);
        let indent = if rule.is_some() { "  " } else { " " };
        let ghost before = self.entries@;
        let mut e = self.entries.remove(k);
        write_comment_line(&mut e.buffer, msg.as_str(), cmt.as_str(), indent, Color::White, true, tw);
        self.entries.insert(k, e);
        assert(self.entries@ =~= before.update(k as int, e));
        match rule {
            Some(rl) => match self.find(EntryKind::Rule, rl.line, rl.column) {
                Some(kr) => {
                    let ghost mid = self.entries@;
                    assert(find_entry(mid, EntryKind::Rule, rl.line, rl.column) == find_entry(before, EntryKind::Rule, rl.line, rl.column)) by {
                        lemma_find_same_keys(before, mid, EntryKind::Rule, rl.line, rl.column, 0);
                    }
                    let mut r = self.entries.remove(kr);
                    if r.row.position < u64::MAX {
                        r.row.position = r.row.position + 1;
                    }
                    self.entries.insert(kr, r);
                    assert(self.entries@ =~= mid.update(kr as int, r));
                },
                None => {
                    proof {
                        lemma_find_same_keys(before, self.entries@, EntryKind::Rule, rl.line, rl.column, 0);
                    }
                },
            },
            None => {},
        }
    }

    /// A scenario is reported skipped before it runs: when such notices are
    /// recorded and it has no outcome yet, it is recorded as skipped.
    pub fn visit_scenario_skipped(&mut self, rule: Option<&Rule>, scenario: &Scenario)
        requires
            find_entry(old(self).entries@, EntryKind::Scenario, scenario.line, scenario.column) >= 0,
            old(self).wf(),
        ensures
            final(self).wf(),
            ({
                let k = find_entry(old(self).entries@, EntryKind::Scenario, scenario.line, scenario.column);
                &&& {
                    let slot = old(self).entries@[k].slot as int;
                    final(self).outcomes@ == old(self).outcomes@.update(
                        slot,
                        outcome_after_skip_notice(old(self).outcomes@[slot], old(self).record_skipped),
                    )
                }
            }),
            final(self).entries == old(self).entries,
            final(self).cur_feature == old(self).cur_feature,
            final(self).counters == old(self).counters,
            final(self).repainting == old(self).repainting,
            final(self).record_skipped == old(self).record_skipped,
    {
        match self.find(EntryKind::Scenario, scenario.line, scenario.column) {
            Some(k) => {
                let slot = self.entries[k].slot;
                if self.record_skipped && self.outcomes[slot].is_none() {
                    self.outcomes.set(slot, Some(ScenarioOutcome::Skip));
                }
                assert(self.outcomes@ =~= old(self).outcomes@.update(
                    slot as int,
                    outcome_after_skip_notice(old(self).outcomes@[slot as int], old(self).record_skipped),
                ));
            },
            None => {},
        }
    }

    /// A scenario ends: with no outcome yet it passed; its buffer gets an
    /// empty line and its row finishes with the outcome's icon and word.
    pub fn visit_scenario_end(&mut self, rule: Option<&Rule>, scenario: &Scenario)
        requires
            find_entry(old(self).entries@, EntryKind::Scenario, scenario.line, scenario.column) >= 0,
            old(self).wf(),
        ensures
            final(self).wf(),
            ({
                let k = find_entry(old(self).entries@, EntryKind::Scenario, scenario.line, scenario.column);
                &&& entry_updated(old(self).entries@, final(self).entries@, k)
                &&& {
                    let a = old(self).entries@[k];
                    let b = final(self).entries@[k];
                    let o = outcome_after_end(old(self).outcomes@[a.slot as int]);
                    &&& final(self).outcomes@ == old(self).outcomes@.update(a.slot as int, Some(o))
                    &&& b.buffer@ == a.buffer@.push(plain("\n"@))
                    &&& b.row.prefix == a.row.prefix
                    &&& b.row.message@ == outcome_word(o)
                    &&& b.row.nested == a.row.nested
                    &&& b.row.length == a.row.length
                    &&& b.row.position == a.row.length
                    &&& b.row.state == RowState::Finished
                    &&& b.row.icon == Some(o)
                }
            }),
            final(self).cur_feature == old(self).cur_feature,
            final(self).counters == old(self).counters,
            final(self).repainting == old(self).repainting,
            final(self).record_skipped == old(self).record_skipped,
    {
        match self.find(EntryKind::Scenario, scenario.line, scenario.column) {
            Some(k) => {
                let slot = self.entries[k].slot;
                let o = match self.outcomes[slot] {
                    Some(o) => o,
                    None => ScenarioOutcome::Pass,
                };
                self.outcomes.set(slot, Some(o));
                let ghost before = self.entries@;
                let mut e = self.entries.remove(k);
                e.buffer.push_plain(String::from_str("\n"));
                e.row.message = match o {
                    ScenarioOutcome::Pass => String::from_str("passed"),
                    ScenarioOutcome::Fail => String::from_str("failed"),
                    ScenarioOutcome::Skip => String::from_str("skipped"),
                };
                e.row.position = e.row.length;
                e.row.state = RowState::Finished;
                e.row.icon = Some(o);
                self.entries.insert(k, e);
                assert(self.entries@ =~= before.update(k as int, e));
            },
            None => {},
        }
    }

    /// A step is about to run: it is counted, and its scenario's row shows
    /// it and advances.
    pub fn visit_step(&mut self, rule: Option<&Rule>, scenario: &Scenario, step: &Step)
        requires
            find_entry(old(self).entries@, EntryKind::Scenario, scenario.line, scenario.column) >= 0,
            old(self).wf(),
            old(self).counters.steps < u64::MAX,
        ensures
            final(self).wf(),
            final(self).counters == (Counters { steps: (old(self).counters.steps + 1) as u64, ..old(self).counters }),
            ({
                let k = find_entry(old(self).entries@, EntryKind::Scenario, scenario.line, scenario.column);
                &&& entry_updated(old(self).entries@, final(self).entries@, k)
                &&& {
                    let a = old(self).entries@[k];
                    let b = final(self).entries@[k];
                    &&& b.buffer == a.buffer
                    &&& b.row.prefix == a.row.prefix
                    &&& b.row.message@ == "Step: "@ + step.text()
                    &&& b.row.nested == a.row.nested
                    &&& b.row.length == a.row.length
                    &&& b.row.position == inc(a.row.position)
                    &&& b.row.state == a.row.state
                    &&& b.row.icon == a.row.icon
                }
            }),
            final(self).cur_feature == old(self).cur_feature,
            final(self).outcomes == old(self).outcomes,
            final(self).repainting == old(self).repainting,
            final(self).record_skipped == old(self).record_skipped,
    {
        self.counters.steps = self.counters.steps + 1;
        match self.find(EntryKind::Scenario, scenario.line, scenario.column) {
            Some(k) => {
                let text = step.to_text();
                let msg = concat2("Step: ", text.as_str());
                let ghost before = self.entries@;
                let mut e = self.entries.remove(k);
                e.row.message = msg;
                if e.row.position < u64::MAX {
                    e.row.position = e.row.position + 1;
                }
                self.entries.insert(k, e);
                assert(self.entries@ =~= before.update(k as int, e));
            },
            None => {},
        }
    }

    /// A step has finished: its line and diagnostics go into its scenario's
    /// buffer, failures and skips are counted, and a failure clears the
    /// scenario's row and makes its outcome `Fail`.
    pub fn visit_step_result(
        &mut self,
        rule: Option<&Rule>,
        scenario: &Scenario,
        step: &Step,
        result: &StepResult,
        tw: usize,
    )
        requires
            find_entry(old(self).entries@, EntryKind::Scenario, scenario.line, scenario.column) >= 0,
            old(self).wf(),
            step.wf(),
            !(result is Pass) ==> old(self).counters.failed + old(self).counters.skipped
                < old(self).counters.steps,
        ensures
            final(self).wf(),
            ({
                let k = find_entry(old(self).entries@, EntryKind::Scenario, scenario.line, scenario.column);
                &&& entry_updated(old(self).entries@, final(self).entries@, k)
                &&& {
                    let a = old(self).entries@[k];
                    let b = final(self).entries@[k];
                    &&& b.buffer@ == a.buffer@ + step_result_segments(
                        *step,
                        *result,
                        step_indent(rule is Some),
                        location(old(self).cur_feature@, step.line as nat, step.column as nat),
                        tw as nat,
                    )
                    &&& b.row == (if result is Fail {
                        Row { state: RowState::Cleared, ..a.row }
                    } else {
                        a.row
                    })
                    &&& final(self).counters == counters_after_result(old(self).counters, *result)
                    &&& final(self).outcomes@ == old(self).outcomes@.update(
                        a.slot as int,
                        outcome_after_result(old(self).outcomes@[a.slot as int], *result),
                    )
                }
            }),
            final(self).cur_feature == old(self).cur_feature,
            final(self).repainting == old(self).repainting,
            final(self).record_skipped == old(self).record_skipped,
    {
        let k = match self.find(EntryKind::Scenario, scenario.line, scenario.column) {
            Some(k) => k,
            None => return,
        };
        let cmt = location_string(self.cur_feature.as_str(), step.line, step.column);
        let indent = if rule.is_some() { "   " } else { "  " };
        let ghost before = self.entries@;
        let mut e = self.entries.remove(k);
        write_step_result(&mut e.buffer, step, result, indent, cmt.as_str(), tw);
        let slot = e.slot;
        match result {
            StepResult::Fail { .. } => {
                e.row.state = RowState::Cleared;
                self.counters.failed = self.counters.failed + 1;
                self.outcomes.set(slot, Some(ScenarioOutcome::Fail));
            },
            StepResult::Pass => {},
            _ => {
                self.counters.skipped = self.counters.skipped + 1;
            },
        }
        self.entries.insert(k, e);
        assert(self.entries@ =~= before.update(k as int, e));
        assert(self.outcomes@ =~= old(self).outcomes@.update(
            slot as int,
            outcome_after_result(old(self).outcomes@[slot as int], *result),
        ));
    }

    /// The run is over: the summary of all counters and outcomes.
    pub fn visit_finish(&self) -> (r: OutputBuffer)
        requires
            self.wf(),
        ensures
            r@ == summary_segments(self.counters, self.outcomes@),
    {
        summary(&self.counters, &self.outcomes)
    }
}

/// Entries with the same kinds and positions give the same lookups.
proof fn lemma_find_same_keys(a: Seq<Entry>, b: Seq<Entry>, kind: EntryKind, line: u64, column: u64, i: int)
    requires
        a.len() == b.len(),
        0 <= i,
        forall|j: int|
            0 <= j < a.len() ==> a[j].kind == b[j].kind && a[j].line == b[j].line && a[j].column
                == b[j].column,
    ensures
        find_from(a, kind, line, column, i) == find_from(b, kind, line, column, i),
    decreases a.len() - i,
{
    if i < a.len() {
        lemma_find_same_keys(a, b, kind, line, column, i + 1);
    }
}

} // verus!
