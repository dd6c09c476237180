//! The structured renderer: one live row and one output buffer per rule and
//! scenario of the current feature, run counters and scenario outcomes.
//! The caller paints the rows and prints what each event returns; this
//! module decides what they hold.

use vstd::prelude::*;
use crate::buffer::{Color, OutputBuffer, SegmentView, styled, plain, line};
use crate::document::{Feature, FeatureError, Rule, Scenario, Step, StepResult};
use crate::extras::{extras_segments, write_step_extras};
use crate::layout::{
    block, block_text, comment_segments, rule, rule_text, write_comment_line,
};
use crate::summary::{Counters, ScenarioOutcome};
use crate::text::{location, location_string, repeat, sat_sub};

verus! {

/// What an entry stands for.
#[derive(Clone, Copy, Debug, PartialEq, Eq, Structural)]
pub enum EntryKind {
    Rule,
    Scenario,
}

/// Where a live row is in its life.
#[derive(Clone, Copy, Debug, PartialEq, Eq, Structural)]
pub enum RowState {
    /// Repainted on every tick.
    Live,
    /// Shows its final line and is no longer repainted.
    Finished,
    /// Removed from the display.
    Cleared,
}

/// A live progress row: the entity's name, its current message, whether it
/// sits under a rule, its progress and, once finished, the outcome icon.
pub struct Row {
    pub prefix: String,
    pub message: String,
    pub nested: bool,
    pub length: u64,
    pub position: u64,
    pub state: RowState,
    pub icon: Option<ScenarioOutcome>,
}

/// One rule or scenario of the current feature: its identity (kind and
/// position in the file), its outcome slot, its row and its buffer.
pub struct Entry {
    pub kind: EntryKind,
    pub line: u64,
    pub column: u64,
    pub slot: usize,
    pub row: Row,
    pub buffer: OutputBuffer,
}

/// The structured renderer's state.
pub struct DefaultOutput {
    /// The current feature's path, as shown in annotations.
    pub cur_feature: String,
    pub counters: Counters,
    /// One slot per entry ever created; rules' slots stay empty.
    pub outcomes: Vec<Option<ScenarioOutcome>>,
    /// The current feature's rules and scenarios in document order.
    pub entries: Vec<Entry>,
    /// Whether the rows are being repainted in the background.
    pub repainting: bool,
    /// Whether a scenario reported as skipped before it ran is recorded as
    /// skipped; when off such a notice changes nothing.
    pub record_skipped: bool,
}

/// The plan of one entry: kind, line, column, name, length of its row and
/// whether it sits under a rule.
pub type EntryPlan = (EntryKind, u64, u64, Seq<char>, nat, bool);

/// The entries of a sequence of scenarios.
pub open spec fn scenario_plans(ss: Seq<Scenario>, nested: bool) -> Seq<EntryPlan> {
    ss.map_values(
        |s: Scenario| (EntryKind::Scenario, s.line, s.column, s.name@, s.steps@.len(), nested),
    )
}

/// The entries of a rule: the rule itself, then its scenarios.
pub open spec fn rule_plan(r: Rule) -> Seq<EntryPlan> {
    seq![(EntryKind::Rule, r.line, r.column, r.name@, r.scenarios@.len(), false)]
        + scenario_plans(r.scenarios@, true)
}

/// The entries of a sequence of rules, in order.
pub open spec fn rule_plans(rs: Seq<Rule>) -> Seq<EntryPlan>
    decreases rs.len(),
{
    if rs.len() == 0 {
        Seq::empty()
    } else {
        rule_plans(rs.drop_last()) + rule_plan(rs.last())
    }
}

/// The entries of a feature in document order: each rule followed by its
/// scenarios, then the top-level scenarios.
pub open spec fn feature_plan(f: Feature) -> Seq<EntryPlan> {
    rule_plans(f.rules@) + scenario_plans(f.scenarios@, false)
}

/// The placeholder message of a row that has not started.
pub open spec fn starting_message() -> Seq<char> {
    "starting…"@
}

/// `e` is a fresh entry for plan `p` with outcome slot `slot`.
pub open spec fn fresh_entry(e: Entry, p: EntryPlan, slot: int) -> bool {
    &&& e.kind == p.0
    &&& e.line == p.1
    &&& e.column == p.2
    &&& e.slot == slot
    &&& e.row.prefix@ == p.3
    &&& e.row.message@ == starting_message()
    &&& e.row.length == p.4
    &&& e.row.nested == p.5
    &&& e.row.position == 0
    &&& e.row.state == RowState::Live
    &&& e.row.icon is None
    &&& e.buffer@ == Seq::<SegmentView>::empty()
}

/// The first entry at or after `i` of the given kind and position, or -1.
pub open spec fn find_from(es: Seq<Entry>, kind: EntryKind, line: u64, column: u64, i: int) -> int
    decreases es.len() - i,
{
    if i < 0 || i >= es.len() {
        -1
    } else if es[i].kind == kind && es[i].line == line && es[i].column == column {
        i
    } else {
        find_from(es, kind, line, column, i + 1)
    }
}

/// The index of the entry of the given kind and position, or -1.
pub open spec fn find_entry(es: Seq<Entry>, kind: EntryKind, line: u64, column: u64) -> int {
    find_from(es, kind, line, column, 0)
}

/// `b` is `a` with at most entry `k` changed, and that one keeps its
/// identity and slot.
pub open spec fn entry_updated(a: Seq<Entry>, b: Seq<Entry>, k: int) -> bool {
    &&& b.len() == a.len()
    &&& forall|j: int| 0 <= j < a.len() && j != k ==> b[j] == a[j]
    &&& 0 <= k < a.len() ==> {
        &&& b[k].kind == a[k].kind
        &&& b[k].line == a[k].line
        &&& b[k].column == a[k].column
        &&& b[k].slot == a[k].slot
    }
}

/// The concatenation of the entries' buffers, in order.
pub open spec fn all_buffers(es: Seq<Entry>) -> Seq<SegmentView>
    decreases es.len(),
{
    if es.len() == 0 {
        Seq::empty()
    } else {
        all_buffers(es.drop_last()) + es.last().buffer@
    }
}

/// The counters of a renderer that has seen nothing.
pub open spec fn zero_counters() -> Counters {
    Counters { features: 0, feature_errors: 0, rules: 0, steps: 0, skipped: 0, failed: 0 }
}

/// What a feature's start prints: its name and location, then an empty line.
pub open spec fn feature_header(f: Feature, path: Seq<char>, tw: nat) -> Seq<SegmentView> {
    comment_segments(
        "Feature: "@ + f.name@,
        location(path, f.line as nat, f.column as nat),
        Seq::empty(),
        Color::White,
        true,
        tw,
    ) + seq![plain("\n"@)]
}

impl DefaultOutput {
    /// Results never outnumber started steps, the outcome slots can be
    /// counted, and every scenario entry has a slot.
    pub open spec fn wf(&self) -> bool {
        &&& self.counters.failed + self.counters.skipped <= self.counters.steps
        &&& self.outcomes@.len() <= u64::MAX
        &&& forall|i: int|
            0 <= i < self.entries@.len() ==> (#[trigger] self.entries@[i]).slot
                < self.outcomes@.len()
    }

    /// A renderer that has seen nothing, with skip notices ignored.
    pub fn new() -> (r: DefaultOutput)
        ensures
            r.wf(),
            r.counters == zero_counters(),
            r.outcomes@ == Seq::<Option<ScenarioOutcome>>::empty(),
            r.entries@ == Seq::<Entry>::empty(),
            r.cur_feature@ == Seq::<char>::empty(),
            !r.repainting,
            !r.record_skipped,
    {
        DefaultOutput {
            cur_feature: String::new(),
            counters: Counters { features: 0, feature_errors: 0, rules: 0, steps: 0, skipped: 0, failed: 0 },
            outcomes: Vec::new(),
            entries: Vec::new(),
            repainting: false,
            record_skipped: false,
        }
    }

    /// Chooses whether a skip notice before a scenario runs records it as
    /// skipped.
    pub fn set_record_skipped(&mut self, on: bool)
        ensures
            final(self).record_skipped == on,
            final(self).cur_feature == old(self).cur_feature,
            final(self).counters == old(self).counters,
            final(self).outcomes == old(self).outcomes,
            final(self).entries == old(self).entries,
            final(self).repainting == old(self).repainting,
    {
        self.record_skipped = on;
    }

    /// The index of the entry of the given kind and position.
    pub fn find(&self, kind: EntryKind, line: u64, column: u64) -> (r: Option<usize>)
        ensures
            r matches Some(k) ==> k == find_entry(self.entries@, kind, line, column) && k
                < self.entries@.len() && self.entries@[k as int].kind == kind,
            r is None ==> find_entry(self.entries@, kind, line, column) == -1,
            find_entry(self.entries@, kind, line, column) < self.entries@.len(),
            find_entry(self.entries@, kind, line, column) >= -1,
    {
        let mut i: usize = 0;
        while i < self.entries.len()
            invariant
                i <= self.entries@.len(),
                find_entry(self.entries@, kind, line, column) == find_from(
                    self.entries@,
                    kind,
                    line,
                    column,
                    i as int,
                ),
            decreases self.entries.len() - i,
        {
            let e = &self.entries[i];
            if e.kind == kind && e.line == line && e.column == column {
                return Some(i);
            }
            i = i + 1;
        }
        None
    }

    /// The banner printed once before any feature.
    pub fn visit_start(&self, version: &str) -> (r: OutputBuffer)
        ensures
            r@ == seq![styled("[Cucumber v"@ + version@ + "]\n\n"@, Color::Green, true)],
    {
        let mut t = String::from_str("[Cucumber v");
        t.append(version);
        t.append("]\n\n");
        let mut r = OutputBuffer::new();
        r.push_styled(t, Color::Green, true);
        r
    }

    /// Begins a feature: prints its header, makes it the current feature,
    /// counts it, creates one fresh entry per rule and scenario in document
    /// order, each with a new empty outcome slot, and starts repainting.
    pub fn visit_feature(&mut self, feature: &Feature, path: &str, tw: usize) -> (r: OutputBuffer)
        requires
            old(self).wf(),
            !old(self).repainting,
            old(self).counters.features < u64::MAX,
            old(self).outcomes@.len() + feature_plan(*feature).len() <= u64::MAX,
            old(self).outcomes@.len() + feature_plan(*feature).len() <= usize::MAX,
        ensures
            final(self).wf(),
            r@ == feature_header(*feature, path@, tw as nat),
            final(self).cur_feature@ == path@,
            final(self).counters == (Counters {
                features: (old(self).counters.features + 1) as u64,
                ..old(self).counters
            }),
            final(self).entries@.len() == feature_plan(*feature).len(),
            forall|i: int|
                0 <= i < final(self).entries@.len() ==> fresh_entry(
                    #[trigger] final(self).entries@[i],
                    feature_plan(*feature)[i],
                    old(self).outcomes@.len() + i,
                ),
            final(self).outcomes@ == old(self).outcomes@ + Seq::new(
                feature_plan(*feature).len(),
                |i: int| None::<ScenarioOutcome>,
            ),
            final(self).repainting,
            final(self).record_skipped == old(self).record_skipped,
    {
        let mut msg = String::from_str("Feature: ");
        msg.append(feature.name.as_str());
        let cmt = location_string(path, feature.line, feature.column);
        let mut r = OutputBuffer::new();
        write_comment_line(&mut r, msg.as_str(), cmt.as_str(), "", Color::White, true, tw);
        r.push_plain(String::from_str("\n"));
        proof {
            reveal_strlit("");
            assert(""@ =~= Seq::<char>::empty());
        }

        self.cur_feature = String::from_str(path);
        self.counters.features = self.counters.features + 1;

        let base = self.outcomes.len();
        let ghost plan = feature_plan(*feature);
        let mut entries: Vec<Entry> = Vec::new();
        let mut ri: usize = 0;
        while ri < feature.rules.len()
            invariant
                base == old(self).outcomes@.len(),
                base + plan.len() <= usize::MAX,
                plan == feature_plan(*feature),
                ri <= feature.rules@.len(),
                entries@.len() == rule_plans(feature.rules@.take(ri as int)).len(),
                rule_plans(feature.rules@).len() <= plan.len(),
                forall|i: int|
                    0 <= i < entries@.len() ==> fresh_entry(
                        #[trigger] entries@[i],
                        rule_plans(feature.rules@.take(ri as int))[i],
                        base + i,
                    ),
            decreases feature.rules.len() - ri,
        {
            let ghost done = rule_plans(feature.rules@.take(ri as int));
            let rl = &feature.rules[ri];
            proof {
                assert(feature.rules@.take(ri as int + 1).drop_last() =~= feature.rules@.take(
                    ri as int,
                ));
                lemma_rule_plans_prefix(feature.rules@, ri as int + 1);
                lemma_rule_plans_prefix(feature.rules@, feature.rules@.len() as int);
                assert(feature.rules@.take(feature.rules@.len() as int) =~= feature.rules@);
            }
            let e = fresh(EntryKind::Rule, rl.line, rl.column, base + entries.len(), &rl.name, rl.scenarios.len() as u64, false);
            entries.push(e);
            let mut si: usize = 0;
            while si < rl.scenarios.len()
                invariant
                    base == old(self).outcomes@.len(),
                    base + plan.len() <= usize::MAX,
                    plan == feature_plan(*feature),
                    ri < feature.rules@.len(),
                    *rl == feature.rules@[ri as int],
                    done == rule_plans(feature.rules@.take(ri as int)),
                    rule_plans(feature.rules@.take(ri as int + 1)) == done + rule_plan(*rl),
                    rule_plans(feature.rules@.take(ri as int + 1)).len() <= plan.len(),
                    si <= rl.scenarios@.len(),
                    entries@.len() == done.len() + 1 + si,
                    rule_plans(feature.rules@).len() <= plan.len(),
                    forall|i: int|
                        0 <= i < entries@.len() ==> fresh_entry(
                            #[trigger] entries@[i],
                            (done + rule_plan(*rl))[i],
                            base + i,
                        ),
                decreases rl.scenarios.len() - si,
            {
                let sc = &rl.scenarios[si];
                let e = fresh(EntryKind::Scenario, sc.line, sc.column, base + entries.len(), &sc.name, sc.steps.len() as u64, true);
                entries.push(e);
                si = si + 1;
            }
            ri = ri + 1;
            proof {
                assert(entries@.len() == rule_plans(feature.rules@.take(ri as int)).len());
            }
        }
        assert(feature.rules@.take(ri as int) =~= feature.rules@);
        assert(forall|i: int| 0 <= i < entries@.len() ==> plan[i] == rule_plans(feature.rules@)[i]);
        let ghost nested = entries@.len();
        let mut si: usize = 0;
        while si < feature.scenarios.len()
            invariant
                base == old(self).outcomes@.len(),
                base + plan.len() <= usize::MAX,
                plan == feature_plan(*feature),
                nested == rule_plans(feature.rules@).len(),
                si <= feature.scenarios@.len(),
                entries@.len() == nested + si,
                forall|i: int|
                    0 <= i < entries@.len() ==> fresh_entry(#[trigger] entries@[i], plan[i], base + i),
            decreases feature.scenarios.len() - si,
        {
            let sc = &feature.scenarios[si];
            assert(plan[entries@.len() as int] == scenario_plans(feature.scenarios@, false)[si as int]);
            let e = fresh(EntryKind::Scenario, sc.line, sc.column, base + entries.len(), &sc.name, sc.steps.len() as u64, false);
            entries.push(e);
            si = si + 1;
        }
        let mut i: usize = 0;
        while i < entries.len()
            invariant
                i <= entries@.len(),
                self.outcomes@ == old(self).outcomes@ + Seq::new(i as nat, |j: int| None::<ScenarioOutcome>),
                base == old(self).outcomes@.len(),
                base + entries@.len() <= u64::MAX,
                self.cur_feature@ == path@,
                self.counters == (Counters {
                    features: (old(self).counters.features + 1) as u64,
                    ..old(self).counters
                }),
                self.record_skipped == old(self).record_skipped,
            decreases entries.len() - i,
        {
            self.outcomes.push(None);
            i = i + 1;
            assert(self.outcomes@ =~= old(self).outcomes@ + Seq::new(i as nat, |j: int| None::<ScenarioOutcome>));
        }
        self.entries = entries;
        self.repainting = true;
        r
    }
}

/// A fresh entry: an empty buffer and a live row with the placeholder message.
fn fresh(kind: EntryKind, line: u64, column: u64, slot: usize, name: &String, length: u64, nested: bool) -> (e: Entry)
    ensures
        fresh_entry(e, (kind, line, column, name@, length as nat, nested), slot as int),
{
    let row = Row {
        prefix: name.clone(),
        message: String::from_str("starting…"),
        nested,
        length,
        position: 0,
        state: RowState::Live,
        icon: None,
    };
    Entry { kind, line, column, slot, row, buffer: OutputBuffer::new() }
}

/// The entries of the first `k` rules come before those of the rest.
proof fn lemma_rule_plans_prefix(rs: Seq<Rule>, k: int)
    requires
        0 <= k <= rs.len(),
    ensures
        rule_plans(rs.take(k)).len() <= rule_plans(rs).len(),
        forall|i: int| 0 <= i < rule_plans(rs.take(k)).len() ==> rule_plans(rs.take(k))[i] == rule_plans(rs)[i],
    decreases rs.len() - k,
{
    if k < rs.len() {
        lemma_rule_plans_prefix(rs, k + 1);
        assert(rs.take(k + 1).drop_last() =~= rs.take(k));
    } else {
        assert(rs.take(k) =~= rs);
    }
}

/// Each entry's buffer, first one first.
pub(crate) proof fn lemma_all_buffers_front(s: Seq<Entry>)
    requires
        s.len() > 0,
    ensures
        all_buffers(s) == s[0].buffer@ + all_buffers(s.subrange(1, s.len() as int)),
    decreases s.len(),
{
    if s.len() == 1 {
        assert(s.drop_last() =~= Seq::<Entry>::empty());
        assert(all_buffers(s.drop_last()) =~= Seq::<SegmentView>::empty());
        assert(s.subrange(1, 1) =~= Seq::<Entry>::empty());
        assert(all_buffers(s.subrange(1, 1)) =~= Seq::<SegmentView>::empty());
        assert(all_buffers(s) =~= s[0].buffer@);
    } else {
        lemma_all_buffers_front(s.drop_last());
        assert(s.drop_last().subrange(1, s.len() - 1) =~= s.subrange(1, s.len() as int).drop_last());
        assert(s.subrange(1, s.len() as int).last() == s.last());
        assert(all_buffers(s) =~= s[0].buffer@ + all_buffers(s.subrange(1, s.len() as int)));
    }
}

/// The indent of a scenario's heading.
pub open spec fn scenario_indent(nested: bool) -> Seq<char> {
    if nested { "  "@ } else { " "@ }
}

/// The indent of a step's line.
pub open spec fn step_indent(nested: bool) -> Seq<char> {
    if nested { "   "@ } else { "  "@ }
}

/// A horizontal rule of `n` dashes.
pub open spec fn dashes(n: nat) -> Seq<char> {
    repeat('—', n)
}

/// The heading of a failure block: a dashed rule that starts with `head`,
/// the location flush right.
pub open spec fn failure_head(head: Seq<char>, loc: Seq<char>, tw: nat) -> Seq<SegmentView> {
    comment_segments(
        rule_text(head, sat_sub(sat_sub(tw, loc.len()), 7)),
        loc,
        "———— "@,
        Color::Red,
        true,
        tw,
    )
}

/// A wrapped, indented red text block.
pub open spec fn red_block(s: Seq<char>, tw: nat) -> SegmentView {
    styled(line(block_text(s, tw)), Color::Red, false)
}

/// What a feature that did not load prints: a heading with the location,
/// the error text and a closing rule.
pub open spec fn feature_error_segments(loc: Seq<char>, msg: Seq<char>, tw: nat) -> Seq<SegmentView> {
    failure_head("! Parsing feature failed: "@, loc, tw) + seq![
        red_block(msg, tw),
        styled(line(dashes(tw) + "\n"@), Color::Red, true),
    ]
}

/// The location shown for a feature that did not load.
pub open spec fn error_location(path: Seq<char>, e: FeatureError) -> Seq<char> {
    match e {
        FeatureError::Syntax { line, column, .. } => location(path, line as nat, column as nat),
        FeatureError::Io { .. } => path,
    }
}

/// The text of a load error.
pub open spec fn error_message(e: FeatureError) -> Seq<char> {
    match e {
        FeatureError::Syntax { message, .. } => message@,
        FeatureError::Io { message } => message@,
    }
}

/// A labelled captured stream, present only when it is not empty.
pub open spec fn captured_segments(label: Seq<char>, s: Seq<char>, tw: nat) -> Seq<SegmentView> {
    if s.len() > 0 {
        seq![styled(line(rule_text(label, tw)), Color::Red, true), red_block(s, tw)]
    } else {
        Seq::empty()
    }
}

/// The diagnostics of a failed step: location, panic message, captured
/// output streams, closing rule.
pub open spec fn step_failure_segments(
    loc: Seq<char>,
    payload: Seq<char>,
    out: Seq<char>,
    err: Seq<char>,
    tw: nat,
) -> Seq<SegmentView> {
    failure_head("! Step failed: "@, loc, tw) + seq![red_block(payload, tw)] + captured_segments(
        "———— Captured stdout: "@,
        out,
        tw,
    ) + captured_segments("———— Captured stderr: "@, err, tw) + seq![
        styled(line(dashes(tw)), Color::Red, true),
    ]
}

/// What a step's result adds to its scenario's buffer.
pub open spec fn step_result_segments(
    step: Step,
    result: StepResult,
    indent: Seq<char>,
    loc: Seq<char>,
    tw: nat,
) -> Seq<SegmentView> {
    match result {
        StepResult::Pass => comment_segments(
            "✔ "@ + step.text(),
            loc,
            indent,
            Color::Green,
            false,
            tw,
        ) + extras_segments(step),
        StepResult::Fail { location, payload, stdout, stderr } => comment_segments(
            "✘ "@ + step.text(),
            loc,
            indent,
            Color::Red,
            false,
            tw,
        ) + extras_segments(step) + step_failure_segments(
            location@,
            payload@,
            stdout@,
            stderr@,
            tw,
        ),
        StepResult::Skipped => comment_segments(
            "- "@ + step.text(),
            loc,
            indent,
            Color::Cyan,
            false,
            tw,
        ) + extras_segments(step),
        StepResult::Unimplemented => comment_segments(
            "- "@ + step.text(),
            loc,
            indent,
            Color::Cyan,
            false,
            tw,
        ) + extras_segments(step) + seq![
            styled(indent + "  ⚡ "@, Color::Yellow, false),
            plain("Not yet implemented (skipped)\n"@),
        ],
    }
}

/// The counters after a step result.
pub open spec fn counters_after_result(c: Counters, result: StepResult) -> Counters {
    match result {
        StepResult::Pass => c,
        StepResult::Fail { .. } => Counters { failed: (c.failed + 1) as u64, ..c },
        _ => Counters { skipped: (c.skipped + 1) as u64, ..c },
    }
}

/// A scenario's outcome after one of its steps reports: a failure always
/// makes it `Fail`; anything else leaves it as it was.
pub open spec fn outcome_after_result(o: Option<ScenarioOutcome>, result: StepResult) -> Option<
    ScenarioOutcome,
> {
    if result is Fail {
        Some(ScenarioOutcome::Fail)
    } else {
        o
    }
}

/// A scenario's outcome once it ends: what was recorded, else `Pass`.
pub open spec fn outcome_after_end(o: Option<ScenarioOutcome>) -> ScenarioOutcome {
    match o {
        Some(x) => x,
        None => ScenarioOutcome::Pass,
    }
}

/// A scenario's outcome after a skip notice: `Skip` when none was recorded
/// and such notices are recorded, else unchanged.
pub open spec fn outcome_after_skip_notice(o: Option<ScenarioOutcome>, record: bool) -> Option<
    ScenarioOutcome,
> {
    if record && o is None {
        Some(ScenarioOutcome::Skip)
    } else {
        o
    }
}

/// The final message of a scenario's row.
pub open spec fn outcome_word(o: ScenarioOutcome) -> Seq<char> {
    match o {
        ScenarioOutcome::Pass => "passed"@,
        ScenarioOutcome::Fail => "failed"@,
        ScenarioOutcome::Skip => "skipped"@,
    }
}

/// One step of progress, stopping at the largest value.
pub open spec fn inc(p: u64) -> u64 {
    if p < u64::MAX { (p + 1) as u64 } else { p }
}

/// `b` is `a` with `segs` appended to its buffer and nothing else changed.
pub open spec fn buffer_grew(a: Entry, b: Entry, segs: Seq<SegmentView>) -> bool {
    &&& b.kind == a.kind
    &&& b.line == a.line
    &&& b.column == a.column
    &&& b.slot == a.slot
    &&& b.row == a.row
    &&& b.buffer@ == a.buffer@ + segs
}

/// `b` is `a` with its row replaced by `row` and nothing else changed.
pub open spec fn row_became(a: Entry, b: Entry, row: Row) -> bool {
    &&& b.kind == a.kind
    &&& b.line == a.line
    &&& b.column == a.column
    &&& b.slot == a.slot
    &&& b.row == row
    &&& b.buffer == a.buffer
}

/// The text of a literal `head` followed by `tail`.
pub(crate) fn concat2(head: &str, tail: &str) -> (r: String)
    ensures
        r@ == head@ + tail@,
{
    let mut r = String::from_str(head);
    r.append(tail);
    r
}

/// Writes the heading of a failure block.
pub(crate) fn write_failure_head(buf: &mut OutputBuffer, head: &str, loc: &str, tw: usize)
    ensures
        final(buf)@ == old(buf)@ + failure_head(head@, loc@, tw as nat),
{
    let l = loc.unicode_len();
    let a: usize = if tw >= l { tw - l } else { 0 };
    let w: usize = if a >= 7 { a - 7 } else { 0 };
    let h = rule(head, w);
    write_comment_line(buf, h.as_str(), loc, "———— ", Color::Red, true, tw);
}

/// Writes `s` as a wrapped red block.
pub(crate) fn write_red_block(buf: &mut OutputBuffer, s: &str, tw: usize)
    ensures
        final(buf)@ == old(buf)@.push(red_block(s@, tw as nat)),
{
    proof {
        reveal_strlit("\n");
    }
    let mut b = block(s, tw);
    b.append("\n");
    assert(b@ =~= line(block_text(s@, tw as nat)));
    buf.push_styled(b, Color::Red, false);
}

/// A rule of `tw` dashes.
pub(crate) fn dash_line(tw: usize) -> (r: String)
    ensures
        r@ == dashes(tw as nat),
{
    let r = rule("", tw);
    proof {
        reveal_strlit("");
        assert(r@ =~= dashes(tw as nat));
    }
    r
}

/// Writes a captured stream under its label, when it is not empty.
fn write_captured(buf: &mut OutputBuffer, label: &str, s: &str, tw: usize)
    ensures
        final(buf)@ == old(buf)@ + captured_segments(label@, s@, tw as nat),
{
    let ghost b0 = buf@;
    if s.unicode_len() > 0 {
        proof {
            reveal_strlit("\n");
        }
        let mut h = rule(label, tw);
        h.append("\n");
        assert(h@ =~= line(rule_text(label@, tw as nat)));
        buf.push_styled(h, Color::Red, true);
        write_red_block(buf, s, tw);
        assert(buf@ =~= b0 + captured_segments(label@, s@, tw as nat));
    } else {
        assert(buf@ =~= b0 + captured_segments(label@, s@, tw as nat));
    }
}

/// Writes the diagnostics of a failed step.
fn write_step_failure(buf: &mut OutputBuffer, loc: &str, payload: &str, out: &str, err: &str, tw: usize)
    ensures
        final(buf)@ == old(buf)@ + step_failure_segments(loc@, payload@, out@, err@, tw as nat),
{
    let ghost b0 = buf@;
    write_failure_head(buf, "! Step failed: ", loc, tw);
    write_red_block(buf, payload, tw);
    write_captured(buf, "———— Captured stdout: ", out, tw);
    write_captured(buf, "———— Captured stderr: ", err, tw);
    proof {
        reveal_strlit("\n");
    }
    let mut d = dash_line(tw);
    d.append("\n");
    assert(d@ =~= line(dashes(tw as nat)));
    buf.push_styled(d, Color::Red, true);
    assert(buf@ =~= b0 + step_failure_segments(loc@, payload@, out@, err@, tw as nat));
}

/// Writes a step's line for its result, with what goes under it.
pub fn write_step_result(
    buf: &mut OutputBuffer,
    step: &Step,
    result: &StepResult,
    indent: &str,
    loc: &str,
    tw: usize,
)
    requires
        step.wf(),
    ensures
        final(buf)@ == old(buf)@ + step_result_segments(*step, *result, indent@, loc@, tw as nat),
{
    let ghost b0 = buf@;
    let text = step.to_text();
    match result {
        StepResult::Pass => {
            let m = concat2("✔ ", text.as_str());
            write_comment_line(buf, m.as_str(), loc, indent, Color::Green, false, tw);
            write_step_extras(buf, step);
        },
        StepResult::Fail { location, payload, stdout, stderr } => {
            let m = concat2("✘ ", text.as_str());
            write_comment_line(buf, m.as_str(), loc, indent, Color::Red, false, tw);
            write_step_extras(buf, step);
            write_step_failure(buf, location.as_str(), payload.as_str(), stdout.as_str(), stderr.as_str(), tw);
        },
        StepResult::Skipped => {
            let m = concat2("- ", text.as_str());
            write_comment_line(buf, m.as_str(), loc, indent, Color::Cyan, false, tw);
            write_step_extras(buf, step);
        },
        StepResult::Unimplemented => {
            let m = concat2("- ", text.as_str());
            write_comment_line(buf, m.as_str(), loc, indent, Color::Cyan, false, tw);
            write_step_extras(buf, step);
            let mark = concat2(indent, "  ⚡ ");
            buf.push_styled(mark, Color::Yellow, false);
            buf.push_plain(String::from_str("Not yet implemented (skipped)\n"));
        },
    }
    assert(buf@ =~= b0 + step_result_segments(*step, *result, indent@, loc@, tw as nat));
}

} // verus!
