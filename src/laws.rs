//! Properties that relate several parts of the renderer.

use vstd::prelude::*;
use crate::document::StepResult;
use crate::layout::{comment_lines, comment_text, comment_space, align_last, indent_lines, wrapped_lines};
use crate::render::{outcome_after_end, outcome_after_result, outcome_after_skip_notice};
use crate::summary::{ScenarioOutcome, count_outcome, count_recorded, lemma_scenario_tally};
use crate::text::{sat_sub, spaces};

verus! {

/// Laying out the same message and annotation twice at the same terminal
/// width gives the same text.
pub proof fn lemma_layout_repeatable(
    msg: Seq<char>,
    cmt: Seq<char>,
    indent: Seq<char>,
    tw: nat,
    first: Seq<char>,
    second: Seq<char>,
)
    requires
        first == comment_text(msg, cmt.len(), indent, tw),
        second == comment_text(msg, cmt.len(), indent, tw),
    ensures
        first == second,
{
}

/// When the annotation and its two-space gap fit on the terminal, the last
/// laid out line, the gap and the annotation end exactly in the terminal's
/// last column.
pub proof fn lemma_annotation_right_aligned(msg: Seq<char>, cmt: Seq<char>, indent: Seq<char>, tw: nat)
    requires
        cmt.len() + 2 <= tw,
    ensures
        comment_lines(msg, cmt.len(), indent, tw).len() > 0,
        comment_lines(msg, cmt.len(), indent, tw).last().len() + 2 + cmt.len() == tw,
{
    let lines = indent_lines(wrapped_lines(msg, sat_sub(tw, indent.len())), indent);
    let space = comment_space(tw, cmt.len());
    let r = align_last(lines, space);
    if lines.len() == 0 {
        assert(r.last() == spaces(space));
    } else if lines.last().len() > space {
        assert(r.last() == spaces(space));
    } else {
        assert(r.last() == lines.last() + spaces((space - lines.last().len()) as nat));
    }
}

/// A failing step makes its scenario `Fail` whatever came before, also
/// after the scenario already ended as passed, and no later event takes
/// `Fail` away.
pub proof fn lemma_fail_absorbs(o: Option<ScenarioOutcome>, failing: StepResult, later: StepResult, record: bool)
    requires
        failing is Fail,
    ensures
        outcome_after_result(o, failing) == Some(ScenarioOutcome::Fail),
        outcome_after_result(Some(outcome_after_end(o)), failing) == Some(ScenarioOutcome::Fail),
        outcome_after_result(Some(ScenarioOutcome::Fail), later) == Some(ScenarioOutcome::Fail),
        outcome_after_end(Some(ScenarioOutcome::Fail)) == ScenarioOutcome::Fail,
        outcome_after_skip_notice(Some(ScenarioOutcome::Fail), record) == Some(ScenarioOutcome::Fail),
{
}

/// New empty outcome slots, as a feature's start adds them, change none
/// of the run's scenario counts.
pub proof fn lemma_empty_slots_count_nothing(s: Seq<Option<ScenarioOutcome>>, n: nat, o: ScenarioOutcome)
    ensures
        count_recorded(s + Seq::new(n, |i: int| None::<ScenarioOutcome>)) == count_recorded(s),
        count_outcome(s + Seq::new(n, |i: int| None::<ScenarioOutcome>), o) == count_outcome(s, o),
    decreases n,
{
    let t = s + Seq::new(n, |i: int| None::<ScenarioOutcome>);
    if n == 0 {
        assert(t =~= s);
    } else {
        lemma_empty_slots_count_nothing(s, (n - 1) as nat, o);
        assert(t.drop_last() =~= s + Seq::new((n - 1) as nat, |i: int| None::<ScenarioOutcome>));
    }
}

/// Recording an outcome in a slot adds one scenario to the run's total
/// when the slot was empty and none when it already held one, so each
/// scenario is counted once however many events record it; the count of
/// each outcome moves accordingly.
pub proof fn lemma_recording_counts_once(s: Seq<Option<ScenarioOutcome>>, i: int, o: ScenarioOutcome, p: ScenarioOutcome)
    requires
        0 <= i < s.len(),
    ensures
        count_recorded(s.update(i, Some(o))) == count_recorded(s) + if s[i] is None { 1int } else { 0int },
        count_outcome(s.update(i, Some(o)), p) == count_outcome(s, p) - (if s[i] == Some(p) { 1int } else { 0int })
            + (if o == p { 1int } else { 0int }),
    decreases s.len(),
{
    let t = s.update(i, Some(o));
    if i == s.len() - 1 {
        assert(t.drop_last() =~= s.drop_last());
    } else {
        lemma_recording_counts_once(s.drop_last(), i, o, p);
        assert(t.drop_last() =~= s.drop_last().update(i, Some(o)));
    }
}

/// The outcome slots after a run's recording events, each a slot and the
/// outcome written there, applied in order.
pub open spec fn apply_records(
    s: Seq<Option<ScenarioOutcome>>,
    recs: Seq<(int, ScenarioOutcome)>,
) -> Seq<Option<ScenarioOutcome>>
    decreases recs.len(),
{
    if recs.len() == 0 {
        s
    } else {
        let t = apply_records(s, recs.drop_last());
        let i = recs.last().0;
        if 0 <= i < t.len() {
            t.update(i, Some(recs.last().1))
        } else {
            t
        }
    }
}

/// Some recording event wrote to slot `i`.
pub open spec fn reached(recs: Seq<(int, ScenarioOutcome)>, i: int) -> bool {
    exists|j: int| 0 <= j < recs.len() && (#[trigger] recs[j]).0 == i
}

/// How many of the slots below `n` some recording event wrote to.
pub open spec fn count_reached(recs: Seq<(int, ScenarioOutcome)>, n: int) -> nat
    decreases n,
{
    if n <= 0 {
        0
    } else {
        count_reached(recs, n - 1) + if reached(recs, n - 1) { 1nat } else { 0nat }
    }
}

proof fn lemma_records_fill_reached(n: nat, recs: Seq<(int, ScenarioOutcome)>)
    ensures
        apply_records(Seq::new(n, |i: int| None::<ScenarioOutcome>), recs).len() == n,
        forall|k: int|
            0 <= k < n ==> (apply_records(Seq::new(n, |i: int| None::<ScenarioOutcome>), recs)[k] is Some
                <==> reached(recs, k)),
    decreases recs.len(),
{
    let s0 = Seq::new(n, |i: int| None::<ScenarioOutcome>);
    if recs.len() > 0 {
        let d = recs.drop_last();
        lemma_records_fill_reached(n, d);
        assert forall|k: int| 0 <= k < n implies (apply_records(s0, recs)[k] is Some <==> reached(recs, k)) by {
            if reached(d, k) {
                let j = choose|j: int| 0 <= j < d.len() && (#[trigger] d[j]).0 == k;
                assert(recs[j] == d[j]);
            }
            if reached(recs, k) {
                let j = choose|j: int| 0 <= j < recs.len() && (#[trigger] recs[j]).0 == k;
                if j < d.len() {
                    assert(d[j] == recs[j]);
                }
            }
            if recs.last().0 == k {
                assert(recs[recs.len() - 1].0 == k);
            }
        }
    }
}

proof fn lemma_count_matches(s: Seq<Option<ScenarioOutcome>>, recs: Seq<(int, ScenarioOutcome)>, m: int)
    requires
        0 <= m <= s.len(),
        forall|k: int| 0 <= k < s.len() ==> (s[k] is Some <==> reached(recs, k)),
    ensures
        count_recorded(s.take(m)) == count_reached(recs, m),
    decreases m,
{
    if m > 0 {
        lemma_count_matches(s, recs, m - 1);
        assert(s.take(m).drop_last() =~= s.take(m - 1));
    }
}

/// Over a whole run, the scenarios in the summary are the scenarios that
/// some event recorded, each counted once however often it was recorded,
/// and their failed, skipped and passed parts add up to that total.
pub proof fn lemma_run_counts_each_scenario_once(n: nat, recs: Seq<(int, ScenarioOutcome)>)
    requires
        forall|j: int| 0 <= j < recs.len() ==> 0 <= (#[trigger] recs[j]).0 < n,
    ensures
        ({
            let s = apply_records(Seq::new(n, |i: int| None::<ScenarioOutcome>), recs);
            &&& count_recorded(s) == count_reached(recs, n as int)
            &&& count_outcome(s, ScenarioOutcome::Fail) + count_outcome(s, ScenarioOutcome::Skip)
                + count_outcome(s, ScenarioOutcome::Pass) == count_reached(recs, n as int)
        }),
{
    let s = apply_records(Seq::new(n, |i: int| None::<ScenarioOutcome>), recs);
    lemma_records_fill_reached(n, recs);
    lemma_count_matches(s, recs, n as int);
    assert(s.take(n as int) =~= s);
    lemma_scenario_tally(s);
}

} // verus!
