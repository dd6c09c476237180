//! Run counters, scenario outcomes and the closing summary.

use vstd::prelude::*;
use crate::buffer::{Color, OutputBuffer, SegmentView, styled, plain};
use crate::text::{digits, decimal};

verus! {

/// The final classification of a scenario.
#[derive(Clone, Copy, Debug, PartialEq, Eq, Structural)]
pub enum ScenarioOutcome {
    Pass,
    Fail,
    Skip,
}

/// Run-wide counters; none of them ever goes down.
#[derive(Clone, Copy, Debug, PartialEq, Eq, Structural)]
pub struct Counters {
    pub features: u64,
    pub feature_errors: u64,
    pub rules: u64,
    pub steps: u64,
    pub skipped: u64,
    pub failed: u64,
}

/// How many of the slots hold the outcome `o`.
pub open spec fn count_outcome(s: Seq<Option<ScenarioOutcome>>, o: ScenarioOutcome) -> nat
    decreases s.len(),
{
    if s.len() == 0 {
        0
    } else {
        count_outcome(s.drop_last(), o) + if s.last() == Some(o) { 1nat } else { 0nat }
    }
}

/// How many of the slots hold an outcome at all.
pub open spec fn count_recorded(s: Seq<Option<ScenarioOutcome>>) -> nat
    decreases s.len(),
{
    if s.len() == 0 {
        0
    } else {
        count_recorded(s.drop_last()) + if s.last() is Some { 1nat } else { 0nat }
    }
}

/// The steps that neither failed nor were skipped.
pub open spec fn steps_passed(c: Counters) -> int {
    c.steps - c.skipped - c.failed
}

/// The failed, skipped and passed scenarios together are all the scenarios
/// with a recorded outcome.
pub proof fn lemma_scenario_tally(s: Seq<Option<ScenarioOutcome>>)
    ensures
        count_outcome(s, ScenarioOutcome::Fail) + count_outcome(s, ScenarioOutcome::Skip)
            + count_outcome(s, ScenarioOutcome::Pass) == count_recorded(s),
    decreases s.len(),
{
    if s.len() > 0 {
        lemma_scenario_tally(s.drop_last());
        match s.last() {
            Some(ScenarioOutcome::Fail) => {},
            Some(ScenarioOutcome::Skip) => {},
            Some(ScenarioOutcome::Pass) => {},
            None => {},
        }
    }
}

/// Whenever no more results than started steps were counted, the failed,
/// skipped and passed steps together are the steps counted.
pub proof fn lemma_step_tally(c: Counters)
    requires
        c.failed + c.skipped <= c.steps,
    ensures
        steps_passed(c) >= 0,
        c.failed + c.skipped + steps_passed(c) == c.steps,
{
}

/// `digits(n)` followed by `word`.
pub open spec fn count_text(n: nat, word: Seq<char>) -> Seq<char> {
    digits(n) + word
}

/// The features line: count, errored count if any, rule count if any.
pub open spec fn features_line(features: nat, errors: nat, rules: nat) -> Seq<SegmentView> {
    seq![styled(count_text(features, " features"@), Color::White, true)] + (if errors > 0 {
        seq![
            styled(" ("@, Color::White, true),
            styled(count_text(errors, " errored"@), Color::Red, true),
            styled(")"@, Color::White, true),
        ]
    } else {
        Seq::empty()
    }) + (if rules > 0 {
        seq![styled(", "@ + count_text(rules, " rules"@), Color::White, true)]
    } else {
        Seq::empty()
    }) + seq![styled("\n"@, Color::White, true)]
}

/// A tally line: `<total><noun> (<f> failed, <s> skipped, <p> passed)`,
/// the failed and skipped parts only when not zero.
pub open spec fn tally_line(total: nat, noun: Seq<char>, failed: nat, skipped: nat, passed: nat) -> Seq<
    SegmentView,
> {
    seq![styled(count_text(total, noun + " ("@), Color::White, true)] + (if failed > 0 {
        seq![styled(count_text(failed, " failed"@), Color::Red, true)]
    } else {
        Seq::empty()
    }) + (if skipped > 0 {
        (if failed > 0 {
            seq![styled(", "@, Color::White, true)]
        } else {
            Seq::empty()
        }) + seq![styled(count_text(skipped, " skipped"@), Color::Cyan, true)]
    } else {
        Seq::empty()
    }) + (if failed > 0 || skipped > 0 {
        seq![styled(", "@, Color::White, true)]
    } else {
        Seq::empty()
    }) + seq![
        styled(count_text(passed, " passed"@), Color::Green, true),
        styled(")"@, Color::White, true),
        styled("\n"@, Color::White, true),
    ]
}

/// The whole summary: features, scenarios by outcome, steps by result,
/// then an empty line in the default style.
pub open spec fn summary_segments(c: Counters, outcomes: Seq<Option<ScenarioOutcome>>) -> Seq<
    SegmentView,
> {
    features_line(c.features as nat, c.feature_errors as nat, c.rules as nat) + tally_line(
        count_recorded(outcomes),
        " scenarios"@,
        count_outcome(outcomes, ScenarioOutcome::Fail),
        count_outcome(outcomes, ScenarioOutcome::Skip),
        count_outcome(outcomes, ScenarioOutcome::Pass),
    ) + tally_line(
        c.steps as nat,
        " steps"@,
        c.failed as nat,
        c.skipped as nat,
        steps_passed(c) as nat,
    ) + seq![plain("\n"@)]
}

/// The number of failed, skipped and passed outcomes, and of recorded ones.
pub fn tally_outcomes(outcomes: &Vec<Option<ScenarioOutcome>>) -> (r: (u64, u64, u64, u64))
    requires
        outcomes@.len() <= u64::MAX,
    ensures
        r.0 == count_outcome(outcomes@, ScenarioOutcome::Fail),
        r.1 == count_outcome(outcomes@, ScenarioOutcome::Skip),
        r.2 == count_outcome(outcomes@, ScenarioOutcome::Pass),
        r.3 == count_recorded(outcomes@),
{
    let mut f: u64 = 0;
    let mut s: u64 = 0;
    let mut p: u64 = 0;
    let mut n: u64 = 0;
    let mut i: usize = 0;
    while i < outcomes.len()
        invariant
            i <= outcomes@.len() <= u64::MAX,
            f == count_outcome(outcomes@.take(i as int), ScenarioOutcome::Fail),
            s == count_outcome(outcomes@.take(i as int), ScenarioOutcome::Skip),
            p == count_outcome(outcomes@.take(i as int), ScenarioOutcome::Pass),
            n == count_recorded(outcomes@.take(i as int)),
            f + s + p == n,
            n <= i,
        decreases outcomes.len() - i,
    {
        proof {
            let t = outcomes@.take(i as int + 1);
            assert(t.drop_last() =~= outcomes@.take(i as int));
            lemma_scenario_tally(t);
        }
        match outcomes[i] {
            Some(ScenarioOutcome::Fail) => f = f + 1,
            Some(ScenarioOutcome::Skip) => s = s + 1,
            Some(ScenarioOutcome::Pass) => p = p + 1,
            None => {},
        }
        if outcomes[i].is_some() {
            n = n + 1;
        }
        i = i + 1;
    }
    assert(outcomes@.take(i as int) =~= outcomes@);
    (f, s, p, n)
}

fn count_string(n: u64, word: &str) -> (r: String)
    ensures
        r@ == count_text(n as nat, word@),
{
    let mut r = decimal(n);
    r.append(word);
    r
}

fn write_features_line(buf: &mut OutputBuffer, c: &Counters)
    ensures
        final(buf)@ == old(buf)@ + features_line(
            c.features as nat,
            c.feature_errors as nat,
            c.rules as nat,
        ),
{
    let ghost b0 = buf@;
    buf.push_styled(count_string(c.features, " features"), Color::White, true);
    if c.feature_errors > 0 {
        buf.push_styled(String::from_str(" ("), Color::White, true);
        buf.push_styled(count_string(c.feature_errors, " errored"), Color::Red, true);
        buf.push_styled(String::from_str(")"), Color::White, true);
    }
    if c.rules > 0 {
        let mut t = String::from_str(", ");
        let n = count_string(c.rules, " rules");
        t.append(n.as_str());
        buf.push_styled(t, Color::White, true);
    }
    buf.push_styled(String::from_str("\n"), Color::White, true);
    assert(buf@ =~= b0 + features_line(c.features as nat, c.feature_errors as nat, c.rules as nat));
}

fn write_tally_line(buf: &mut OutputBuffer, total: u64, noun: &str, failed: u64, skipped: u64, passed: u64)
    ensures
        final(buf)@ == old(buf)@ + tally_line(
            total as nat,
            noun@,
            failed as nat,
            skipped as nat,
            passed as nat,
        ),
{
    let ghost b0 = buf@;
    let mut head = String::from_str(noun);
    head.append(" (");
    buf.push_styled(count_string(total, head.as_str()), Color::White, true);
    if failed > 0 {
        buf.push_styled(count_string(failed, " failed"), Color::Red, true);
    }
    if skipped > 0 {
        if failed > 0 {
            buf.push_styled(String::from_str(", "), Color::White, true);
        }
        buf.push_styled(count_string(skipped, " skipped"), Color::Cyan, true);
    }
    if failed > 0 || skipped > 0 {
        buf.push_styled(String::from_str(", "), Color::White, true);
    }
    buf.push_styled(count_string(passed, " passed"), Color::Green, true);
    buf.push_styled(String::from_str(")"), Color::White, true);
    buf.push_styled(String::from_str("\n"), Color::White, true);
    assert(buf@ =~= b0 + tally_line(
        total as nat,
        noun@,
        failed as nat,
        skipped as nat,
        passed as nat,
    ));
}

/// The closing summary of a run with the given counters and scenario
/// outcomes.
pub fn summary(c: &Counters, outcomes: &Vec<Option<ScenarioOutcome>>) -> (r: OutputBuffer)
    requires
        c.failed + c.skipped <= c.steps,
        outcomes@.len() <= u64::MAX,
    ensures
        r@ == summary_segments(*c, outcomes@),
{
    let mut buf = OutputBuffer::new();
    write_features_line(&mut buf, c);
    let (f, s, p, n) = tally_outcomes(outcomes);
    write_tally_line(&mut buf, n, " scenarios", f, s, p);
    let passed = c.steps - c.skipped - c.failed;
    write_tally_line(&mut buf, c.steps, " steps", c.failed, c.skipped, passed);
    buf.push_plain(String::from_str("\n"));
    buf
}

} // verus!
