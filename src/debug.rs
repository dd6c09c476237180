//! The echo renderer: one plain line per event, for diagnosing a run.

use vstd::prelude::*;
use crate::document::{Feature, Rule, Scenario, Step};
use crate::render::concat2;

verus! {

/// Echoes each event as one line of text.
pub struct DebugOutput;

/// `head`, a space, then `tail`.
fn spaced(head: &str, tail: &str) -> (r: String)
    ensures
        r@ == head@ + " "@ + tail@,
{
    let mut r = concat2(head, " ");
    r.append(tail);
    r
}

impl DebugOutput {
    pub fn new() -> (r: DebugOutput) {
        DebugOutput
    }

    pub fn visit_start(&self) -> (r: String)
        ensures
            r@ == "visit_start"@,
    {
        String::from_str("visit_start")
    }

    pub fn visit_feature(&self, feature: &Feature, path: &str) -> (r: String)
        ensures
            r@ == "visit_feature "@ + feature.name@ + " "@ + path@,
    {
        let a = concat2("visit_feature ", feature.name.as_str());
        spaced(a.as_str(), path)
    }

    pub fn visit_feature_end(&self, feature: &Feature) -> (r: String)
        ensures
            r@ == "visit_feature_end "@ + feature.name@,
    {
        concat2("visit_feature_end ", feature.name.as_str())
    }

    /// `error` is the error's debugging text.
    pub fn visit_feature_error(&self, path: &str, error: &str) -> (r: String)
        ensures
            r@ == "visit_feature_error "@ + path@ + " "@ + error@,
    {
        let a = concat2("visit_feature_error ", path);
        spaced(a.as_str(), error)
    }

    pub fn visit_rule(&self, rule: &Rule) -> (r: String)
        ensures
            r@ == "visit_rule "@ + rule.name@,
    {
        concat2("visit_rule ", rule.name.as_str())
    }

    pub fn visit_rule_end(&self, rule: &Rule) -> (r: String)
        ensures
            r@ == "visit_rule_end "@ + rule.name@,
    {
        concat2("visit_rule_end ", rule.name.as_str())
    }

    pub fn visit_scenario(&self, rule: Option<&Rule>, scenario: &Scenario) -> (r: String)
        ensures
            r@ == "visit_scenario "@ + scenario.name@,
    {
        concat2("visit_scenario ", scenario.name.as_str())
    }

    pub fn visit_scenario_end(&self, rule: Option<&Rule>, scenario: &Scenario) -> (r: String)
        ensures
            r@ == "visit_scenario_end "@ + scenario.name@,
    {
        concat2("visit_scenario_end ", scenario.name.as_str())
    }

    pub fn visit_scenario_skipped(&self, rule: Option<&Rule>, scenario: &Scenario) -> (r: String)
        ensures
            r@ == "visit_scenario_skipped "@ + scenario.name@,
    {
        concat2("visit_scenario_skipped ", scenario.name.as_str())
    }

    pub fn visit_step(&self, rule: Option<&Rule>, scenario: &Scenario, step: &Step) -> (r: String)
        ensures
            r@ == "visit_step "@ + step.keyword@ + " "@ + step.value@,
    {
        let a = concat2("visit_step ", step.keyword.as_str());
        spaced(a.as_str(), step.value.as_str())
    }

    /// `meta` is the debugging text of the matched step's metadata.
    pub fn visit_step_resolved(&self, step: &Step, meta: &str) -> (r: String)
        ensures
            r@ == "visit_step_resolved "@ + meta@,
    {
        concat2("visit_step_resolved ", meta)
    }

    /// `result` is the debugging text of the step's result.
    pub fn visit_step_result(
        &self,
        rule: Option<&Rule>,
        scenario: &Scenario,
        step: &Step,
        result: &str,
    ) -> (r: String)
        ensures
            r@ == "visit_step_result "@ + step.keyword@ + " "@ + step.value@ + " - "@ + result@,
    {
        let a = concat2("visit_step_result ", step.keyword.as_str());
        let b = spaced(a.as_str(), step.value.as_str());
        let mut r = concat2(b.as_str(), " - ");
        r.append(result);
        r
    }

    pub fn visit_finish(&self) -> (r: String)
        ensures
            r@ == "visit_finish"@,
    {
        String::from_str("visit_finish")
    }
}

} // verus!
