//! The parts of a feature document that the renderer reads.

use vstd::prelude::*;

verus! {

/// A step's data table; `numeric[r][n]` tells whether cell `n` of row `r`
/// reads as a number.
pub struct Table {
    pub header: Vec<String>,
    pub rows: Vec<Vec<String>>,
    pub numeric: Vec<Vec<bool>>,
}

impl Table {
    /// No row has more cells than the header, and each row has one number
    /// flag per cell.
    pub open spec fn wf(&self) -> bool {
        &&& self.numeric@.len() == self.rows@.len()
        &&& forall|r: int|
            0 <= r < self.rows@.len() ==> {
                &&& (#[trigger] self.rows@[r])@.len() <= self.header@.len()
                &&& self.numeric@[r]@.len() == self.rows@[r]@.len()
            }
    }

    /// The number of columns.
    pub open spec fn columns(&self) -> nat {
        self.header@.len()
    }

    /// The text of cell `n` of row `r`.
    pub open spec fn cell(&self, r: int, n: int) -> Seq<char> {
        self.rows@[r]@[n]@
    }
}

/// One step of a scenario: keyword, text, position and optional argument.
pub struct Step {
    pub keyword: String,
    pub value: String,
    pub line: u64,
    pub column: u64,
    pub table: Option<Table>,
    pub docstring: Option<String>,
}

impl Step {
    /// The table, if any, is well formed.
    pub open spec fn wf(&self) -> bool {
        match self.table {
            Some(t) => t.wf(),
            None => true,
        }
    }

    /// The step as it reads: keyword, a space, its text.
    pub open spec fn text(&self) -> Seq<char> {
        self.keyword@ + seq![' '] + self.value@
    }

    /// The step as it reads: keyword, a space, its text.
    pub fn to_text(&self) -> (r: String)
        ensures
            r@ == self.text(),
    {
        proof {
            reveal_strlit(" ");
        }
        let mut r = self.keyword.clone();
        r.append(" ");
        r.append(self.value.as_str());
        r
    }
}

/// A scenario: its name, position and steps.
pub struct Scenario {
    pub name: String,
    pub line: u64,
    pub column: u64,
    pub steps: Vec<Step>,
}

/// A rule: its name, position and the scenarios under it.
pub struct Rule {
    pub name: String,
    pub line: u64,
    pub column: u64,
    pub scenarios: Vec<Scenario>,
}

/// A feature: its name, position, rules and top-level scenarios.
pub struct Feature {
    pub name: String,
    pub line: u64,
    pub column: u64,
    pub rules: Vec<Rule>,
    pub scenarios: Vec<Scenario>,
}

/// Why a feature file could not be loaded.
pub enum FeatureError {
    /// The text does not parse; the position of the fault and its description.
    Syntax { line: u64, column: u64, message: String },
    /// The file could not be read, or the fault has no known position.
    Io { message: String },
}

/// The outcome of one step.
pub enum StepResult {
    Pass,
    /// The step panicked: where, with what message, and what it wrote.
    Fail { location: String, payload: String, stdout: String, stderr: String },
    Skipped,
    Unimplemented,
}

} // verus!
