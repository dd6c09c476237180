//! Console reporting for a behaviour-driven test runner: text layout,
//! styled output buffers, run counters and the structured renderer's
//! per-event state transitions, plus a plain echo renderer.

pub mod buffer;
pub mod debug;
pub mod document;
pub mod events;
pub mod extras;
pub mod laws;
pub mod layout;
pub mod paths;
pub mod position;
pub mod render;
pub mod summary;
pub mod text;

pub use buffer::{Color, OutputBuffer, Segment};
pub use debug::DebugOutput;
pub use document::{Feature, FeatureError, Rule, Scenario, Step, StepResult, Table};
pub use render::{DefaultOutput, Entry, EntryKind, Row, RowState};
pub use summary::{Counters, ScenarioOutcome};
