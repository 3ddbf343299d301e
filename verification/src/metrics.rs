//! Structured per-turn metrics: model call duration, per-tool timing and
//! token usage.
use std::time::Duration;

use vstd::prelude::*;

use crate::types::Usage;

verus! {

/// Timing and outcome of a single tool execution within a turn.
#[derive(Debug, Clone)]
pub struct ToolExecMetrics {
    /// Name of the tool that was executed.
    pub tool_name: String,
    /// Wall-clock duration of the tool execution.
    pub duration: Duration,
    /// Whether the execution succeeded (`true`) or returned an error.
    pub success: bool,
}

impl ToolExecMetrics {
    /// A tool execution record.
    pub fn new(tool_name: &str, duration: Duration, success: bool) -> (r: Self)
        ensures
            r.tool_name@ == tool_name@,
            r.duration == duration,
            r.success == success,
    {
        ToolExecMetrics { tool_name: tool_name.to_owned(), duration, success }
    }
}

/// Metrics snapshot emitted at the end of each turn.
#[derive(Debug, Clone)]
pub struct TurnMetrics {
    /// Zero-based index of the turn within the current run.
    pub turn_index: usize,
    /// Wall-clock duration of the model call (tools excluded).
    pub llm_call_duration: Duration,
    /// Per-tool execution metrics (empty when no tool was called).
    pub tool_executions: Vec<ToolExecMetrics>,
    /// Token usage of this turn's model call.
    pub usage: Usage,
    /// Total wall-clock duration of the turn (model and tools).
    pub turn_duration: Duration,
}

impl TurnMetrics {
    /// A turn snapshot with no tool executions recorded.
    pub fn new(turn_index: usize, llm_call_duration: Duration, usage: Usage, turn_duration: Duration) -> (r: Self)
        ensures
            r.turn_index == turn_index,
            r.llm_call_duration == llm_call_duration,
            r.tool_executions@.len() == 0,
            r.usage == usage,
            r.turn_duration == turn_duration,
    {
        TurnMetrics { turn_index, llm_call_duration, tool_executions: Vec::new(), usage, turn_duration }
    }

    /// The same snapshot with the given per-tool metrics attached.
    pub fn with_tool_executions(self, tool_executions: Vec<ToolExecMetrics>) -> (r: Self)
        ensures
            r.turn_index == self.turn_index,
            r.llm_call_duration == self.llm_call_duration,
            r.tool_executions@ == tool_executions@,
            r.usage == self.usage,
            r.turn_duration == self.turn_duration,
    {
        TurnMetrics { tool_executions, ..self }
    }
}

} // verus!
