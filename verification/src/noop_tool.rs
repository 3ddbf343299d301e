//! Placeholder tool for session history compatibility.
//!
//! When a session references a tool that is no longer registered,
//! [`NoopTool`] stands in for it and answers every call with an error
//! explaining that the tool is no longer available.
use vstd::prelude::*;

use crate::text::concat;
use crate::tool::{AgentTool, AgentToolResult, ToolMetadata};
use crate::types::{blocks_view, ContentBlockV};

verus! {

/// A placeholder tool that answers every call with an error result.
#[derive(Debug, Clone)]
pub struct NoopTool {
    name: String,
}

/// The error text a placeholder tool answers with.
pub open spec fn unavailable_text(name: Seq<char>) -> Seq<char> {
    "Tool '"@ + name + "' is no longer available. It may have been removed or renamed."@
}

impl NoopTool {
    /// A placeholder for the tool called `name`.
    pub fn new(name: &str) -> (r: Self)
        ensures
            r.spec_name() == name@,
    {
        NoopTool { name: name.to_owned() }
    }

    /// The result of any call: an error naming the missing tool.
    pub fn unavailable_result(&self) -> (r: AgentToolResult)
        ensures
            r.is_error,
            blocks_view(r.content@) == seq![ContentBlockV::Text { text: unavailable_text(self.spec_name()) }],
    {
        let head = concat("Tool '", self.name.as_str());
        let text = concat(head.as_str(), "' is no longer available. It may have been removed or renamed.");
        AgentToolResult::error(text)
    }
}

impl AgentTool for NoopTool {
    closed spec fn spec_name(&self) -> Seq<char> {
        self.name@
    }

    open spec fn label_outcome(&self, r: Seq<char>) -> bool {
        r == self.spec_name()
    }

    open spec fn description_outcome(&self, r: Seq<char>) -> bool {
        r == "This tool is no longer available."@
    }

    open spec fn approval_outcome(&self, r: bool) -> bool {
        !r
    }

    fn name(&self) -> (r: &str) {
        self.name.as_str()
    }

    fn label(&self) -> (r: &str)
        ensures
            r@ == self.spec_name(),
    {
        self.name.as_str()
    }

    fn description(&self) -> (r: &str)
        ensures
            r@ == "This tool is no longer available."@,
    {
        "This tool is no longer available."
    }

    fn requires_approval(&self) -> (r: bool)
        ensures
            !r,
    {
        false
    }

    fn metadata(&self) -> (r: Option<ToolMetadata>)
        ensures
            r is None,
    {
        None
    }
}

} // verus!
