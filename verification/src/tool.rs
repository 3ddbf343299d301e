//! Tools the model can call.
use vstd::prelude::*;

use crate::types::{blocks_view, ContentBlock, ContentBlockV};

verus! {

/// Descriptive metadata attached to a tool.
#[derive(Debug, Default)]
pub struct ToolMetadata {
    /// The (unsanitized) namespace the tool was registered under, such as the
    /// name of the plugin that contributed it.
    pub namespace: Option<String>,
}

/// The outcome of one tool execution, returned to the model.
#[derive(Debug)]
pub struct AgentToolResult {
    pub content: Vec<ContentBlock>,
    pub is_error: bool,
}

impl AgentToolResult {
    /// A failed result carrying `message` as its only text block.
    pub fn error(message: String) -> (r: Self)
        ensures
            r.is_error,
            blocks_view(r.content@) == seq![ContentBlockV::Text { text: message@ }],
    {
        let mut content: Vec<ContentBlock> = Vec::new();
        content.push(ContentBlock::Text { text: message });
        assert(blocks_view(content@) =~= seq![ContentBlockV::Text { text: message@ }]);
        AgentToolResult { content, is_error: true }
    }
}

/// A tool the agent can offer to the model.
pub trait AgentTool {
    /// The name the tool answers with. A tool checked here defines it beside
    /// `name`; for any other tool it stands for a fixed text that is not known.
    open spec fn spec_name(&self) -> Seq<char> {
        arbitrary()
    }

    /// The name the model calls the tool by.
    fn name(&self) -> (r: &str)
        ensures
            r@ == self.spec_name(),
    ;

    /// Whether `r` can be the tool's label: any text can, unless the tool
    /// says otherwise.
    open spec fn label_outcome(&self, r: Seq<char>) -> bool {
        true
    }

    /// Whether `r` can be the tool's description: any text can, unless the
    /// tool says otherwise.
    open spec fn description_outcome(&self, r: Seq<char>) -> bool {
        true
    }

    /// Whether `r` can be the tool's answer to "requires approval": either
    /// can, unless the tool says otherwise.
    open spec fn approval_outcome(&self, r: bool) -> bool {
        true
    }

    /// A human-readable label.
    fn label(&self) -> (r: &str)
        ensures
            self.label_outcome(r@),
    ;

    /// What the tool does, shown to the model.
    fn description(&self) -> (r: &str)
        ensures
            self.description_outcome(r@),
    ;

    /// Whether each call must be approved before it runs.
    fn requires_approval(&self) -> (r: bool)
        ensures
            self.approval_outcome(r),
    ;

    /// Descriptive metadata, if the tool has any.
    fn metadata(&self) -> Option<ToolMetadata>;
}

} // verus!
