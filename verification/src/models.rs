//! The items of a conversation, as far as anything is decided from them.
use vstd::prelude::*;

verus! {

/// How closely an image is to be looked at.
#[derive(Clone, Copy, Debug, PartialEq, Eq, Structural)]
pub enum ImageDetail {
    Auto,
    Low,
    High,
    Original,
}

/// One part of a message.
#[derive(Debug, PartialEq)]
pub enum ContentItem {
    /// Text that goes to the model.
    InputText { text: String },
    /// An image that goes to the model.
    InputImage { image_url: String, detail: Option<ImageDetail> },
    /// Text that came from the model.
    OutputText { text: String },
}

/// One part of the output of a tool.
#[derive(Debug, PartialEq)]
pub enum FunctionCallOutputContentItem {
    /// Text.
    InputText { text: String },
    /// An image.
    InputImage { image_url: String, detail: Option<ImageDetail> },
}

/// The output of a tool.
#[derive(Debug, PartialEq)]
pub struct FunctionCallOutputPayload {
    /// The output as text, where it has such a form.
    pub text: Option<String>,
    /// The parts of the output, where it comes in parts.
    pub content_items: Option<Vec<FunctionCallOutputContentItem>>,
}

/// One item of a conversation.
#[derive(Debug, PartialEq)]
pub enum ResponseItem {
    /// A message.
    Message {
        id: Option<String>,
        role: String,
        content: Vec<ContentItem>,
        phase: Option<String>,
    },
    /// The model's reasoning.
    Reasoning { encrypted_content: Option<String> },
    /// A call of the local shell.
    LocalShellCall,
    /// A call of a function.
    FunctionCall { name: String, arguments: String },
    /// A search for tools.
    ToolSearchCall,
    /// The output of a function.
    FunctionCallOutput { call_id: String, output: FunctionCallOutputPayload },
    /// A call of a custom tool.
    CustomToolCall,
    /// The output of a custom tool.
    CustomToolCallOutput { call_id: String, output: FunctionCallOutputPayload },
    /// The tools that a search found.
    ToolSearchOutput,
    /// A search of the web.
    WebSearchCall,
    /// A request for an image.
    ImageGenerationCall,
    /// A summary of earlier items.
    Compaction,
    /// A request for a summary.
    CompactionTrigger,
    /// A summary of the context.
    ContextCompaction,
    /// Anything else.
    Other,
}

} // verus!
