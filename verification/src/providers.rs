//! The provider-neutral conversation model exchanged with LLM providers.
use vstd::prelude::*;

verus! {

#[derive(Debug, Clone, Copy, PartialEq, Eq, Structural)]
pub enum ChatRole {
    System,
    User,
    Assistant,
    Tool,
}

/// One block of message content. Tool inputs are held as their compact JSON text.
#[derive(Debug, Clone, PartialEq, Eq)]
pub enum ContentBlock {
    Text { text: String },
    Image { url: String },
    ToolUse { id: String, name: String, input: String },
    ToolResult { tool_use_id: String, content: String },
}

/// The content of a message: plain text or a list of blocks.
#[derive(Debug, Clone, PartialEq, Eq)]
pub enum MessagePart {
    Text(String),
    Parts(Vec<ContentBlock>),
}

#[derive(Debug, Clone, PartialEq, Eq)]
pub struct ChatMessage {
    pub role: ChatRole,
    pub content: MessagePart,
}

#[derive(Debug, Clone, Copy, PartialEq, Eq, Structural)]
pub struct Usage {
    pub input_tokens: u32,
    pub output_tokens: u32,
}

/// A tool offered to the model. The input schema is held as its compact JSON text.
#[derive(Debug, Clone, PartialEq, Eq)]
pub struct ToolDefinition {
    pub name: String,
    pub description: String,
    pub input_schema: String,
}

/// A completion request. The sampling temperature, when set, is held in
/// thousandths (`Some(0)` is temperature 0.0).
#[derive(Debug, Clone, PartialEq, Eq)]
pub struct LlmRequest {
    pub model: String,
    pub messages: Vec<ChatMessage>,
    pub system: Option<String>,
    pub max_tokens: Option<u32>,
    pub temperature_milli: Option<u32>,
    pub tools: Vec<ToolDefinition>,
}

#[derive(Debug, Clone, PartialEq, Eq)]
pub struct LlmResponse {
    pub content: Vec<ContentBlock>,
    pub model: String,
    pub usage: Option<Usage>,
    pub stop_reason: Option<String>,
}

/// Events emitted during a streaming LLM completion.
#[derive(Debug, Clone, PartialEq, Eq)]
pub enum StreamEvent {
    /// A chunk of text output.
    TextDelta(String),
    /// A tool use block started.
    ToolUseStart { index: usize, id: String, name: String },
    /// Partial JSON input for a tool use block.
    InputJsonDelta(String),
    /// A content block finished.
    ContentBlockStop { index: usize },
    /// The message is finishing with metadata.
    MessageDelta { stop_reason: Option<String>, usage: Option<Usage> },
    /// Stream complete.
    MessageStop,
}

/// Whether a block is a tool-use block.
pub open spec fn is_tool_use(b: ContentBlock) -> bool {
    b is ToolUse
}

/// Whether any block of `content` is a tool-use block.
pub open spec fn has_tool_use_spec(content: Seq<ContentBlock>) -> bool {
    exists|i: int| 0 <= i < content.len() && is_tool_use(#[trigger] content[i])
}

/// Whether the response asks for tools.
pub fn has_tool_use(content: &Vec<ContentBlock>) -> (r: bool)
    ensures
        r == has_tool_use_spec(content@),
{
    let mut i: usize = 0;
    while i < content.len()
        invariant
            i <= content@.len(),
            forall|j: int| 0 <= j < i ==> !is_tool_use(#[trigger] content@[j]),
        decreases content@.len() - i,
    {
        if let ContentBlock::ToolUse { .. } = &content[i] {
            return true;
        }
        i += 1;
    }
    false
}

/// A message with role and text.
pub fn text_message(role: ChatRole, text: String) -> (m: ChatMessage)
    ensures
        m.role == role,
        m.content == MessagePart::Text(text),
{
    ChatMessage { role, content: MessagePart::Text(text) }
}

} // verus!
