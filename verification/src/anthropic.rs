//! The Anthropic Messages wire format: how a provider-neutral request becomes an
//! Anthropic request and how a response comes back.
use vstd::prelude::*;
use crate::providers::{ChatMessage, ChatRole, ContentBlock, LlmRequest, LlmResponse, MessagePart, ToolDefinition, Usage};
use crate::text::{owned, push_str, push_char};

verus! {

broadcast use vstd::string::group_string_axioms;

/// `s` without its trailing slashes (`str::trim_end_matches('/')`).
pub open spec fn strip_trailing_slashes(s: Seq<char>) -> Seq<char>
    decreases s.len(),
{
    if s.len() > 0 && s.last() == '/' {
        strip_trailing_slashes(s.drop_last())
    } else {
        s
    }
}

/// A copy of `s` without its trailing slashes.
pub fn without_trailing_slashes(s: &str) -> (r: String)
    ensures
        r@ == strip_trailing_slashes(s@),
{
    let v = crate::text::chars_of(s);
    let mut k = v.len();
    assert(v@.take(k as int) =~= v@);
    while k > 0 && v[k - 1] == '/'
        invariant
            v@ == s@,
            k <= v@.len(),
            strip_trailing_slashes(s@) == strip_trailing_slashes(v@.take(k as int)),
        decreases k,
    {
        assert(v@.take(k as int).drop_last() =~= v@.take(k - 1));
        k -= 1;
    }
    assert(v@.subrange(0, k as int) =~= v@.take(k as int));
    assert(k > 0 ==> v@.take(k as int).last() == v@[k - 1]);
    crate::text::string_of(&v, 0, k)
}

/// The API address used when none is configured.
pub open spec fn anthropic_default_base_url() -> Seq<char> {
    "https://api.anthropic.com"@
}

/// An Anthropic provider's settings.
#[derive(Debug, Clone, PartialEq, Eq)]
pub struct AnthropicProvider {
    pub api_key: String,
    pub model: String,
    pub base_url: String,
}

/// A content block on the wire; tool inputs are JSON text.
#[derive(Debug, Clone, PartialEq, Eq)]
pub enum AnthropicBlock {
    Text { text: String },
    ToolUse { id: String, name: String, input: String },
    ToolResult { tool_use_id: String, content: String },
}

/// Message content on the wire: plain text or blocks.
#[derive(Debug, Clone, PartialEq, Eq)]
pub enum AnthropicContent {
    Text(String),
    Blocks(Vec<AnthropicBlock>),
}

/// A message on the wire.
#[derive(Debug, Clone, PartialEq, Eq)]
pub struct AnthropicMessage {
    pub role: String,
    pub content: AnthropicContent,
}

/// A tool offered to the model; `input_schema` is JSON schema text.
#[derive(Debug, Clone, PartialEq, Eq)]
pub struct AnthropicTool {
    pub name: String,
    pub description: String,
    pub input_schema: String,
}

/// A messages request on the wire (temperature in thousandths).
#[derive(Debug, Clone, PartialEq, Eq)]
pub struct AnthropicRequest {
    pub model: String,
    pub max_tokens: u32,
    pub system: Option<String>,
    pub messages: Vec<AnthropicMessage>,
    pub temperature_milli: Option<u32>,
    pub tools: Option<Vec<AnthropicTool>>,
}

/// Token counts of a response.
#[derive(Debug, Clone, Copy, PartialEq, Eq)]
pub struct AnthropicUsage {
    pub input_tokens: u32,
    pub output_tokens: u32,
}

/// A messages response on the wire.
#[derive(Debug, Clone, PartialEq, Eq)]
pub struct AnthropicResponse {
    pub content: Vec<AnthropicBlock>,
    pub model: String,
    pub usage: Option<AnthropicUsage>,
    pub stop_reason: Option<String>,
}

/// The wire role of a chat role: only the assistant keeps its own.
pub open spec fn anthropic_role(r: ChatRole) -> Seq<char> {
    if r == ChatRole::Assistant {
        "assistant"@
    } else {
        "user"@
    }
}

/// A wire block by its views: kind and up to three texts.
pub open spec fn wire_view(b: AnthropicBlock) -> (nat, Seq<char>, Seq<char>, Seq<char>) {
    match b {
        AnthropicBlock::Text { text } => (0, text@, Seq::empty(), Seq::empty()),
        AnthropicBlock::ToolUse { id, name, input } => (1, id@, name@, input@),
        AnthropicBlock::ToolResult { tool_use_id, content } => (2, tool_use_id@, content@, Seq::empty()),
    }
}

/// The wire form of a block: an image becomes the text `[image: url]`.
pub open spec fn wire_of(b: ContentBlock) -> (nat, Seq<char>, Seq<char>, Seq<char>) {
    match b {
        ContentBlock::Text { text } => (0, text@, Seq::empty(), Seq::empty()),
        ContentBlock::ToolUse { id, name, input } => (1, id@, name@, input@),
        ContentBlock::ToolResult { tool_use_id, content } => (2, tool_use_id@, content@, Seq::empty()),
        ContentBlock::Image { url } => (0, "[image: "@ + url@ + "]"@, Seq::empty(), Seq::empty()),
    }
}

/// Whether `w` is the wire message for `m`.
pub open spec fn wire_message(w: AnthropicMessage, m: ChatMessage) -> bool {
    &&& w.role@ == anthropic_role(m.role)
    &&& match m.content {
        MessagePart::Text(t) => w.content matches AnthropicContent::Text(u) && u@ == t@,
        MessagePart::Parts(bs) => w.content matches AnthropicContent::Blocks(ws) && ws@.map_values(
            |b: AnthropicBlock| wire_view(b),
        ) == bs@.map_values(|b: ContentBlock| wire_of(b)),
    }
}

fn wire_block(b: &ContentBlock) -> (r: AnthropicBlock)
    ensures
        wire_view(r) == wire_of(*b),
{
    match b {
        ContentBlock::Text { text } => AnthropicBlock::Text { text: text.clone() },
        ContentBlock::ToolUse { id, name, input } => AnthropicBlock::ToolUse { id: id.clone(), name: name.clone(), input: input.clone() },
        ContentBlock::ToolResult { tool_use_id, content } => AnthropicBlock::ToolResult {
            tool_use_id: tool_use_id.clone(),
            content: content.clone(),
        },
        ContentBlock::Image { url } => {
            let mut t = owned("[image: ");
            push_str(&mut t, url.as_str());
            push_str(&mut t, "]");
            AnthropicBlock::Text { text: t }
        },
    }
}

/// The wire message for a chat message.
pub fn to_anthropic_message(msg: &ChatMessage) -> (r: AnthropicMessage)
    ensures
        wire_message(r, *msg),
{
    let role = if msg.role == ChatRole::Assistant {
        owned("assistant")
    } else {
        owned("user")
    };
    let content = match &msg.content {
        MessagePart::Text(t) => AnthropicContent::Text(t.clone()),
        MessagePart::Parts(bs) => {
            let mut ws: Vec<AnthropicBlock> = Vec::new();
            let mut i: usize = 0;
            while i < bs.len()
                invariant
                    i <= bs@.len(),
                    ws@.map_values(|b: AnthropicBlock| wire_view(b)) == bs@.take(i as int).map_values(
                        |b: ContentBlock| wire_of(b),
                    ),
                decreases bs@.len() - i,
            {
                let ghost before = ws@;
                let w = wire_block(&bs[i]);
                ws.push(w);
                assert(ws@.map_values(|b: AnthropicBlock| wire_view(b)) =~= before.map_values(|b: AnthropicBlock| wire_view(b)).push(
                    wire_view(w),
                ));
                assert(bs@.take(i + 1).map_values(|b: ContentBlock| wire_of(b)) =~= bs@.take(i as int).map_values(
                    |b: ContentBlock| wire_of(b),
                ).push(wire_of(bs@[i as int])));
                i += 1;
            }
            assert(bs@.take(i as int) =~= bs@);
            AnthropicContent::Blocks(ws)
        },
    };
    AnthropicMessage { role, content }
}

/// The chat messages that go on the wire: all but system messages.
pub open spec fn non_system(ms: Seq<ChatMessage>) -> Seq<ChatMessage>
    decreases ms.len(),
{
    if ms.len() == 0 {
        Seq::empty()
    } else if ms.last().role == ChatRole::System {
        non_system(ms.drop_last())
    } else {
        non_system(ms.drop_last()).push(ms.last())
    }
}

/// Whether `r` is the wire request for `req` from a provider defaulting to `model`.
pub open spec fn anthropic_built(r: AnthropicRequest, req: LlmRequest, model: Seq<char>) -> bool {
    &&& r.model@ == (if req.model@.len() == 0 {
        model
    } else {
        req.model@
    })
    &&& r.max_tokens == match req.max_tokens {
        Some(m) => m,
        None => 4096u32,
    }
    &&& r.system == req.system
    &&& r.temperature_milli == req.temperature_milli
    &&& r.messages@.len() == non_system(req.messages@).len()
    &&& forall|i: int| 0 <= i < r.messages@.len() ==> wire_message(#[trigger] r.messages@[i], non_system(req.messages@)[i])
    &&& if req.tools@.len() == 0 {
        r.tools is None
    } else {
        r.tools matches Some(ts) && ts@.len() == req.tools@.len() && forall|i: int| 0 <= i < ts@.len() ==> {
            &&& (#[trigger] ts@[i]).name == req.tools@[i].name
            &&& ts@[i].description == req.tools@[i].description
            &&& ts@[i].input_schema == req.tools@[i].input_schema
        }
    }
}

impl AnthropicProvider {
    /// A provider with the given key, model and API address (the public API when
    /// none is given). The model has no built-in default here: the caller names it.
    pub fn new(api_key: String, model: String, base_url: Option<String>) -> (r: Self)
        ensures
            r.api_key == api_key,
            r.model == model,
            r.base_url@ == match base_url {
                Some(b) => b@,
                None => anthropic_default_base_url(),
            },
    {
        AnthropicProvider {
            api_key,
            model,
            base_url: match base_url {
                Some(b) => b,
                None => owned("https://api.anthropic.com"),
            },
        }
    }

    /// The messages endpoint: the API address without trailing slashes, followed
    /// by `/v1/messages`.
    pub fn endpoint(&self) -> (r: String)
        ensures
            r@ == strip_trailing_slashes(self.base_url@) + "/v1/messages"@,
    {
        let mut s = without_trailing_slashes(self.base_url.as_str());
        push_str(&mut s, "/v1/messages");
        s
    }

    /// The wire request: the request's model (this provider's when empty), at most
    /// 4096 output tokens unless set, the system prompt, the non-system messages
    /// converted, and the tools.
    pub fn build_request(&self, request: &LlmRequest) -> (r: AnthropicRequest)
        ensures
            anthropic_built(r, *request, self.model@),
    {
        let model = if request.model.as_str().is_empty() {
            self.model.clone()
        } else {
            request.model.clone()
        };
        let mut messages: Vec<AnthropicMessage> = Vec::new();
        let mut i: usize = 0;
        while i < request.messages.len()
            invariant
                i <= request.messages@.len(),
                messages@.len() == non_system(request.messages@.take(i as int)).len(),
                forall|k: int| 0 <= k < messages@.len() ==> wire_message(#[trigger] messages@[k], non_system(request.messages@.take(i as int))[k]),
            decreases request.messages@.len() - i,
        {
            proof {
                assert(request.messages@.take(i + 1).drop_last() =~= request.messages@.take(i as int));
            }
            let m = &request.messages[i];
            if m.role != ChatRole::System {
                let w = to_anthropic_message(m);
                messages.push(w);
            }
            i += 1;
        }
        assert(request.messages@.take(i as int) =~= request.messages@);
        let mut tools: Vec<AnthropicTool> = Vec::new();
        let mut j: usize = 0;
        while j < request.tools.len()
            invariant
                j <= request.tools@.len(),
                tools@.len() == j,
                forall|k: int| 0 <= k < j ==> {
                    &&& (#[trigger] tools@[k]).name == request.tools@[k].name
                    &&& tools@[k].description == request.tools@[k].description
                    &&& tools@[k].input_schema == request.tools@[k].input_schema
                },
            decreases request.tools@.len() - j,
        {
            let t = &request.tools[j];
            tools.push(AnthropicTool { name: t.name.clone(), description: t.description.clone(), input_schema: t.input_schema.clone() });
            j += 1;
        }
        AnthropicRequest {
            model,
            max_tokens: match request.max_tokens {
                Some(m) => m,
                None => 4096,
            },
            system: match &request.system {
                Some(s) => Some(s.clone()),
                None => None,
            },
            messages,
            temperature_milli: request.temperature_milli,
            tools: if tools.len() == 0 {
                None
            } else {
                Some(tools)
            },
        }
    }
}

/// The provider-neutral block of a wire block.
pub open spec fn neutral_view(b: ContentBlock) -> (nat, Seq<char>, Seq<char>, Seq<char>) {
    match b {
        ContentBlock::Text { text } => (0, text@, Seq::empty(), Seq::empty()),
        ContentBlock::ToolUse { id, name, input } => (1, id@, name@, input@),
        ContentBlock::ToolResult { tool_use_id, content } => (2, tool_use_id@, content@, Seq::empty()),
        ContentBlock::Image { url } => (3, url@, Seq::empty(), Seq::empty()),
    }
}

/// Convert a response: its blocks, model, usage and stop reason.
pub fn from_anthropic_response(response: AnthropicResponse) -> (r: LlmResponse)
    ensures
        r.content@.map_values(|b: ContentBlock| neutral_view(b)) == response.content@.map_values(
            |b: AnthropicBlock| wire_view(b),
        ),
        r.model == response.model,
        r.usage == match response.usage {
            Some(u) => Some(Usage { input_tokens: u.input_tokens, output_tokens: u.output_tokens }),
            None => None,
        },
        r.stop_reason == response.stop_reason,
{
    let mut content: Vec<ContentBlock> = Vec::new();
    let mut i: usize = 0;
    while i < response.content.len()
        invariant
            i <= response.content@.len(),
            content@.map_values(|b: ContentBlock| neutral_view(b)) == response.content@.take(i as int).map_values(
                |b: AnthropicBlock| wire_view(b),
            ),
        decreases response.content@.len() - i,
    {
        let ghost before = content@;
        let b = match &response.content[i] {
            AnthropicBlock::Text { text } => ContentBlock::Text { text: text.clone() },
            AnthropicBlock::ToolUse { id, name, input } => ContentBlock::ToolUse { id: id.clone(), name: name.clone(), input: input.clone() },
            AnthropicBlock::ToolResult { tool_use_id, content } => ContentBlock::ToolResult {
                tool_use_id: tool_use_id.clone(),
                content: content.clone(),
            },
        };
        content.push(b);
        assert(content@.map_values(|b: ContentBlock| neutral_view(b)) =~= before.map_values(|b: ContentBlock| neutral_view(b)).push(
            neutral_view(b),
        ));
        assert(response.content@.take(i + 1).map_values(|b: AnthropicBlock| wire_view(b)) =~= response.content@.take(
            i as int,
        ).map_values(|b: AnthropicBlock| wire_view(b)).push(wire_view(response.content@[i as int])));
        i += 1;
    }
    assert(response.content@.take(i as int) =~= response.content@);
    LlmResponse {
        content,
        model: response.model,
        usage: match response.usage {
            Some(u) => Some(Usage { input_tokens: u.input_tokens, output_tokens: u.output_tokens }),
            None => None,
        },
        stop_reason: response.stop_reason,
    }
}

} // verus!
