//! The Codex (ChatGPT Responses API) provider: its settings and OAuth state, the
//! request it sends, the answer it rebuilds from streamed events, and the reading
//! of its server-sent events and identity tokens.
use vstd::prelude::*;
use crate::anthropic::{neutral_view, strip_trailing_slashes, without_trailing_slashes};
use crate::error::Error;
use crate::json::{
    compact_json, json_array_items, json_compact, json_error, json_items, json_member, json_member_text,
    json_object_str_field, json_object_u64_field, json_parse_error, json_str_field, json_u64_field, utf8_decode,
    utf8_error,
};
use crate::lines::{lines, lines_of};
use crate::openai::{event_view, event_views, has_tool_result, opt, EventView};
use crate::providers::{ChatMessage, ChatRole, ContentBlock, LlmRequest, LlmResponse, MessagePart, StreamEvent, Usage};
use crate::text::{
    chars_of, find_after, find_seq, is_blank, is_blank_str, is_prefix, join, join_strings, owned, push_str,
    starts_with_str, string_of, suffix_from, trim, trim_start, trimmed, trimmed_start, views,
};

verus! {

broadcast use vstd::string::group_string_axioms;

/// Tokens with which the Codex provider authenticates.
#[derive(Debug, Clone, PartialEq, Eq)]
pub struct CodexAuthConfig {
    pub access_token: Option<String>,
    pub refresh_token: Option<String>,
    pub account_id: Option<String>,
    pub id_token: Option<String>,
}

/// What an OpenAI identity token says of its user.
#[derive(Debug, Clone, PartialEq, Eq)]
pub struct CodexOAuthClaims {
    pub email: Option<String>,
    pub account_id: Option<String>,
    pub user_id: Option<String>,
    pub plan_type: Option<String>,
}

impl Default for CodexOAuthClaims {
    /// No claims.
    fn default() -> (r: Self)
        ensures
            r.email is None,
            r.account_id is None,
            r.user_id is None,
            r.plan_type is None,
    {
        CodexOAuthClaims { email: None, account_id: None, user_id: None, plan_type: None }
    }
}

/// The tokens the provider holds now.
#[derive(Debug, Clone, PartialEq, Eq)]
pub struct CodexAuthState {
    pub access_token: Option<String>,
    pub refresh_token: Option<String>,
    pub account_id: Option<String>,
    pub id_token: Option<String>,
}

/// A Codex provider's settings and tokens.
#[derive(Debug, Clone, PartialEq, Eq)]
pub struct CodexProvider {
    pub model: String,
    pub base_url: String,
    pub oauth_issuer: String,
    pub auth: CodexAuthState,
}

/// The model used when none is configured.
pub open spec fn codex_default_model() -> Seq<char> {
    "gpt-5.3-codex"@
}

/// The API address used when none is configured.
pub open spec fn codex_default_base_url() -> Seq<char> {
    "https://chatgpt.com/backend-api/codex"@
}

/// A configured token, kept only when it is not blank.
pub open spec fn kept_token(t: Option<String>) -> Option<String> {
    match t {
        Some(s) => if is_blank(s@) {
            None
        } else {
            Some(s)
        },
        None => None,
    }
}

fn keep_token(t: Option<String>) -> (r: Option<String>)
    ensures
        r == kept_token(t),
{
    match t {
        Some(s) => if is_blank_str(s.as_str()) {
            None
        } else {
            Some(s)
        },
        None => None,
    }
}

impl CodexProvider {
    /// A provider with the given tokens (blank ones dropped), model and API address
    /// (defaults when absent), authenticating with OpenAI's issuer.
    pub fn new(auth: CodexAuthConfig, model: Option<String>, base_url: Option<String>) -> (r: Self)
        ensures
            r.model@ == match model {
                Some(m) => m@,
                None => codex_default_model(),
            },
            r.base_url@ == match base_url {
                Some(b) => b@,
                None => codex_default_base_url(),
            },
            r.oauth_issuer@ == "https://auth.openai.com"@,
            r.auth.access_token == kept_token(auth.access_token),
            r.auth.refresh_token == kept_token(auth.refresh_token),
            r.auth.account_id == kept_token(auth.account_id),
            r.auth.id_token == kept_token(auth.id_token),
    {
        CodexProvider {
            model: match model {
                Some(m) => m,
                None => owned("gpt-5.3-codex"),
            },
            base_url: match base_url {
                Some(b) => b,
                None => owned("https://chatgpt.com/backend-api/codex"),
            },
            oauth_issuer: owned("https://auth.openai.com"),
            auth: CodexAuthState {
                access_token: keep_token(auth.access_token),
                refresh_token: keep_token(auth.refresh_token),
                account_id: keep_token(auth.account_id),
                id_token: keep_token(auth.id_token),
            },
        }
    }

    /// The Responses endpoint: the API address without trailing slashes, then `/responses`.
    pub fn responses_endpoint(&self) -> (r: String)
        ensures
            r@ == strip_trailing_slashes(self.base_url@) + "/responses"@,
    {
        let mut s = without_trailing_slashes(self.base_url.as_str());
        push_str(&mut s, "/responses");
        s
    }

    /// The models endpoint: the API address without trailing slashes, then `/models`.
    pub fn models_endpoint(&self) -> (r: String)
        ensures
            r@ == strip_trailing_slashes(self.base_url@) + "/models"@,
    {
        let mut s = without_trailing_slashes(self.base_url.as_str());
        push_str(&mut s, "/models");
        s
    }

    /// The token endpoint of the OAuth issuer.
    pub fn token_endpoint(&self) -> (r: String)
        ensures
            r@ == strip_trailing_slashes(self.oauth_issuer@) + "/oauth/token"@,
    {
        let mut s = without_trailing_slashes(self.oauth_issuer.as_str());
        push_str(&mut s, "/oauth/token");
        s
    }

    /// Whether a request must first refresh the access token (there is none).
    pub fn needs_refresh(&self) -> (r: bool)
        ensures
            r == (self.auth.access_token is None),
    {
        self.auth.access_token.is_none()
    }

    /// The refresh token to send, or the error when there is none.
    pub fn refresh_token(&self) -> (r: Result<String, crate::error::Error>)
        ensures
            match self.auth.refresh_token {
                Some(t) => r == Ok::<String, crate::error::Error>(t),
                None => r matches Err(crate::error::Error::Agent(m)) && m@ == "codex oauth refresh token missing"@,
            },
    {
        match &self.auth.refresh_token {
            Some(t) => Ok(t.clone()),
            None => Err(crate::error::Error::Agent(owned("codex oauth refresh token missing"))),
        }
    }

    /// The access token to send, or the error when there is none.
    pub fn access_token(&self) -> (r: Result<String, crate::error::Error>)
        ensures
            match self.auth.access_token {
                Some(t) => r == Ok::<String, crate::error::Error>(t),
                None => r matches Err(crate::error::Error::Agent(m)) && m@ == "codex access token missing"@,
            },
    {
        match &self.auth.access_token {
            Some(t) => Ok(t.clone()),
            None => Err(crate::error::Error::Agent(owned("codex access token missing"))),
        }
    }

    /// The error for a refresh the issuer refused: its HTTP status, as text, and
    /// the body of its answer.
    pub fn refresh_failed(&self, status: &str, body: &str) -> (r: crate::error::Error)
        ensures
            r matches crate::error::Error::Agent(m) && m@ == "codex token refresh failed ("@ + status@ + "): "@ + body@,
    {
        let mut m = owned("codex token refresh failed (");
        push_str(&mut m, status);
        push_str(&mut m, "): ");
        push_str(&mut m, body);
        crate::error::Error::Agent(m)
    }

    /// Take the issuer's answer to a refresh: a new access token replaces the old
    /// one (which stays otherwise), a new refresh or identity token replaces its
    /// predecessor, and an unknown account id is taken from the identity token's
    /// claims (`claims`, read from the new identity token when there was one).
    pub fn apply_refresh(
        &mut self,
        access_token: Option<String>,
        refresh_token: Option<String>,
        id_token: Option<String>,
        claims: Option<CodexOAuthClaims>,
    )
        ensures
            final(self).model == old(self).model,
            final(self).base_url == old(self).base_url,
            final(self).oauth_issuer == old(self).oauth_issuer,
            final(self).auth.access_token == (match access_token {
                Some(t) => Some(t),
                None => old(self).auth.access_token,
            }),
            final(self).auth.refresh_token == (match refresh_token {
                Some(t) => Some(t),
                None => old(self).auth.refresh_token,
            }),
            final(self).auth.id_token == (match id_token {
                Some(t) => Some(t),
                None => old(self).auth.id_token,
            }),
            final(self).auth.account_id == (match old(self).auth.account_id {
                Some(a) => Some(a),
                None => match claims {
                    Some(c) => c.account_id,
                    None => None,
                },
            }),
    {
        if let Some(t) = access_token {
            self.auth.access_token = Some(t);
        }
        if let Some(t) = refresh_token {
            self.auth.refresh_token = Some(t);
        }
        if let Some(t) = id_token {
            self.auth.id_token = Some(t);
        }
        if self.auth.account_id.is_none() {
            self.auth.account_id = match claims {
                Some(c) => c.account_id,
                None => None,
            };
        }
    }
}

/// Whether a request is sent again after `status`: only an unauthorized first
/// attempt is retried (after a token refresh).
pub fn retry_after(status: u16, attempt: u8) -> (r: bool)
    ensures
        r == (status == 401 && attempt == 0),
{
    status == 401 && attempt == 0
}

// ── the request ──────────────────────────────────────────────────────────────

/// A piece of message content on the wire.
#[derive(Debug, Clone, PartialEq, Eq)]
pub enum CodexPart {
    InputText(String),
    OutputText(String),
    InputImage(String),
}

/// An item of a request's input.
#[derive(Debug, Clone, PartialEq, Eq)]
pub enum CodexItem {
    Message { role: String, content: Vec<CodexPart> },
    FunctionCall { call_id: String, name: String, arguments: String },
    FunctionCallOutput { call_id: String, output: String },
}

/// A function offered to the model; `parameters` is JSON schema text.
#[derive(Debug, Clone, PartialEq, Eq)]
pub struct CodexTool {
    pub name: String,
    pub description: String,
    pub parameters: String,
}

/// A Responses API request. Reasoning settings are always sent as `null`;
/// `included` lists the extra outputs asked for.
#[derive(Debug, Clone, PartialEq, Eq)]
pub struct CodexRequest {
    pub model: String,
    pub instructions: String,
    pub input: Vec<CodexItem>,
    pub tools: Vec<CodexTool>,
    pub tool_choice: String,
    pub parallel_tool_calls: bool,
    pub store: bool,
    pub stream: bool,
    pub included: Vec<String>,
}

/// A part by its views: kind (input text, output text, input image) and text.
pub type PartView = (nat, Seq<char>);

/// An item by its views: kind (message, call, call output), three texts (role;
/// call id, name, arguments; call id, output) and a message's parts.
pub type ItemView = (nat, Seq<char>, Seq<char>, Seq<char>, Seq<PartView>);

pub open spec fn part_view(p: CodexPart) -> PartView {
    match p {
        CodexPart::InputText(t) => (0, t@),
        CodexPart::OutputText(t) => (1, t@),
        CodexPart::InputImage(u) => (2, u@),
    }
}

pub open spec fn part_views(ps: Seq<CodexPart>) -> Seq<PartView> {
    ps.map_values(|p: CodexPart| part_view(p))
}

pub open spec fn item_view(i: CodexItem) -> ItemView {
    match i {
        CodexItem::Message { role, content } => (0, role@, Seq::empty(), Seq::empty(), part_views(content@)),
        CodexItem::FunctionCall { call_id, name, arguments } => (1, call_id@, name@, arguments@, Seq::empty()),
        CodexItem::FunctionCallOutput { call_id, output } => (2, call_id@, output@, Seq::empty(), Seq::empty()),
    }
}

pub open spec fn item_views(is: Seq<CodexItem>) -> Seq<ItemView> {
    is.map_values(|i: CodexItem| item_view(i))
}

/// A message item with `role` and `parts`.
pub open spec fn message_view(role: Seq<char>, parts: Seq<PartView>) -> ItemView {
    (0, role, Seq::empty(), Seq::empty(), parts)
}

/// The content a user's blocks send: text as input text, images by URL.
pub open spec fn user_parts(bs: Seq<ContentBlock>) -> Seq<PartView>
    decreases bs.len(),
{
    if bs.len() == 0 {
        Seq::empty()
    } else {
        let rest = user_parts(bs.drop_last());
        match bs.last() {
            ContentBlock::Text { text } => rest.push((0nat, text@)),
            ContentBlock::Image { url } => rest.push((2nat, url@)),
            _ => rest,
        }
    }
}

/// The call outputs a user's blocks send, one per tool result.
pub open spec fn call_outputs(bs: Seq<ContentBlock>) -> Seq<ItemView>
    decreases bs.len(),
{
    if bs.len() == 0 {
        Seq::empty()
    } else {
        let rest = call_outputs(bs.drop_last());
        match bs.last() {
            ContentBlock::ToolResult { tool_use_id, content } => rest.push(
                (2nat, tool_use_id@, content@, Seq::<char>::empty(), Seq::<PartView>::empty()),
            ),
            _ => rest,
        }
    }
}

/// The content an assistant's blocks send: text as output text.
pub open spec fn assistant_parts(bs: Seq<ContentBlock>) -> Seq<PartView>
    decreases bs.len(),
{
    if bs.len() == 0 {
        Seq::empty()
    } else {
        let rest = assistant_parts(bs.drop_last());
        match bs.last() {
            ContentBlock::Text { text } => rest.push((1nat, text@)),
            _ => rest,
        }
    }
}

/// The function calls an assistant's blocks send, one per tool use.
pub open spec fn function_calls(bs: Seq<ContentBlock>) -> Seq<ItemView>
    decreases bs.len(),
{
    if bs.len() == 0 {
        Seq::empty()
    } else {
        let rest = function_calls(bs.drop_last());
        match bs.last() {
            ContentBlock::ToolUse { id, name, input } => rest.push(
                (1nat, id@, name@, input@, Seq::<PartView>::empty()),
            ),
            _ => rest,
        }
    }
}

/// The input items for one chat message: system messages send nothing; a user's
/// tool results become call outputs, followed by a message with the rest (an empty
/// one when there were neither); an assistant's tool uses become function calls,
/// followed by its text; a tool's text is sent as input text.
pub open spec fn items_of(m: ChatMessage) -> Seq<ItemView> {
    match (m.role, m.content) {
        (ChatRole::System, _) => Seq::empty(),
        (ChatRole::User, MessagePart::Text(t)) => seq![message_view("user"@, seq![(0nat, t@)])],
        (ChatRole::User, MessagePart::Parts(bs)) => call_outputs(bs@) + if user_parts(bs@).len() > 0 {
            seq![message_view("user"@, user_parts(bs@))]
        } else if !has_tool_result(bs@) {
            seq![message_view("user"@, Seq::empty())]
        } else {
            Seq::empty()
        },
        (ChatRole::Assistant, MessagePart::Text(t)) => seq![message_view("assistant"@, seq![(1nat, t@)])],
        (ChatRole::Assistant, MessagePart::Parts(bs)) => function_calls(bs@) + if assistant_parts(bs@).len() > 0 {
            seq![message_view("assistant"@, assistant_parts(bs@))]
        } else {
            Seq::empty()
        },
        (ChatRole::Tool, MessagePart::Text(t)) => seq![message_view("tool"@, seq![(0nat, t@)])],
        (ChatRole::Tool, MessagePart::Parts(_)) => Seq::empty(),
    }
}

/// The input items for a conversation, in order.
pub open spec fn all_items(ms: Seq<ChatMessage>) -> Seq<ItemView>
    decreases ms.len(),
{
    if ms.len() == 0 {
        Seq::empty()
    } else {
        all_items(ms.drop_last()) + items_of(ms.last())
    }
}

fn user_items(input: &mut Vec<CodexItem>, bs: &Vec<ContentBlock>)
    ensures
        item_views(final(input)@) == item_views(old(input)@) + call_outputs(bs@) + if user_parts(bs@).len() > 0 {
            seq![message_view("user"@, user_parts(bs@))]
        } else if !has_tool_result(bs@) {
            seq![message_view("user"@, Seq::empty())]
        } else {
            Seq::empty()
        },
{
    let ghost start = item_views(input@);
    let mut content: Vec<CodexPart> = Vec::new();
    let mut has_results = false;
    let mut i: usize = 0;
    while i < bs.len()
        invariant
            i <= bs@.len(),
            item_views(input@) == start + call_outputs(bs@.take(i as int)),
            part_views(content@) == user_parts(bs@.take(i as int)),
            has_results == has_tool_result(bs@.take(i as int)),
        decreases bs@.len() - i,
    {
        let ghost before = input@;
        let ghost cbefore = content@;
        proof {
            assert(bs@.take(i + 1).drop_last() =~= bs@.take(i as int));
            assert(bs@.take(i + 1).last() == bs@[i as int]);
        }
        match &bs[i] {
            ContentBlock::Text { text } => {
                content.push(CodexPart::InputText(text.clone()));
                assert(part_views(content@) =~= part_views(cbefore).push(part_view(CodexPart::InputText(*text))));
            },
            ContentBlock::Image { url } => {
                content.push(CodexPart::InputImage(url.clone()));
                assert(part_views(content@) =~= part_views(cbefore).push(part_view(CodexPart::InputImage(*url))));
            },
            ContentBlock::ToolResult { tool_use_id, content: out } => {
                has_results = true;
                let item = CodexItem::FunctionCallOutput { call_id: tool_use_id.clone(), output: out.clone() };
                input.push(item);
                assert(item_views(input@) =~= item_views(before).push(item_view(item)));
                assert((bs@.take(i + 1))[i as int] is ToolResult);
            },
            _ => {},
        }
        proof {
            let t = bs@.take(i + 1);
            if has_tool_result(t.drop_last()) {
                let j = choose|j: int| 0 <= j < t.drop_last().len() && (#[trigger] t.drop_last()[j]) is ToolResult;
                assert(t[j] is ToolResult);
            }
            if has_tool_result(t) {
                let j = choose|j: int| 0 <= j < t.len() && (#[trigger] t[j]) is ToolResult;
                if j < i {
                    assert(t.drop_last()[j] is ToolResult);
                }
            }
        }
        i += 1;
    }
    assert(bs@.take(i as int) =~= bs@);
    let ghost mid = input@;
    if content.len() > 0 {
        let item = CodexItem::Message { role: owned("user"), content };
        input.push(item);
        assert(item_views(input@) =~= item_views(mid).push(item_view(item)));
    } else if !has_results {
        let item = CodexItem::Message { role: owned("user"), content: Vec::new() };
        input.push(item);
        assert(item_views(input@) =~= item_views(mid).push(item_view(item)));
        assert(part_views(Seq::<CodexPart>::empty()) =~= Seq::<PartView>::empty());
    } else {
        assert(item_views(input@) =~= item_views(mid) + Seq::<ItemView>::empty());
    }
}

fn assistant_items(input: &mut Vec<CodexItem>, bs: &Vec<ContentBlock>)
    ensures
        item_views(final(input)@) == item_views(old(input)@) + function_calls(bs@) + if assistant_parts(bs@).len() > 0 {
            seq![message_view("assistant"@, assistant_parts(bs@))]
        } else {
            Seq::empty()
        },
{
    let ghost start = item_views(input@);
    let mut content: Vec<CodexPart> = Vec::new();
    let mut i: usize = 0;
    while i < bs.len()
        invariant
            i <= bs@.len(),
            item_views(input@) == start + function_calls(bs@.take(i as int)),
            part_views(content@) == assistant_parts(bs@.take(i as int)),
        decreases bs@.len() - i,
    {
        let ghost before = input@;
        let ghost cbefore = content@;
        proof {
            assert(bs@.take(i + 1).drop_last() =~= bs@.take(i as int));
            assert(bs@.take(i + 1).last() == bs@[i as int]);
        }
        match &bs[i] {
            ContentBlock::Text { text } => {
                content.push(CodexPart::OutputText(text.clone()));
                assert(part_views(content@) =~= part_views(cbefore).push(part_view(CodexPart::OutputText(*text))));
            },
            ContentBlock::ToolUse { id, name, input: args } => {
                let item = CodexItem::FunctionCall { call_id: id.clone(), name: name.clone(), arguments: args.clone() };
                input.push(item);
                assert(item_views(input@) =~= item_views(before).push(item_view(item)));
            },
            _ => {},
        }
        i += 1;
    }
    assert(bs@.take(i as int) =~= bs@);
    let ghost mid = input@;
    if content.len() > 0 {
        let item = CodexItem::Message { role: owned("assistant"), content };
        input.push(item);
        assert(item_views(input@) =~= item_views(mid).push(item_view(item)));
    } else {
        assert(item_views(input@) =~= item_views(mid) + Seq::<ItemView>::empty());
    }
}

fn text_item(role: &str, part: CodexPart) -> (r: CodexItem)
    ensures
        item_view(r) == message_view(role@, seq![part_view(part)]),
{
    let mut content: Vec<CodexPart> = Vec::new();
    content.push(part);
    let r = CodexItem::Message { role: owned(role), content };
    assert(part_views(content@) =~= seq![part_view(part)]);
    r
}

/// Append the input items for one chat message.
pub fn push_message_items(input: &mut Vec<CodexItem>, msg: &ChatMessage)
    ensures
        item_views(final(input)@) == item_views(old(input)@) + items_of(*msg),
{
    let ghost start = input@;
    proof {
        reveal_strlit("user");
        reveal_strlit("assistant");
        reveal_strlit("tool");
    }
    match (&msg.role, &msg.content) {
        (ChatRole::System, _) => {
            assert(item_views(input@) =~= item_views(start) + Seq::<ItemView>::empty());
        },
        (ChatRole::User, MessagePart::Text(t)) => {
            let item = text_item("user", CodexPart::InputText(t.clone()));
            input.push(item);
            assert(item_views(input@) =~= item_views(start).push(item_view(item)));
        },
        (ChatRole::User, MessagePart::Parts(bs)) => {
            user_items(input, bs);
        },
        (ChatRole::Assistant, MessagePart::Text(t)) => {
            let item = text_item("assistant", CodexPart::OutputText(t.clone()));
            input.push(item);
            assert(item_views(input@) =~= item_views(start).push(item_view(item)));
        },
        (ChatRole::Assistant, MessagePart::Parts(bs)) => {
            assistant_items(input, bs);
        },
        (ChatRole::Tool, MessagePart::Text(t)) => {
            let item = text_item("tool", CodexPart::InputText(t.clone()));
            input.push(item);
            assert(item_views(input@) =~= item_views(start).push(item_view(item)));
        },
        (ChatRole::Tool, MessagePart::Parts(_)) => {
            assert(item_views(input@) =~= item_views(start) + Seq::<ItemView>::empty());
        },
    }
}

/// The model a request asks for: its own (trimmed), or the provider's when blank.
pub open spec fn chosen_model(request_model: Seq<char>, provider_model: Seq<char>) -> Seq<char> {
    if trim(request_model).len() == 0 {
        provider_model
    } else {
        trim(request_model)
    }
}

impl CodexProvider {
    fn model_for(&self, request: &LlmRequest) -> (r: String)
        ensures
            r@ == chosen_model(request.model@, self.model@),
    {
        let t = trimmed(request.model.as_str());
        if t.as_str().is_empty() {
            self.model.clone()
        } else {
            t
        }
    }

    /// The Responses request for a conversation: the model, the system prompt as
    /// instructions (empty when there is none), the messages as input items, the
    /// tools as functions, automatic parallel tool choice, nothing stored.
    pub fn build_request(&self, request: &LlmRequest, stream: bool) -> (r: CodexRequest)
        ensures
            r.model@ == chosen_model(request.model@, self.model@),
            r.instructions@ == match request.system {
                Some(s) => s@,
                None => Seq::<char>::empty(),
            },
            item_views(r.input@) == all_items(request.messages@),
            r.tools@.len() == request.tools@.len(),
            forall|i: int| 0 <= i < r.tools@.len() ==> {
                &&& (#[trigger] r.tools@[i]).name == request.tools@[i].name
                &&& r.tools@[i].description == request.tools@[i].description
                &&& r.tools@[i].parameters == request.tools@[i].input_schema
            },
            r.tool_choice@ == "auto"@,
            r.parallel_tool_calls,
            !r.store,
            r.stream == stream,
            r.included@.len() == 0,
    {
        let model = self.model_for(request);
        let mut input: Vec<CodexItem> = Vec::new();
        let mut i: usize = 0;
        while i < request.messages.len()
            invariant
                i <= request.messages@.len(),
                item_views(input@) == all_items(request.messages@.take(i as int)),
            decreases request.messages@.len() - i,
        {
            proof {
                assert(request.messages@.take(i + 1).drop_last() =~= request.messages@.take(i as int));
            }
            push_message_items(&mut input, &request.messages[i]);
            i += 1;
        }
        assert(request.messages@.take(i as int) =~= request.messages@);
        let mut tools: Vec<CodexTool> = Vec::new();
        let mut j: usize = 0;
        while j < request.tools.len()
            invariant
                j <= request.tools@.len(),
                tools@.len() == j,
                forall|k: int| 0 <= k < j ==> {
                    &&& (#[trigger] tools@[k]).name == request.tools@[k].name
                    &&& tools@[k].description == request.tools@[k].description
                    &&& tools@[k].parameters == request.tools@[k].input_schema
                },
            decreases request.tools@.len() - j,
        {
            let t = &request.tools[j];
            tools.push(CodexTool { name: t.name.clone(), description: t.description.clone(), parameters: t.input_schema.clone() });
            j += 1;
        }
        CodexRequest {
            model,
            instructions: match &request.system {
                Some(s) => s.clone(),
                None => String::new(),
            },
            input,
            tools,
            tool_choice: owned("auto"),
            parallel_tool_calls: true,
            store: false,
            stream,
            included: Vec::new(),
        }
    }
}


// ── rebuilding an answer from streamed events ────────────────────────────────

/// A block by its neutral view: kind, and up to three texts.
pub type BlockView = (nat, Seq<char>, Seq<char>, Seq<char>);

/// A tool call being collected: its id, name and argument text.
pub type PendingCall = (Seq<char>, Seq<char>, Seq<char>);

/// The state of rebuilding an answer: finished blocks, text not yet in a block,
/// usage, stop reason, and the tool call being collected.
pub type Rebuild = (Seq<BlockView>, Seq<char>, Option<Usage>, Option<Seq<char>>, Option<PendingCall>);

/// The input of a collected call: its arguments written back compactly, or `{}`
/// when they are not JSON.
pub open spec fn object_input(args: Seq<char>) -> Seq<char> {
    match json_compact(args) {
        Some(s) => s,
        None => "{}"@,
    }
}

/// The state after one event: text is collected; a call start closes the pending
/// text into a block and opens a call; argument text joins the open call; a block
/// end closes the open call into a tool-use block; a message delta sets the stop
/// reason and usage it carries.
pub open spec fn rebuild_step(st: Rebuild, e: StreamEvent) -> Rebuild {
    match e {
        StreamEvent::TextDelta(d) => (st.0, st.1 + d@, st.2, st.3, st.4),
        StreamEvent::ToolUseStart { index, id, name } => (
            if st.1.len() > 0 {
                st.0.push((0nat, st.1, Seq::<char>::empty(), Seq::<char>::empty()))
            } else {
                st.0
            },
            Seq::empty(),
            st.2,
            st.3,
            Some((id@, name@, Seq::<char>::empty())),
        ),
        StreamEvent::InputJsonDelta(d) => match st.4 {
            Some(p) => (st.0, st.1, st.2, st.3, Some((p.0, p.1, p.2 + d@))),
            None => st,
        },
        StreamEvent::ContentBlockStop { index } => match st.4 {
            Some(p) => (st.0.push((1nat, p.0, p.1, object_input(p.2))), st.1, st.2, st.3, None),
            None => st,
        },
        StreamEvent::MessageDelta { stop_reason, usage } => (
            st.0,
            st.1,
            if usage is Some {
                usage
            } else {
                st.2
            },
            if stop_reason is Some {
                opt(stop_reason)
            } else {
                st.3
            },
            st.4,
        ),
        StreamEvent::MessageStop => st,
    }
}

/// The state after `es`.
pub open spec fn rebuild(es: Seq<StreamEvent>) -> Rebuild
    decreases es.len(),
{
    if es.len() == 0 {
        (Seq::empty(), Seq::empty(), None, None, None)
    } else {
        rebuild_step(rebuild(es.drop_last()), es.last())
    }
}

/// The blocks of the answer: the finished ones, then the remaining text, then the
/// call still open.
pub open spec fn rebuilt_blocks(st: Rebuild) -> Seq<BlockView> {
    let with_text = if st.1.len() > 0 {
        st.0.push((0nat, st.1, Seq::<char>::empty(), Seq::<char>::empty()))
    } else {
        st.0
    };
    match st.4 {
        Some(p) => with_text.push((1nat, p.0, p.1, object_input(p.2))),
        None => with_text,
    }
}

pub open spec fn block_views(bs: Seq<ContentBlock>) -> Seq<BlockView> {
    bs.map_values(|b: ContentBlock| neutral_view(b))
}

fn object_input_of(args: &str) -> (r: String)
    ensures
        r@ == object_input(args@),
{
    proof {
        reveal_strlit("{}");
    }
    match compact_json(args) {
        Some(s) => s,
        None => owned("{}"),
    }
}

impl CodexProvider {
    /// The answer rebuilt from a stream's events, for `request`.
    pub fn response_from_stream_events(&self, request: &LlmRequest, events: &Vec<StreamEvent>) -> (r: LlmResponse)
        ensures
            r.model@ == chosen_model(request.model@, self.model@),
            block_views(r.content@) == rebuilt_blocks(rebuild(events@)),
            r.usage == rebuild(events@).2,
            opt(r.stop_reason) == rebuild(events@).3,
    {
        let model = self.model_for(request);
        let mut content: Vec<ContentBlock> = Vec::new();
        let mut text = String::new();
        let mut usage: Option<Usage> = None;
        let mut stop_reason: Option<String> = None;
        let mut pending: Option<(String, String, String)> = None;
        let mut i: usize = 0;
        while i < events.len()
            invariant
                i <= events@.len(),
                (block_views(content@), text@, usage, opt(stop_reason), match pending {
                    Some(p) => Some((p.0@, p.1@, p.2@)),
                    None => None::<PendingCall>,
                }) == rebuild(events@.take(i as int)),
            decreases events@.len() - i,
        {
            proof {
                assert(events@.take(i + 1).drop_last() =~= events@.take(i as int));
            }
            let ghost before = content@;
            match &events[i] {
                StreamEvent::TextDelta(d) => {
                    push_str(&mut text, d.as_str());
                },
                StreamEvent::ToolUseStart { index: _, id, name } => {
                    if !text.as_str().is_empty() {
                        let b = ContentBlock::Text { text: text.clone() };
                        content.push(b);
                        assert(block_views(content@) =~= block_views(before).push(neutral_view(b)));
                        text = String::new();
                    }
                    pending = Some((id.clone(), name.clone(), String::new()));
                },
                StreamEvent::InputJsonDelta(d) => {
                    if let Some((pid, pname, pargs)) = pending {
                        let mut args = pargs;
                        push_str(&mut args, d.as_str());
                        pending = Some((pid, pname, args));
                    }
                },
                StreamEvent::ContentBlockStop { index: _ } => {
                    if let Some((pid, pname, pargs)) = pending {
                        let b = ContentBlock::ToolUse { id: pid, name: pname, input: object_input_of(pargs.as_str()) };
                        content.push(b);
                        assert(block_views(content@) =~= block_views(before).push(neutral_view(b)));
                        pending = None;
                    }
                },
                StreamEvent::MessageDelta { stop_reason: s, usage: u } => {
                    if s.is_some() {
                        stop_reason = s.clone();
                    }
                    if u.is_some() {
                        usage = *u;
                    }
                },
                StreamEvent::MessageStop => {},
            }
            i += 1;
        }
        assert(events@.take(i as int) =~= events@);
        let ghost mid = content@;
        if !text.as_str().is_empty() {
            let b = ContentBlock::Text { text };
            content.push(b);
            assert(block_views(content@) =~= block_views(mid).push(neutral_view(b)));
        }
        let ghost mid2 = content@;
        if let Some((pid, pname, pargs)) = pending {
            let b = ContentBlock::ToolUse { id: pid, name: pname, input: object_input_of(pargs.as_str()) };
            content.push(b);
            assert(block_views(content@) =~= block_views(mid2).push(neutral_view(b)));
        }
        LlmResponse { content, model, usage, stop_reason }
    }
}

// ── server-sent events ───────────────────────────────────────────────────────

/// `s` split at each `sep` (non-empty), left to right (what `str::split` gives).
pub open spec fn split_on(s: Seq<char>, sep: Seq<char>) -> Seq<Seq<char>>
    decreases s.len(),
{
    match find_seq(s, sep) {
        Some(i) => if 0 <= i && sep.len() > 0 && i + sep.len() <= s.len() {
            seq![s.take(i)] + split_on(s.skip(i + sep.len()), sep)
        } else {
            seq![s]
        },
        None => seq![s],
    }
}

/// The pieces of `text` between occurrences of the non-empty `sep` (`str::split`).
pub fn split_text(text: &str, sep: &str) -> (r: Vec<String>)
    requires
        sep@.len() > 0,
    ensures
        views(r@) == split_on(text@, sep@),
{
    let v = chars_of(text);
    let p = chars_of(sep);
    let mut r: Vec<String> = Vec::new();
    let mut from: usize = 0;
    let n = v.len();
    assert(v@.subrange(0, v@.len() as int) =~= v@);
    loop
        invariant
            n == v@.len(),
            v@ == text@,
            p@ == sep@,
            p@.len() > 0,
            from <= v@.len(),
            split_on(text@, p@) == views(r@) + split_on(v@.subrange(from as int, v@.len() as int), p@),
        decreases v@.len() - from,
    {
        let ghost rest = v@.subrange(from as int, v@.len() as int);
        match find_after(&v, &p, from) {
            Some(k) => {
                let piece = string_of(&v, from, from + k);
                proof {
                    assert(rest.take(k as int) =~= piece@);
                    assert(rest.skip(k + p@.len()) =~= v@.subrange(from + k + p@.len(), v@.len() as int));
                    assert(split_on(rest, p@) == seq![rest.take(k as int)] + split_on(rest.skip(k + p@.len()), p@));
                }
                let ghost before = views(r@);
                r.push(piece);
                assert(views(r@) =~= before.push(piece@));
                assert(before + split_on(rest, p@) =~= views(r@) + split_on(rest.skip(k + p@.len()), p@));
                from = from + k + p.len();
            },
            None => {
                let piece = string_of(&v, from, v.len());
                let ghost before = views(r@);
                r.push(piece);
                assert(views(r@) =~= before.push(piece@));
                assert(split_on(rest, p@) == seq![rest]);
                assert(before + seq![rest] =~= views(r@));
                return r;
            },
        }
    }
}

/// Take the first complete event (the text before the first blank line) out of a
/// stream buffer; `None` while no blank line has arrived.
pub fn take_event_block(buffer: &mut String) -> (r: Option<String>)
    ensures
        match find_seq(old(buffer)@, "\n\n"@) {
            Some(i) => r matches Some(b) && b@ == old(buffer)@.take(i) && final(buffer)@ == old(buffer)@.skip(i + 2),
            None => r is None && final(buffer)@ == old(buffer)@,
        },
{
    proof {
        reveal_strlit("\n\n");
    }
    let v = chars_of(buffer.as_str());
    let p = chars_of("\n\n");
    let n = v.len();
    assert(n == v@.len());
    assert(v@.subrange(0, v@.len() as int) =~= v@);
    match find_after(&v, &p, 0) {
        Some(k) => {
            let block = string_of(&v, 0, k);
            let rest = string_of(&v, k + 2, n);
            assert(v@.subrange(0, k as int) =~= v@.take(k as int));
            assert(v@.subrange(k + 2, n as int) =~= v@.skip(k + 2));
            *buffer = rest;
            Some(block)
        },
        None => None,
    }
}

/// The event name and data lines of an event's lines: the last `event:` line names
/// it (trimmed), and each `data:` line gives its rest without leading whitespace.
pub open spec fn sse_fields(ls: Seq<Seq<char>>) -> (Option<Seq<char>>, Seq<Seq<char>>)
    decreases ls.len(),
{
    if ls.len() == 0 {
        (None, Seq::empty())
    } else {
        let prev = sse_fields(ls.drop_last());
        let l = ls.last();
        if is_prefix("event:"@, l) {
            (Some(trim(l.skip(6))), prev.1)
        } else if is_prefix("data:"@, l) {
            (prev.0, prev.1.push(trim_start(l.skip(5))))
        } else {
            prev
        }
    }
}

/// The string member `key` of the optional JSON text `v`.
pub open spec fn str_at(v: Option<Seq<char>>, key: Seq<char>) -> Option<Seq<char>> {
    match v {
        Some(t) => match json_str_field(t, key) {
            Some(Some(s)) => Some(s),
            _ => None,
        },
        None => None,
    }
}

/// Member `key` of the optional JSON text `v`, as text.
pub open spec fn member_at(v: Option<Seq<char>>, key: Seq<char>) -> Option<Seq<char>> {
    match v {
        Some(t) => match json_member(t, key) {
            Some(Some(m)) => Some(m),
            _ => None,
        },
        None => None,
    }
}

/// The unsigned integer member `key` of the optional JSON text `v`.
pub open spec fn u64_at(v: Option<Seq<char>>, key: Seq<char>) -> Option<u64> {
    match v {
        Some(t) => match json_u64_field(t, key) {
            Some(Some(n)) => Some(n),
            _ => None,
        },
        None => None,
    }
}

fn str_at_exec(v: &Option<String>, key: &str) -> (r: Option<String>)
    ensures
        opt(r) == str_at(opt(*v), key@),
{
    match v {
        Some(t) => match json_object_str_field(t.as_str(), key) {
            Some(Some(s)) => Some(s),
            _ => None,
        },
        None => None,
    }
}

fn member_at_exec(v: &Option<String>, key: &str) -> (r: Option<String>)
    ensures
        opt(r) == member_at(opt(*v), key@),
{
    match v {
        Some(t) => match json_member_text(t.as_str(), key) {
            Some(Some(m)) => Some(m),
            _ => None,
        },
        None => None,
    }
}

fn u64_at_exec(v: &Option<String>, key: &str) -> (r: Option<u64>)
    ensures
        r == u64_at(opt(*v), key@),
{
    match v {
        Some(t) => match json_object_u64_field(t.as_str(), key) {
            Some(Some(n)) => Some(n),
            _ => None,
        },
        None => None,
    }
}

/// The usage of a finished response: its `usage` member's token counts (each
/// truncated to 32 bits), when both are present.
pub open spec fn usage_of(response: Option<Seq<char>>) -> Option<Usage> {
    match member_at(response, "usage"@) {
        None => None,
        Some(u) => match (u64_at(Some(u), "input_tokens"@), u64_at(Some(u), "output_tokens"@)) {
            (Some(a), Some(b)) => Some(Usage { input_tokens: a as u32, output_tokens: b as u32 }),
            _ => None,
        },
    }
}

fn usage_of_exec(response: &Option<String>) -> (r: Option<Usage>)
    ensures
        r == usage_of(opt(*response)),
{
    let u = member_at_exec(response, "usage");
    if u.is_none() {
        return None;
    }
    let a = u64_at_exec(&u, "input_tokens");
    let b = u64_at_exec(&u, "output_tokens");
    match (a, b) {
        (Some(a), Some(b)) => Some(Usage { input_tokens: a as u32, output_tokens: b as u32 }),
        _ => None,
    }
}

/// The text of a message's `output_text` parts, concatenated.
pub open spec fn output_texts(parts: Seq<Seq<char>>) -> Seq<char>
    decreases parts.len(),
{
    if parts.len() == 0 {
        Seq::empty()
    } else {
        output_texts(parts.drop_last()) + if str_at(Some(parts.last()), "type"@) == Some("output_text"@) {
            match str_at(Some(parts.last()), "text"@) {
                Some(t) => t,
                None => Seq::empty(),
            }
        } else {
            Seq::empty()
        }
    }
}

/// A text, or the empty text.
pub open spec fn or_blank(o: Option<Seq<char>>) -> Seq<char> {
    match o {
        Some(t) => t,
        None => Seq::empty(),
    }
}

pub open spec fn text_event(t: Seq<char>) -> EventView {
    (0nat, t, Seq::empty(), 0int, None)
}

/// The events of a finished function call: start (with its id and name), its
/// arguments and stop, when both the id and the name are known.
pub open spec fn call_events(id: Seq<char>, name: Seq<char>, arguments: Option<Seq<char>>) -> Seq<EventView> {
    let args = match arguments {
        Some(a) => a,
        None => "{}"@,
    };
    if id.len() > 0 && name.len() > 0 {
        seq![
            (1nat, id, name, 0int, None::<Usage>),
            (2nat, args, Seq::<char>::empty(), 0int, None::<Usage>),
            (3nat, Seq::<char>::empty(), Seq::<char>::empty(), 0int, None::<Usage>),
        ]
    } else {
        Seq::empty()
    }
}

/// The event of a finished message's text: one text delta, when it is not empty.
pub open spec fn message_events(text: Seq<char>) -> Seq<EventView> {
    if text.len() > 0 {
        seq![text_event(text)]
    } else {
        Seq::empty()
    }
}

/// The events of a completed response: the end of the turn with its usage, then stop.
pub open spec fn completed_events(usage: Option<Usage>) -> Seq<EventView> {
    seq![
        (4nat, "end_turn"@, Seq::<char>::empty(), 1int, usage),
        (5nat, Seq::<char>::empty(), Seq::<char>::empty(), 0int, None::<Usage>),
    ]
}

/// The message of a failed response: its error message, or a generic one.
pub open spec fn failed_message(message: Option<Seq<char>>) -> Seq<char> {
    match message {
        Some(m) => m,
        None => "codex response failed"@,
    }
}

/// The events of a finished output item: a function call with an id and a name
/// (its arguments, `{}` when absent), or, before any streamed text, a message's
/// output text.
pub open spec fn item_events(item: Seq<char>, saw: bool) -> Seq<EventView> {
    let t = str_at(Some(item), "type"@);
    if t == Some("function_call"@) {
        call_events(
            or_blank(str_at(Some(item), "call_id"@)),
            or_blank(str_at(Some(item), "name"@)),
            str_at(Some(item), "arguments"@),
        )
    } else if t == Some("message"@) && !saw {
        match member_at(Some(item), "content"@) {
            Some(c) => match json_items(c) {
                Some(parts) => message_events(output_texts(parts)),
                None => Seq::empty(),
            },
            None => Seq::empty(),
        }
    } else {
        Seq::empty()
    }
}

/// The events of a finished function call, from its read fields.
pub fn function_call_events(call_id: Option<String>, name: Option<String>, arguments: Option<String>) -> (r: Vec<
    StreamEvent,
>)
    ensures
        event_views(r@) == call_events(or_blank(opt(call_id)), or_blank(opt(name)), opt(arguments)),
{
    proof {
        reveal_strlit("{}");
    }
    let id = match call_id {
        Some(x) => x,
        None => String::new(),
    };
    let tool_name = match name {
        Some(x) => x,
        None => String::new(),
    };
    let args = match arguments {
        Some(x) => x,
        None => owned("{}"),
    };
    let mut out: Vec<StreamEvent> = Vec::new();
    if !id.as_str().is_empty() && !tool_name.as_str().is_empty() {
        out.push(StreamEvent::ToolUseStart { index: 0, id, name: tool_name });
        out.push(StreamEvent::InputJsonDelta(args));
        out.push(StreamEvent::ContentBlockStop { index: 0 });
    }
    assert(event_views(out@) =~= call_events(or_blank(opt(call_id)), or_blank(opt(name)), opt(arguments)));
    out
}

/// The event of a finished message, from its concatenated output text.
pub fn message_text_events(text: String) -> (r: Vec<StreamEvent>)
    ensures
        event_views(r@) == message_events(text@),
{
    let mut out: Vec<StreamEvent> = Vec::new();
    if !text.as_str().is_empty() {
        out.push(StreamEvent::TextDelta(text));
    }
    assert(event_views(out@) =~= message_events(text@));
    out
}

/// The events of a completed response, from its read usage.
pub fn response_completed_events(usage: Option<Usage>) -> (r: Vec<StreamEvent>)
    ensures
        event_views(r@) == completed_events(usage),
{
    proof {
        reveal_strlit("end_turn");
    }
    let mut out: Vec<StreamEvent> = Vec::new();
    out.push(StreamEvent::MessageDelta { stop_reason: Some(owned("end_turn")), usage });
    out.push(StreamEvent::MessageStop);
    assert(event_views(out@) =~= completed_events(usage));
    out
}

/// The error of a failed response, from its read error message.
pub fn response_failed_error(message: Option<String>) -> (r: Error)
    ensures
        r matches Error::Agent(m) && m@ == failed_message(opt(message)),
{
    proof {
        reveal_strlit("codex response failed");
    }
    match message {
        Some(m) => Error::Agent(m),
        None => Error::Agent(owned("codex response failed")),
    }
}

/// What an event of kind `kind` with JSON payload `payload` gives: its events and
/// whether text has been streamed, or the error it reports.
pub open spec fn kind_outcome(kind: Seq<char>, payload: Option<Seq<char>>, saw: bool) -> Result<(Seq<EventView>, bool), Seq<char>> {
    if kind == "response.output_text.delta"@ {
        match str_at(payload, "delta"@) {
            Some(d) => Ok((seq![text_event(d)], true)),
            None => Ok((Seq::empty(), saw)),
        }
    } else if kind == "response.output_item.done"@ {
        match member_at(payload, "item"@) {
            Some(item) => Ok((item_events(item, saw), saw)),
            None => Ok((Seq::empty(), saw)),
        }
    } else if kind == "response.failed"@ {
        Err(failed_message(str_at(member_at(member_at(payload, "response"@), "error"@), "message"@)))
    } else if kind == "response.completed"@ {
        Ok((completed_events(usage_of(member_at(payload, "response"@))), saw))
    } else {
        Ok((Seq::empty(), saw))
    }
}

/// What one event chunk gives: nothing without an event name; the parse error of
/// a data payload that is not JSON; otherwise what its kind gives.
pub open spec fn chunk_outcome(chunk: Seq<char>, saw: bool) -> Result<(Seq<EventView>, bool), Seq<char>> {
    let f = sse_fields(lines(chunk));
    match f.0 {
        None => Ok((Seq::empty(), saw)),
        Some(kind) => if f.1.len() == 0 {
            kind_outcome(kind, None, saw)
        } else {
            match json_error(join(f.1, "\n"@)) {
                Some(e) => Err("failed to parse codex SSE payload: "@ + e),
                None => kind_outcome(kind, Some(join(f.1, "\n"@)), saw),
            }
        },
    }
}

fn sse_fields_of(chunk: &str) -> (r: (Option<String>, Vec<String>))
    ensures
        (opt(r.0), views(r.1@)) == sse_fields(lines(chunk@)),
{
    proof {
        reveal_strlit("event:");
        reveal_strlit("data:");
    }
    let ls = lines_of(chunk);
    let ghost all = lines(chunk@);
    let mut name: Option<String> = None;
    let mut data: Vec<String> = Vec::new();
    let mut i: usize = 0;
    while i < ls.len()
        invariant
            i <= ls@.len(),
            views(ls@) == all,
            (opt(name), views(data@)) == sse_fields(all.take(i as int)),
        decreases ls@.len() - i,
    {
        proof {
            reveal_strlit("event:");
            reveal_strlit("data:");
            assert(all.take(i + 1).drop_last() =~= all.take(i as int));
            assert(all.take(i + 1).last() == ls@[i as int]@);
        }
        let l = ls[i].as_str();
        if starts_with_str(l, "event:") {
            let rest = suffix_from(l, 6);
            name = Some(trimmed(rest.as_str()));
        } else if starts_with_str(l, "data:") {
            let rest = suffix_from(l, 5);
            let ghost before = views(data@);
            let d = trimmed_start(rest.as_str());
            data.push(d);
            assert(views(data@) =~= before.push(d@));
        }
        i += 1;
    }
    assert(all.take(i as int) =~= all);
    (name, data)
}

fn output_texts_of(parts: &Vec<String>) -> (r: String)
    ensures
        r@ == output_texts(views(parts@)),
{
    proof {
        reveal_strlit("output_text");
    }
    let mut r = String::new();
    let mut i: usize = 0;
    while i < parts.len()
        invariant
            i <= parts@.len(),
            r@ == output_texts(views(parts@).take(i as int)),
        decreases parts@.len() - i,
    {
        proof {
            assert(views(parts@).take(i + 1).drop_last() =~= views(parts@).take(i as int));
        }
        let p = Some(parts[i].clone());
        let t = str_at_exec(&p, "type");
        let is_output = match &t {
            Some(k) => crate::text::str_eq(k.as_str(), "output_text"),
            None => false,
        };
        if is_output {
            if let Some(x) = str_at_exec(&p, "text") {
                push_str(&mut r, x.as_str());
            }
        }
        i += 1;
    }
    assert(views(parts@).take(i as int) =~= views(parts@));
    r
}

fn item_events_of(item: String, saw: bool) -> (r: Vec<StreamEvent>)
    ensures
        event_views(r@) == item_events(item@, saw),
{
    proof {
        reveal_strlit("function_call");
        reveal_strlit("message");
    }
    let it = Some(item);
    let t = str_at_exec(&it, "type");
    let is_call = match &t {
        Some(k) => crate::text::str_eq(k.as_str(), "function_call"),
        None => false,
    };
    let is_message = match &t {
        Some(k) => crate::text::str_eq(k.as_str(), "message"),
        None => false,
    };
    if is_call {
        function_call_events(str_at_exec(&it, "call_id"), str_at_exec(&it, "name"), str_at_exec(&it, "arguments"))
    } else if is_message && !saw {
        let out: Vec<StreamEvent> = Vec::new();
        match member_at_exec(&it, "content") {
            Some(c) => match json_array_items(c.as_str()) {
                Some(parts) => message_text_events(output_texts_of(&parts)),
                None => {
                    assert(event_views(out@) =~= item_events(it->0@, saw));
                    out
                },
            },
            None => {
                assert(event_views(out@) =~= item_events(it->0@, saw));
                out
            },
        }
    } else {
        let out: Vec<StreamEvent> = Vec::new();
        assert(event_views(out@) =~= item_events(it->0@, saw));
        out
    }
}

/// The events of one event chunk, updating whether text has been streamed; an
/// error for a failed response or a payload that is not JSON.
pub fn parse_sse_chunk(chunk: &str, saw_text_delta: &mut bool) -> (r: Result<Vec<StreamEvent>, Error>)
    ensures
        match chunk_outcome(chunk@, *old(saw_text_delta)) {
            Ok((evs, saw)) => r matches Ok(v) && event_views(v@) == evs && *final(saw_text_delta) == saw,
            Err(m) => r matches Err(Error::Agent(e)) && e@ == m,
        },
{
    proof {
        reveal_strlit("response.output_text.delta");
        reveal_strlit("response.output_item.done");
        reveal_strlit("response.failed");
        reveal_strlit("response.completed");
        reveal_strlit("end_turn");
        reveal_strlit("codex response failed");
    }
    let (name, data) = sse_fields_of(chunk);
    let kind = match name {
        Some(k) => k,
        None => {
            assert(event_views(Seq::<StreamEvent>::empty()) =~= Seq::<EventView>::empty());
            return Ok(Vec::new());
        },
    };
    let payload: Option<String> = if data.len() == 0 {
        None
    } else {
        let joined = join_strings(&data, "\n");
        match json_parse_error(joined.as_str()) {
            Some(e) => {
                let mut m = owned("failed to parse codex SSE payload: ");
                push_str(&mut m, e.as_str());
                return Err(Error::Agent(m));
            },
            None => Some(joined),
        }
    };
    let k = kind.as_str();
    let mut out: Vec<StreamEvent> = Vec::new();
    if crate::text::str_eq(k, "response.output_text.delta") {
        if let Some(d) = str_at_exec(&payload, "delta") {
            *saw_text_delta = true;
            out.push(StreamEvent::TextDelta(d));
        }
        assert(event_views(out@) =~= match kind_outcome(kind@, opt(payload), *old(saw_text_delta)) {
            Ok((evs, _)) => evs,
            Err(_) => Seq::empty(),
        });
        Ok(out)
    } else if crate::text::str_eq(k, "response.output_item.done") {
        match member_at_exec(&payload, "item") {
            Some(item) => {
                let evs = item_events_of(item, *saw_text_delta);
                Ok(evs)
            },
            None => {
                assert(event_views(out@) =~= Seq::<EventView>::empty());
                Ok(out)
            },
        }
    } else if crate::text::str_eq(k, "response.failed") {
        let details = str_at_exec(&member_at_exec(&member_at_exec(&payload, "response"), "error"), "message");
        Err(response_failed_error(details))
    } else if crate::text::str_eq(k, "response.completed") {
        let usage = usage_of_exec(&member_at_exec(&payload, "response"));
        Ok(response_completed_events(usage))
    } else {
        assert(event_views(out@) =~= Seq::<EventView>::empty());
        Ok(out)
    }
}

/// What a body's chunks give, left to right: blank chunks are skipped; the first
/// error ends the reading.
pub open spec fn chunks_outcome(cs: Seq<Seq<char>>, saw: bool) -> Result<Seq<EventView>, Seq<char>>
    decreases cs.len(),
{
    if cs.len() == 0 {
        Ok(Seq::empty())
    } else if trim(cs[0]).len() == 0 {
        chunks_outcome(cs.drop_first(), saw)
    } else {
        match chunk_outcome(trim(cs[0]), saw) {
            Err(e) => Err(e),
            Ok((evs, saw2)) => match chunks_outcome(cs.drop_first(), saw2) {
                Ok(rest) => Ok(evs + rest),
                Err(e) => Err(e),
            },
        }
    }
}

/// Events already read put in front of an outcome.
pub open spec fn prepend(done: Seq<EventView>, r: Result<Seq<EventView>, Seq<char>>) -> Result<Seq<EventView>, Seq<char>> {
    match r {
        Ok(rest) => Ok(done + rest),
        Err(e) => Err(e),
    }
}

/// The stop event.
pub open spec fn stop_event() -> EventView {
    (5nat, Seq::empty(), Seq::empty(), 0int, None)
}

/// `evs`, ended by a stop event when they have none.
pub open spec fn with_stop(evs: Seq<EventView>) -> Seq<EventView> {
    if exists|i: int| 0 <= i < evs.len() && (#[trigger] evs[i]).0 == 5 {
        evs
    } else {
        evs.push(stop_event())
    }
}

/// What a whole response body gives: its events, ended by a stop event, or the
/// error that ended the reading.
pub open spec fn sse_outcome(bytes: Seq<u8>) -> Result<Seq<EventView>, Seq<char>> {
    if !vstd::utf8::valid_utf8(bytes) {
        Err("invalid UTF-8 in codex SSE body: "@ + utf8_error(bytes))
    } else {
        match chunks_outcome(split_on(vstd::utf8::decode_utf8(bytes), "\n\n"@), false) {
            Ok(evs) => Ok(with_stop(evs)),
            Err(e) => Err(e),
        }
    }
}

/// The events of a whole streamed response body.
pub fn parse_sse_events(bytes: &[u8]) -> (r: Result<Vec<StreamEvent>, Error>)
    ensures
        match sse_outcome(bytes@) {
            Ok(evs) => r matches Ok(v) && event_views(v@) == evs,
            Err(m) => r matches Err(Error::Agent(e)) && e@ == m,
        },
{
    let text = match utf8_decode(bytes) {
        Ok(t) => t,
        Err(e) => {
            let mut m = owned("invalid UTF-8 in codex SSE body: ");
            push_str(&mut m, e.as_str());
            return Err(Error::Agent(m));
        },
    };
    proof {
        reveal_strlit("\n\n");
    }
    let chunks = split_text(text.as_str(), "\n\n");
    let ghost cs = views(chunks@);
    let mut out: Vec<StreamEvent> = Vec::new();
    let mut saw = false;
    let mut i: usize = 0;
    assert(cs.skip(0) =~= cs);
    assert(event_views(out@) =~= Seq::<EventView>::empty());
    assert(prepend(Seq::empty(), chunks_outcome(cs, false)) =~~= chunks_outcome(cs, false)) by {
        match chunks_outcome(cs, false) {
            Ok(x) => {
                assert(Seq::<EventView>::empty() + x =~= x);
            },
            Err(_) => {},
        }
    }
    while i < chunks.len()
        invariant
            i <= chunks@.len(),
            cs == views(chunks@),
            vstd::utf8::valid_utf8(bytes@),
            cs == split_on(vstd::utf8::decode_utf8(bytes@), "\n\n"@),
            chunks_outcome(cs, false) == prepend(event_views(out@), chunks_outcome(cs.skip(i as int), saw)),
        decreases chunks@.len() - i,
    {
        let ghost rest = cs.skip(i as int);
        proof {
            assert(rest[0] == chunks@[i as int]@);
            assert(rest.drop_first() =~= cs.skip(i + 1));
        }
        let c = trimmed(chunks[i].as_str());
        if !c.as_str().is_empty() {
            let ghost s0 = saw;
            match parse_sse_chunk(c.as_str(), &mut saw) {
                Ok(evs) => {
                    let ghost before = out@;
                    let mut evs = evs;
                    let ghost added = evs@;
                    out.append(&mut evs);
                    proof {
                        assert(event_views(out@) =~= event_views(before) + event_views(added));
                        match chunks_outcome(cs.skip(i + 1), saw) {
                            Ok(x) => {
                                assert(event_views(before) + (event_views(added) + x) =~= event_views(out@) + x);
                            },
                            Err(_) => {},
                        }
                    }
                },
                Err(e) => {
                    proof {
                        assert(c@ == trim(rest[0]));
                        assert(trim(rest[0]).len() > 0);
                        assert(chunk_outcome(trim(rest[0]), s0) is Err);
                        assert(chunks_outcome(rest, s0) == Err::<Seq<EventView>, Seq<char>>(chunk_outcome(trim(rest[0]), s0)->Err_0));
                    }
                    return Err(e);
                },
            }
        }
        i += 1;
    }
    proof {
        assert(cs.skip(i as int) =~= Seq::<Seq<char>>::empty());
        assert(event_views(out@) + Seq::<EventView>::empty() =~= event_views(out@));
    }
    let mut has_stop = false;
    let mut k: usize = 0;
    while k < out.len()
        invariant
            k <= out@.len(),
            has_stop == exists|j: int| 0 <= j < k && (#[trigger] event_views(out@)[j]).0 == 5,
        decreases out@.len() - k,
    {
        if let StreamEvent::MessageStop = &out[k] {
            has_stop = true;
            assert(event_views(out@)[k as int].0 == 5);
        }
        proof {
            if !has_stop {
                assert forall|j: int| 0 <= j < k + 1 implies (#[trigger] event_views(out@)[j]).0 != 5 by {
                    if j == k {
                    }
                }
            }
        }
        k += 1;
    }
    let ghost evs = event_views(out@);
    if !has_stop {
        out.push(StreamEvent::MessageStop);
        assert(event_views(out@) =~= evs.push(stop_event()));
    }
    Ok(out)
}

// ── identity tokens and models ───────────────────────────────────────────────

/// The claims of a token payload (JSON text): the e-mail (from the payload, else
/// from its profile), and the account id, user id (`chatgpt_user_id` when present,
/// else `user_id`) and plan type from its auth section.
pub open spec fn claims_of(p: Seq<char>) -> (Option<Seq<char>>, Option<Seq<char>>, Option<Seq<char>>, Option<Seq<char>>) {
    let auth = member_at(Some(p), "https://api.openai.com/auth"@);
    let profile = member_at(Some(p), "https://api.openai.com/profile"@);
    (
        match str_at(Some(p), "email"@) {
            Some(e) => Some(e),
            None => str_at(profile, "email"@),
        },
        str_at(auth, "chatgpt_account_id"@),
        if member_at(auth, "chatgpt_user_id"@) is Some {
            str_at(auth, "chatgpt_user_id"@)
        } else {
            str_at(auth, "user_id"@)
        },
        str_at(auth, "chatgpt_plan_type"@),
    )
}

/// What reading an identity token gives: its three dot-separated parts must be
/// non-empty; the middle one is decoded (URL-safe base64 without padding) and read
/// as JSON.
pub open spec fn token_outcome(token: Seq<char>) -> Result<(Option<Seq<char>>, Option<Seq<char>>, Option<Seq<char>>, Option<Seq<char>>), Seq<char>> {
    let parts = split_on(token, "."@);
    if parts.len() < 3 || parts[0].len() == 0 || parts[1].len() == 0 || parts[2].len() == 0 {
        Err("invalid id token format"@)
    } else {
        match crate::crypto::base64url(parts[1]) {
            Err(e) => Err("failed to decode id token payload: "@ + e),
            Ok(b) => match crate::json::json_slice(b) {
                Err(e) => Err("failed to parse id token payload: "@ + e),
                Ok(p) => Ok(claims_of(p)),
            },
        }
    }
}

/// Read the claims of an OpenAI identity token (its signature is not checked).
pub fn parse_codex_id_token_claims(token: &str) -> (r: Result<CodexOAuthClaims, String>)
    ensures
        match token_outcome(token@) {
            Ok(c) => r matches Ok(x) && (opt(x.email), opt(x.account_id), opt(x.user_id), opt(x.plan_type)) == c,
            Err(m) => r matches Err(e) && e@ == m,
        },
{
    proof {
        reveal_strlit(".");
    }
    let parts = split_text(token, ".");
    if parts.len() < 3 || parts[0].as_str().is_empty() || parts[1].as_str().is_empty() || parts[2].as_str().is_empty() {
        return Err(owned("invalid id token format"));
    }
    let bytes = match crate::crypto::base64url_decode(parts[1].as_str()) {
        Ok(b) => b,
        Err(e) => {
            let mut m = owned("failed to decode id token payload: ");
            push_str(&mut m, e.as_str());
            return Err(m);
        },
    };
    let p = match crate::json::json_text_from_slice(bytes.as_slice()) {
        Ok(t) => t,
        Err(e) => {
            let mut m = owned("failed to parse id token payload: ");
            push_str(&mut m, e.as_str());
            return Err(m);
        },
    };
    let payload = Some(p);
    let auth = member_at_exec(&payload, "https://api.openai.com/auth");
    let profile = member_at_exec(&payload, "https://api.openai.com/profile");
    let email = match str_at_exec(&payload, "email") {
        Some(e) => Some(e),
        None => str_at_exec(&profile, "email"),
    };
    let user_id = if member_at_exec(&auth, "chatgpt_user_id").is_some() {
        str_at_exec(&auth, "chatgpt_user_id")
    } else {
        str_at_exec(&auth, "user_id")
    };
    Ok(CodexOAuthClaims {
        email,
        account_id: str_at_exec(&auth, "chatgpt_account_id"),
        user_id,
        plan_type: str_at_exec(&auth, "chatgpt_plan_type"),
    })
}

/// The `slug` of each listed model that has one, in order.
pub open spec fn slugs(items: Seq<Seq<char>>) -> Seq<Seq<char>>
    decreases items.len(),
{
    if items.len() == 0 {
        Seq::empty()
    } else {
        match str_at(Some(items.last()), "slug"@) {
            Some(s) => slugs(items.drop_last()).push(s),
            None => slugs(items.drop_last()),
        }
    }
}

/// The models of a models response: the slugs in its `models` array (none when
/// there is no such array).
pub open spec fn listed_models(body: Seq<char>) -> Seq<Seq<char>> {
    match member_at(Some(body), "models"@) {
        Some(m) => match json_items(m) {
            Some(items) => slugs(items),
            None => Seq::empty(),
        },
        None => Seq::empty(),
    }
}

/// The model names in a models response body.
pub fn model_slugs(body: &str) -> (r: Vec<String>)
    ensures
        views(r@) == listed_models(body@),
{
    let b = Some(owned(body));
    let items = match member_at_exec(&b, "models") {
        Some(m) => match json_array_items(m.as_str()) {
            Some(items) => items,
            None => {
                assert(views(Seq::<String>::empty()) =~= Seq::<Seq<char>>::empty());
                return Vec::new();
            },
        },
        None => {
            assert(views(Seq::<String>::empty()) =~= Seq::<Seq<char>>::empty());
            return Vec::new();
        },
    };
    let mut r: Vec<String> = Vec::new();
    let mut i: usize = 0;
    while i < items.len()
        invariant
            i <= items@.len(),
            views(r@) == slugs(views(items@).take(i as int)),
        decreases items@.len() - i,
    {
        proof {
            assert(views(items@).take(i + 1).drop_last() =~= views(items@).take(i as int));
        }
        let item = Some(items[i].clone());
        let ghost before = views(r@);
        if let Some(sl) = str_at_exec(&item, "slug") {
            r.push(sl);
            assert(views(r@) =~= before.push(sl@));
        }
        i += 1;
    }
    assert(views(items@).take(i as int) =~= views(items@));
    r
}

/// A response body that is read without error always yields a stop event: the one
/// a completed response sends, or the one added when it did not arrive.
pub proof fn lemma_sse_outcome_has_stop(bytes: Seq<u8>)
    ensures
        sse_outcome(bytes) matches Ok(evs) ==> exists|i: int| 0 <= i < evs.len() && (#[trigger] evs[i]).0 == 5,
{
    if sse_outcome(bytes) is Ok {
        let inner = chunks_outcome(split_on(vstd::utf8::decode_utf8(bytes), "\n\n"@), false)->Ok_0;
        let evs = sse_outcome(bytes)->Ok_0;
        assert(evs == with_stop(inner));
        if !(exists|i: int| 0 <= i < inner.len() && (#[trigger] inner[i]).0 == 5) {
            assert(evs == inner.push(stop_event()));
            assert(evs[inner.len() as int].0 == 5);
        } else {
            let i = choose|i: int| 0 <= i < inner.len() && (#[trigger] inner[i]).0 == 5;
            assert(evs[i].0 == 5);
        }
    }
}

} // verus!
