//! The agent runtime: its settings, registered tools and providers, per-session
//! tool policies, usage and debug records, and the decisions of the tool loop.
//! Providers, tools, memory and document stores are driven by the caller; the
//! runtime decides what to send them and what to do with their answers.
use vstd::prelude::*;
use crate::error::Error;
use crate::keyed::{KeyedMap, lookup};
use crate::prompt::{opt_view, system_prompt_with, bootstrap_instruction, inject_rag_into_content,
    extract_text, text_pieces, system_prompt_text, path_join, config_dir_for, bootstrap_text};
use crate::providers::{ChatMessage, ChatRole, ContentBlock, LlmRequest, LlmResponse, MessagePart,
    ToolDefinition, StreamEvent, Usage, has_tool_use_spec, has_tool_use};
use crate::text::{join, views, owned, push_str, push_decimal, decimal, str_eq, join_strings};

verus! {

broadcast use vstd::string::group_string_axioms;

/// Maximum number of provider calls in one tool loop.
pub const MAX_TOOL_ITERATIONS: usize = 10;

/// Output token limit used when none is configured.
pub const DEFAULT_MAX_TOKENS: u32 = 4096;

/// Context window, in estimated tokens, used when none is configured.
pub const DEFAULT_MAX_CONTEXT_TOKENS: usize = 100000;

/// Number of memory entries recalled by default.
pub const DEFAULT_RECALL_LIMIT: usize = 10;

/// The base system prompt used when none is configured.
pub open spec fn default_base_prompt() -> Seq<char> {
    "You are a personal AI assistant powered by OpenCrust. You help the user by answering questions, searching their documents, and executing tasks using your available tools. Be concise and accurate. If you don't know something, say so. Do not make up information. Always respond in the same language the user writes in."@
}

/// An optional owned string by its view.
pub open spec fn opt_string_view(o: Option<String>) -> Option<Seq<char>> {
    match o {
        Some(s) => Some(s@),
        None => None,
    }
}

/// A tool as the runtime knows it: its name, description, optional system-prompt
/// hint and input schema (compact JSON text).
#[derive(Debug, Clone, PartialEq, Eq)]
pub struct ToolInfo {
    pub name: String,
    pub description: String,
    pub system_hint: Option<String>,
    pub input_schema: String,
}

/// The tool policy of one session: which tools it may call (`None`: all), how many
/// calls it made, and the cap on calls (`None`: no cap).
#[derive(Debug, Clone, PartialEq, Eq)]
pub struct SessionToolConfig {
    pub allowed_tools: Option<Vec<String>>,
    pub call_count: u32,
    pub budget: Option<u32>,
}

/// Token usage accumulated for a session, with the provider and model of its first
/// record.
#[derive(Debug, Clone, PartialEq, Eq)]
pub struct SessionUsage {
    pub input_tokens: u32,
    pub output_tokens: u32,
    pub provider_id: String,
    pub model: String,
}

/// The context handed to a tool when it runs.
#[derive(Debug, Clone, PartialEq, Eq)]
pub struct ToolContext {
    pub session_id: String,
    pub user_id: Option<String>,
    pub heartbeat_depth: u8,
    pub allowed_tools: Option<Vec<String>>,
}

/// The agent runtime's state.
pub struct AgentRuntime {
    /// Identifiers of the registered providers, in registration order.
    pub providers: Vec<String>,
    /// Identifier of the default provider.
    pub default_provider: Option<String>,
    pub tools: Vec<ToolInfo>,
    pub system_prompt: Option<String>,
    pub dna_content: Option<String>,
    pub max_tokens: Option<u32>,
    pub max_context_tokens: Option<usize>,
    pub recall_limit: usize,
    pub summarization_enabled: bool,
    /// Accumulated usage per session.
    pub usage: KeyedMap<SessionUsage>,
    /// Tool policy per session.
    pub tool_configs: KeyedMap<SessionToolConfig>,
    pub debug: bool,
    /// Recorded tool calls per session, while debugging.
    pub debug_log: KeyedMap<Vec<String>>,
}

/// Whether the call count of a policy stays within its budget.
pub open spec fn within_budget(c: SessionToolConfig) -> bool {
    c.budget matches Some(b) ==> c.call_count <= b
}

/// Whether the settings (everything but the per-session records) of two runtimes agree.
pub open spec fn same_settings(a: AgentRuntime, b: AgentRuntime) -> bool {
    &&& a.providers@ == b.providers@
    &&& a.default_provider == b.default_provider
    &&& a.tools@ == b.tools@
    &&& a.system_prompt == b.system_prompt
    &&& a.dna_content == b.dna_content
    &&& a.max_tokens == b.max_tokens
    &&& a.max_context_tokens == b.max_context_tokens
    &&& a.recall_limit == b.recall_limit
    &&& a.summarization_enabled == b.summarization_enabled
    &&& a.debug == b.debug
}

/// Whether two runtimes agree on everything but their tool policies.
pub open spec fn same_but_tool_configs(a: AgentRuntime, b: AgentRuntime) -> bool {
    &&& same_settings(a, b)
    &&& a.usage@ == b.usage@
    &&& a.debug_log@ == b.debug_log@
}

/// One line of the tool guidance: the tool's hint, or its description when it has none.
pub open spec fn tool_hint_line(t: ToolInfo) -> Seq<char> {
    "  - "@ + t.name@ + ": "@ + match t.system_hint {
        Some(h) => h@,
        None => t.description@,
    }
}

/// The base prompt: the configured (or default) prompt, then the tool guidance when
/// tools are registered.
pub open spec fn base_prompt_text(system_prompt: Option<Seq<char>>, tools: Seq<ToolInfo>) -> Seq<char> {
    let base = match system_prompt {
        Some(p) => p,
        None => default_base_prompt(),
    };
    if tools.len() == 0 {
        base
    } else {
        base + "\n\n"@ + "Available tools:\n"@ + join(tools.map_values(|t: ToolInfo| tool_hint_line(t)), "\n"@)
    }
}

/// The definition offered to the model for a tool.
pub open spec fn definition_of(t: ToolInfo) -> ToolDefinition {
    ToolDefinition { name: t.name, description: t.description, input_schema: t.input_schema }
}

/// The position of the first name equal to `name`, if any.
pub open spec fn first_index(names: Seq<Seq<char>>, name: Seq<char>) -> Option<int> {
    if names.contains(name) {
        Some(choose|i: int| 0 <= i < names.len() && names[i] == name && forall|j: int| 0 <= j < i ==> names[j] != name)
    } else {
        None
    }
}

/// The names of tools.
pub open spec fn tool_names(tools: Seq<ToolInfo>) -> Seq<Seq<char>> {
    tools.map_values(|t: ToolInfo| t.name@)
}

/// The first position of `k` among `names`.
pub fn position_of(names: &Vec<String>, k: &str) -> (r: Option<usize>)
    ensures
        match r {
            Some(i) => first_index(views(names@), k@) == Some(i as int),
            None => first_index(views(names@), k@) is None,
        },
{
    let mut i: usize = 0;
    while i < names.len()
        invariant
            i <= names@.len(),
            forall|j: int| 0 <= j < i ==> views(names@)[j] != k@,
        decreases names@.len() - i,
    {
        if str_eq(names[i].as_str(), k) {
            assert(views(names@)[i as int] == k@);
            assert(views(names@).contains(k@));
            let ghost c = choose|c: int| 0 <= c < views(names@).len() && views(names@)[c] == k@ && forall|j: int| 0 <= j < c ==> views(names@)[j] != k@;
            assert(c == i as int) by {
                if c < i {
                } else if c > i {
                }
            }
            return Some(i);
        }
        i += 1;
    }
    None
}

impl AgentRuntime {
    /// Well-formedness: every session's call count is within its budget.
    pub open spec fn wf(&self) -> bool {
        forall|k: Seq<char>| #[trigger] self.tool_configs@.contains_key(k) ==> within_budget(self.tool_configs@[k])
    }

    /// A runtime with no providers, tools or prompts, recalling 10 memories, with
    /// summarization on and debugging off.
    pub fn new() -> (r: Self)
        ensures
            r.wf(),
            r.providers@.len() == 0,
            r.default_provider is None,
            r.tools@.len() == 0,
            r.system_prompt is None,
            r.dna_content is None,
            r.max_tokens is None,
            r.max_context_tokens is None,
            r.recall_limit == DEFAULT_RECALL_LIMIT,
            r.summarization_enabled,
            r.usage@ == Map::<Seq<char>, SessionUsage>::empty(),
            r.tool_configs@ == Map::<Seq<char>, SessionToolConfig>::empty(),
            !r.debug,
            r.debug_log@ == Map::<Seq<char>, Vec<String>>::empty(),
    {
        AgentRuntime {
            providers: Vec::new(),
            default_provider: None,
            tools: Vec::new(),
            system_prompt: None,
            dna_content: None,
            max_tokens: None,
            max_context_tokens: None,
            recall_limit: DEFAULT_RECALL_LIMIT,
            summarization_enabled: true,
            usage: KeyedMap::new(),
            tool_configs: KeyedMap::new(),
            debug: false,
            debug_log: KeyedMap::new(),
        }
    }

    /// The configured base system prompt.
    pub fn system_prompt(&self) -> (r: Option<&str>)
        ensures
            opt_view(r) == opt_string_view(self.system_prompt),
    {
        match &self.system_prompt {
            Some(p) => Some(p.as_str()),
            None => None,
        }
    }

    /// Replace the base system prompt.
    pub fn set_system_prompt(&mut self, prompt: String)
        requires
            old(self).wf(),
        ensures
            final(self).wf(),
            final(self).system_prompt == Some(prompt),
            final(self).providers@ == old(self).providers@,
            final(self).tools@ == old(self).tools@,
            final(self).dna_content == old(self).dna_content,
    {
        self.system_prompt = Some(prompt);
    }

    /// Append text to the system prompt after a blank line, or make it the prompt
    /// when there is none.
    pub fn append_system_prompt(&mut self, text: &str)
        requires
            old(self).wf(),
        ensures
            final(self).wf(),
            opt_string_view(final(self).system_prompt) == Some(
                match old(self).system_prompt {
                    Some(p) => p@ + "\n\n"@ + text@,
                    None => text@,
                },
            ),
            final(self).tools@ == old(self).tools@,
            final(self).dna_content == old(self).dna_content,
    {
        match self.system_prompt.take() {
            Some(mut existing) => {
                push_str(&mut existing, "\n\n");
                push_str(&mut existing, text);
                self.system_prompt = Some(existing);
            },
            None => {
                self.system_prompt = Some(owned(text));
            },
        }
    }

    /// Replace the personality content.
    pub fn set_dna_content(&mut self, content: Option<String>)
        requires
            old(self).wf(),
        ensures
            final(self).wf(),
            final(self).dna_content == content,
            final(self).system_prompt == old(self).system_prompt,
            final(self).tools@ == old(self).tools@,
    {
        self.dna_content = content;
    }

    /// A copy of the personality content.
    pub fn dna_content(&self) -> (r: Option<String>)
        ensures
            r == self.dna_content,
    {
        match &self.dna_content {
            Some(d) => Some(d.clone()),
            None => None,
        }
    }

    /// Set the output token limit.
    pub fn set_max_tokens(&mut self, max_tokens: u32)
        requires
            old(self).wf(),
        ensures
            final(self).wf(),
            final(self).max_tokens == Some(max_tokens),
            final(self).max_context_tokens == old(self).max_context_tokens,
    {
        self.max_tokens = Some(max_tokens);
    }

    /// Set the context window, in estimated tokens.
    pub fn set_max_context_tokens(&mut self, max_context_tokens: usize)
        requires
            old(self).wf(),
        ensures
            final(self).wf(),
            final(self).max_context_tokens == Some(max_context_tokens),
            final(self).max_tokens == old(self).max_tokens,
    {
        self.max_context_tokens = Some(max_context_tokens);
    }

    /// Set how many memories are recalled per message.
    pub fn set_recall_limit(&mut self, limit: usize)
        requires
            old(self).wf(),
        ensures
            final(self).wf(),
            final(self).recall_limit == limit,
            final(self).summarization_enabled == old(self).summarization_enabled,
    {
        self.recall_limit = limit;
    }

    /// How many memories are recalled per message.
    pub fn recall_limit(&self) -> (r: usize)
        ensures
            r == self.recall_limit,
    {
        self.recall_limit
    }

    /// Turn conversation summarization on or off.
    pub fn set_summarization_enabled(&mut self, enabled: bool)
        requires
            old(self).wf(),
        ensures
            final(self).wf(),
            final(self).summarization_enabled == enabled,
            final(self).recall_limit == old(self).recall_limit,
    {
        self.summarization_enabled = enabled;
    }

    /// Whether conversation summarization is on.
    pub fn summarization_enabled(&self) -> (r: bool)
        ensures
            r == self.summarization_enabled,
    {
        self.summarization_enabled
    }

    /// Turn recording of tool calls on or off.
    pub fn set_debug(&mut self, debug: bool)
        requires
            old(self).wf(),
        ensures
            final(self).wf(),
            final(self).debug == debug,
            final(self).debug_log@ == old(self).debug_log@,
    {
        self.debug = debug;
    }

    /// Whether tool calls are recorded.
    pub fn debug(&self) -> (r: bool)
        ensures
            r == self.debug,
    {
        self.debug
    }

    /// The output token limit of a request: the configured one or 4096.
    pub fn request_max_tokens(&self) -> (r: u32)
        ensures
            r == match self.max_tokens {
                Some(m) => m,
                None => DEFAULT_MAX_TOKENS,
            },
    {
        match self.max_tokens {
            Some(m) => m,
            None => DEFAULT_MAX_TOKENS,
        }
    }

    /// The context window: the configured one or 100 000 tokens.
    pub fn context_window(&self) -> (r: usize)
        ensures
            r == match self.max_context_tokens {
                Some(m) => m,
                None => DEFAULT_MAX_CONTEXT_TOKENS,
            },
    {
        match self.max_context_tokens {
            Some(m) => m,
            None => DEFAULT_MAX_CONTEXT_TOKENS,
        }
    }

    /// Register a tool.
    pub fn register_tool(&mut self, tool: ToolInfo)
        requires
            old(self).wf(),
        ensures
            final(self).wf(),
            final(self).tools@ == old(self).tools@.push(tool),
            final(self).system_prompt == old(self).system_prompt,
            final(self).providers@ == old(self).providers@,
    {
        self.tools.push(tool);
    }

    /// The base prompt: the configured prompt (or the default one) followed by a
    /// line of guidance per registered tool.
    pub fn base_prompt_with_tools(&self) -> (r: Option<String>)
        ensures
            r matches Some(s) && s@ == base_prompt_text(opt_string_view(self.system_prompt), self.tools@),
    {
        let mut s = match &self.system_prompt {
            Some(p) => p.clone(),
            None => owned("You are a personal AI assistant powered by OpenCrust. You help the user by answering questions, searching their documents, and executing tasks using your available tools. Be concise and accurate. If you don't know something, say so. Do not make up information. Always respond in the same language the user writes in."),
        };
        if self.tools.len() == 0 {
            return Some(s);
        }
        let mut hints: Vec<String> = Vec::new();
        let mut i: usize = 0;
        while i < self.tools.len()
            invariant
                i <= self.tools@.len(),
                views(hints@) == self.tools@.take(i as int).map_values(|t: ToolInfo| tool_hint_line(t)),
            decreases self.tools@.len() - i,
        {
            let t = &self.tools[i];
            let mut line = owned("  - ");
            push_str(&mut line, t.name.as_str());
            push_str(&mut line, ": ");
            match &t.system_hint {
                Some(h) => push_str(&mut line, h.as_str()),
                None => push_str(&mut line, t.description.as_str()),
            }
            let ghost before = hints@;
            hints.push(line);
            proof {
                assert(views(hints@) =~= views(before).push(tool_hint_line(self.tools@[i as int])));
                assert(self.tools@.take(i + 1).map_values(|t: ToolInfo| tool_hint_line(t))
                    =~= self.tools@.take(i as int).map_values(|t: ToolInfo| tool_hint_line(t)).push(
                    tool_hint_line(self.tools@[i as int]),
                ));
            }
            i += 1;
        }
        assert(self.tools@.take(i as int) =~= self.tools@);
        push_str(&mut s, "\n\n");
        push_str(&mut s, "Available tools:\n");
        let joined = join_strings(&hints, "\n");
        push_str(&mut s, joined.as_str());
        Some(s)
    }

    /// The definitions of the registered tools, in registration order.
    pub fn tool_definitions(&self) -> (r: Vec<ToolDefinition>)
        ensures
            r@ == self.tools@.map_values(|t: ToolInfo| definition_of(t)),
    {
        let mut r: Vec<ToolDefinition> = Vec::new();
        let mut i: usize = 0;
        while i < self.tools.len()
            invariant
                i <= self.tools@.len(),
                r@ == self.tools@.take(i as int).map_values(|t: ToolInfo| definition_of(t)),
            decreases self.tools@.len() - i,
        {
            let t = &self.tools[i];
            r.push(ToolDefinition {
                name: t.name.clone(),
                description: t.description.clone(),
                input_schema: t.input_schema.clone(),
            });
            assert(self.tools@.take(i + 1).map_values(|t: ToolInfo| definition_of(t)) =~= self.tools@.take(
                i as int,
            ).map_values(|t: ToolInfo| definition_of(t)).push(definition_of(self.tools@[i as int])));
            i += 1;
        }
        assert(self.tools@.take(i as int) =~= self.tools@);
        r
    }

    /// The position of the first registered tool named `name`.
    pub fn find_tool(&self, name: &str) -> (r: Option<usize>)
        ensures
            match r {
                Some(i) => first_index(tool_names(self.tools@), name@) == Some(i as int),
                None => first_index(tool_names(self.tools@), name@) is None,
            },
    {
        let mut i: usize = 0;
        while i < self.tools.len()
            invariant
                i <= self.tools@.len(),
                forall|j: int| 0 <= j < i ==> tool_names(self.tools@)[j] != name@,
            decreases self.tools@.len() - i,
        {
            if str_eq(self.tools[i].name.as_str(), name) {
                let ghost ns = tool_names(self.tools@);
                assert(ns[i as int] == name@);
                assert(ns.contains(name@));
                let ghost c = choose|c: int| 0 <= c < ns.len() && ns[c] == name@ && forall|j: int| 0 <= j < c ==> ns[j] != name@;
                assert(c == i as int) by {
                    if c < i {
                    } else if c > i {
                    }
                }
                return Some(i);
            }
            i += 1;
        }
        None
    }

    /// Register a provider by its identifier; the first one registered becomes the
    /// default.
    pub fn register_provider(&mut self, provider_id: String)
        requires
            old(self).wf(),
        ensures
            final(self).wf(),
            final(self).providers@ == old(self).providers@.push(provider_id),
            final(self).default_provider == (match old(self).default_provider {
                Some(d) => Some(d),
                None => Some(provider_id),
            }),
            final(self).tools@ == old(self).tools@,
    {
        if self.default_provider.is_none() {
            self.default_provider = Some(provider_id.clone());
        }
        self.providers.push(provider_id);
    }

    /// The position of the first registered provider with identifier `id`.
    pub fn get_provider(&self, id: &str) -> (r: Option<usize>)
        ensures
            match r {
                Some(i) => first_index(views(self.providers@), id@) == Some(i as int),
                None => first_index(views(self.providers@), id@) is None,
            },
    {
        position_of(&self.providers, id)
    }

    /// The position of the default provider, if it is registered.
    pub fn default_provider(&self) -> (r: Option<usize>)
        ensures
            match self.default_provider {
                Some(d) => match r {
                    Some(i) => first_index(views(self.providers@), d@) == Some(i as int),
                    None => first_index(views(self.providers@), d@) is None,
                },
                None => r is None,
            },
    {
        match &self.default_provider {
            Some(d) => position_of(&self.providers, d.as_str()),
            None => None,
        }
    }

    /// The identifiers of the registered providers.
    pub fn provider_ids(&self) -> (r: Vec<String>)
        ensures
            views(r@) == views(self.providers@),
    {
        let mut r: Vec<String> = Vec::new();
        let mut i: usize = 0;
        while i < self.providers.len()
            invariant
                i <= self.providers@.len(),
                views(r@) == views(self.providers@).take(i as int),
            decreases self.providers@.len() - i,
        {
            let ghost before = r@;
            r.push(self.providers[i].clone());
            assert(views(r@) =~= views(before).push(self.providers@[i as int]@));
            assert(views(self.providers@).take(i + 1) =~= views(self.providers@).take(i as int).push(
                self.providers@[i as int]@,
            ));
            i += 1;
        }
        assert(views(self.providers@).take(i as int) =~= views(self.providers@));
        r
    }

    /// Make `id` the default provider when it is registered; returns whether it is.
    pub fn set_default_provider_id(&mut self, id: &str) -> (r: bool)
        requires
            old(self).wf(),
        ensures
            final(self).wf(),
            r == views(old(self).providers@).contains(id@),
            opt_string_view(final(self).default_provider) == (if r {
                Some(id@)
            } else {
                opt_string_view(old(self).default_provider)
            }),
            final(self).providers@ == old(self).providers@,
            final(self).tools@ == old(self).tools@,
    {
        let exists = position_of(&self.providers, id).is_some();
        if exists {
            self.default_provider = Some(owned(id));
        }
        exists
    }

    /// The identifier of the default provider.
    pub fn default_provider_id(&self) -> (r: Option<String>)
        ensures
            r == self.default_provider,
    {
        match &self.default_provider {
            Some(d) => Some(d.clone()),
            None => None,
        }
    }
}

/// Whether a session's allow-list admits `tool` (`None` admits every tool).
pub open spec fn permits(allowed: Option<Vec<String>>, tool: Seq<char>) -> bool {
    match allowed {
        Some(v) => views(v@).contains(tool),
        None => true,
    }
}

/// The message of a call refused by the allow-list.
pub open spec fn not_permitted_message(tool: Seq<char>) -> Seq<char> {
    "tool '"@ + tool + "' is not permitted for this session"@
}

/// The message of a call refused because the budget is spent.
pub open spec fn budget_message(budget: u32) -> Seq<char> {
    "tool call budget of "@ + decimal(budget as nat) + " exhausted for session"@
}

/// Why a session's policy refuses a call of `tool`, if it does.
pub open spec fn refusal(c: SessionToolConfig, tool: Seq<char>) -> Option<Seq<char>> {
    if !permits(c.allowed_tools, tool) {
        Some(not_permitted_message(tool))
    } else if c.budget matches Some(b) && c.call_count >= b {
        Some(budget_message(c.budget->0))
    } else {
        None
    }
}

/// The policy after one more admitted call.
pub open spec fn counted(c: SessionToolConfig) -> SessionToolConfig {
    SessionToolConfig { allowed_tools: c.allowed_tools, call_count: (c.call_count + 1) as u32, budget: c.budget }
}

/// Whether a check of `tool` in `session` cannot overflow the call counter.
pub open spec fn count_fits(rt: AgentRuntime, session: Seq<char>, tool: Seq<char>) -> bool {
    match lookup(rt.tool_configs@, session) {
        Some(c) => refusal(c, tool) is None ==> c.call_count < u32::MAX,
        None => true,
    }
}

/// The line recorded for a tool call: the name and its input, cut after 80 bytes.
pub open spec fn debug_entry(name: Seq<char>, input: Seq<char>) -> Seq<char> {
    if crate::text::utf8_len(input) > 80 {
        name + "("@ + vstd::utf8::decode_utf8(vstd::utf8::encode_utf8(input).subrange(0, 80)) + "...)"@
    } else {
        name + "("@ + input + ")"@
    }
}

/// Whether an input can be cut after 80 bytes (it is short, or byte 80 starts a
/// character).
pub open spec fn cuttable(input: Seq<char>) -> bool {
    crate::text::utf8_len(input) > 80 ==> vstd::utf8::is_char_boundary(vstd::utf8::encode_utf8(input), 80)
}

fn allow_list_contains(allowed: &Vec<String>, tool: &str) -> (r: bool)
    ensures
        r == views(allowed@).contains(tool@),
{
    let mut i: usize = 0;
    while i < allowed.len()
        invariant
            i <= allowed@.len(),
            forall|j: int| 0 <= j < i ==> views(allowed@)[j] != tool@,
        decreases allowed@.len() - i,
    {
        if str_eq(allowed[i].as_str(), tool) {
            assert(views(allowed@)[i as int] == tool@);
            return true;
        }
        i += 1;
    }
    false
}

impl AgentRuntime {
    /// Set the tool policy of a session, with no calls made yet.
    pub fn set_session_tool_config(&mut self, session_id: &str, allowed_tools: Option<Vec<String>>, budget: Option<u32>)
        requires
            old(self).wf(),
        ensures
            final(self).wf(),
            final(self).tool_configs@ == old(self).tool_configs@.insert(
                session_id@,
                SessionToolConfig { allowed_tools, call_count: 0, budget },
            ),
            same_but_tool_configs(*final(self), *old(self)),
    {
        self.tool_configs.insert(owned(session_id), SessionToolConfig { allowed_tools, call_count: 0, budget });
    }

    /// Drop the tool policy of a session.
    pub fn clear_session_tool_config(&mut self, session_id: &str)
        requires
            old(self).wf(),
        ensures
            final(self).wf(),
            final(self).tool_configs@ == old(self).tool_configs@.remove(session_id@),
            same_but_tool_configs(*final(self), *old(self)),
    {
        let _ = self.tool_configs.remove(session_id);
    }

    /// Keep only the policies of sessions that `keep` accepts.
    pub fn retain_session_tool_configs<F: Fn(&str) -> bool>(&mut self, keep: F)
        requires
            old(self).wf(),
            forall|k: &str| keep.requires((k,)),
        ensures
            final(self).wf(),
            forall|k: Seq<char>| #[trigger] final(self).tool_configs@.contains_key(k) ==> old(
                self,
            ).tool_configs@.contains_key(k) && final(self).tool_configs@[k] == old(self).tool_configs@[k],
            forall|k: Seq<char>| #[trigger] old(self).tool_configs@.contains_key(k) ==> {
                &&& final(self).tool_configs@.contains_key(k) ==> exists|s: &str| s@ == k && keep.ensures((s,), true)
                &&& !final(self).tool_configs@.contains_key(k) ==> exists|s: &str| s@ == k && keep.ensures(
                    (s,),
                    false,
                )
            },
            same_but_tool_configs(*final(self), *old(self)),
    {
        self.tool_configs.retain(keep);
    }

    /// The allow-list of a session (`None` when it has no policy or admits every tool).
    pub fn session_allowed_tools(&self, session_id: &str) -> (r: Option<Vec<String>>)
        ensures
            match lookup(self.tool_configs@, session_id@) {
                Some(c) => match c.allowed_tools {
                    Some(a) => r matches Some(v) && v@ == a@,
                    None => r is None,
                },
                None => r is None,
            },
    {
        match self.tool_configs.get(session_id) {
            Some(c) => match &c.allowed_tools {
                Some(a) => Some(crate::text::clone_strings(a)),
                None => None,
            },
            None => None,
        }
    }

    /// Check whether `tool_name` may run for the session, counting the call when it
    /// may. Sessions without a policy may run every tool.
    pub fn check_tool_allowed(&mut self, session_id: &str, tool_name: &str) -> (r: Result<(), Error>)
        requires
            old(self).wf(),
            count_fits(*old(self), session_id@, tool_name@),
        ensures
            final(self).wf(),
            same_but_tool_configs(*final(self), *old(self)),
            match lookup(old(self).tool_configs@, session_id@) {
                None => r is Ok && final(self).tool_configs@ == old(self).tool_configs@,
                Some(c) => match refusal(c, tool_name@) {
                    Some(m) => (r matches Err(Error::Agent(e)) && e@ == m) && final(self).tool_configs@
                        == old(self).tool_configs@,
                    None => r is Ok && final(self).tool_configs@ == old(self).tool_configs@.insert(
                        session_id@,
                        counted(c),
                    ),
                },
            },
    {
        let ghost before = self.tool_configs@;
        match self.tool_configs.remove(session_id) {
            None => {
                assert(self.tool_configs@ =~= before);
                Ok(())
            },
            Some(c) => {
                let allowed = match &c.allowed_tools {
                    Some(a) => allow_list_contains(a, tool_name),
                    None => true,
                };
                if !allowed {
                    let mut m = owned("tool '");
                    push_str(&mut m, tool_name);
                    push_str(&mut m, "' is not permitted for this session");
                    self.tool_configs.insert(owned(session_id), c);
                    assert(self.tool_configs@ =~= before);
                    return Err(Error::Agent(m));
                }
                if let Some(b) = c.budget {
                    if c.call_count >= b {
                        let mut m = owned("tool call budget of ");
                        push_decimal(&mut m, b as u64);
                        push_str(&mut m, " exhausted for session");
                        self.tool_configs.insert(owned(session_id), c);
                        assert(self.tool_configs@ =~= before);
                        return Err(Error::Agent(m));
                    }
                }
                let next = SessionToolConfig {
                    allowed_tools: c.allowed_tools,
                    call_count: c.call_count + 1,
                    budget: c.budget,
                };
                self.tool_configs.insert(owned(session_id), next);
                assert(self.tool_configs@ =~= before.insert(session_id@, counted(before[session_id@])));
                Ok(())
            },
        }
    }

    /// Add a turn's token counts to the session's usage; a session's first record
    /// also fixes its provider and model.
    pub fn accumulate_usage(
        &mut self,
        session_id: &str,
        provider_id: &str,
        model: &str,
        input_tokens: u32,
        output_tokens: u32,
    )
        requires
            old(self).wf(),
            match lookup(old(self).usage@, session_id@) {
                Some(u) => u.input_tokens + input_tokens <= u32::MAX && u.output_tokens + output_tokens
                    <= u32::MAX,
                None => true,
            },
        ensures
            final(self).wf(),
            final(self).usage@.remove(session_id@) == old(self).usage@.remove(session_id@),
            final(self).usage@.contains_key(session_id@),
            match lookup(old(self).usage@, session_id@) {
                Some(u) => final(self).usage@[session_id@] == SessionUsage {
                    input_tokens: (u.input_tokens + input_tokens) as u32,
                    output_tokens: (u.output_tokens + output_tokens) as u32,
                    provider_id: u.provider_id,
                    model: u.model,
                },
                None => {
                    let n = final(self).usage@[session_id@];
                    &&& n.input_tokens == input_tokens
                    &&& n.output_tokens == output_tokens
                    &&& n.provider_id@ == provider_id@
                    &&& n.model@ == model@
                },
            },
            same_settings(*final(self), *old(self)),
            final(self).tool_configs@ == old(self).tool_configs@,
            final(self).debug_log@ == old(self).debug_log@,
    {
        let entry = match self.usage.remove(session_id) {
            Some(u) => SessionUsage {
                input_tokens: u.input_tokens + input_tokens,
                output_tokens: u.output_tokens + output_tokens,
                provider_id: u.provider_id,
                model: u.model,
            },
            None => SessionUsage {
                input_tokens,
                output_tokens,
                provider_id: owned(provider_id),
                model: owned(model),
            },
        };
        self.usage.insert(owned(session_id), entry);
        assert(self.usage@.remove(session_id@) =~= old(self).usage@.remove(session_id@));
    }

    /// Remove and return the usage accumulated for a session, as
    /// `(input_tokens, output_tokens, provider_id, model)`.
    pub fn take_session_usage(&mut self, session_id: &str) -> (r: Option<(u32, u32, String, String)>)
        requires
            old(self).wf(),
        ensures
            final(self).wf(),
            final(self).usage@ == old(self).usage@.remove(session_id@),
            match lookup(old(self).usage@, session_id@) {
                Some(u) => r == Some((u.input_tokens, u.output_tokens, u.provider_id, u.model)),
                None => r is None,
            },
            same_settings(*final(self), *old(self)),
            final(self).tool_configs@ == old(self).tool_configs@,
            final(self).debug_log@ == old(self).debug_log@,
    {
        match self.usage.remove(session_id) {
            Some(u) => Some((u.input_tokens, u.output_tokens, u.provider_id, u.model)),
            None => None,
        }
    }

    /// Record a tool call for the session while debugging is on.
    pub fn record_debug_tool_call(&mut self, session_id: &str, name: &str, input_snippet: &str)
        requires
            old(self).wf(),
            old(self).debug ==> cuttable(input_snippet@),
        ensures
            final(self).wf(),
            !old(self).debug ==> final(self).debug_log@ == old(self).debug_log@,
            old(self).debug ==> {
                &&& final(self).debug_log@.remove(session_id@) == old(self).debug_log@.remove(session_id@)
                &&& final(self).debug_log@.contains_key(session_id@)
                &&& views(final(self).debug_log@[session_id@]@) == match lookup(
                    old(self).debug_log@,
                    session_id@,
                ) {
                    Some(v) => views(v@),
                    None => Seq::<Seq<char>>::empty(),
                }.push(debug_entry(name@, input_snippet@))
            },
            same_settings(*final(self), *old(self)),
            final(self).tool_configs@ == old(self).tool_configs@,
            final(self).usage@ == old(self).usage@,
    {
        if !self.debug {
            return;
        }
        let mut entry = owned(name);
        push_str(&mut entry, "(");
        if crate::text::str_byte_len(input_snippet) > 80 {
            let (head, _) = input_snippet.split_at(80);
            proof {
                assert(vstd::utf8::encode_utf8(head@) =~= vstd::utf8::encode_utf8(input_snippet@).subrange(0, 80));
                vstd::utf8::encode_utf8_decode_utf8(head@);
                assert(head@ == vstd::utf8::decode_utf8(vstd::utf8::encode_utf8(input_snippet@).subrange(0, 80)));
            }
            push_str(&mut entry, head);
            push_str(&mut entry, "...)");
            assert(entry@ =~= debug_entry(name@, input_snippet@));
        } else {
            push_str(&mut entry, input_snippet);
            push_str(&mut entry, ")");
            assert(entry@ =~= debug_entry(name@, input_snippet@));
        }
        let mut list = match self.debug_log.remove(session_id) {
            Some(v) => v,
            None => Vec::new(),
        };
        let ghost prior = views(list@);
        list.push(entry);
        assert(views(list@) =~= prior.push(debug_entry(name@, input_snippet@)));
        self.debug_log.insert(owned(session_id), list);
        assert(self.debug_log@.remove(session_id@) =~= old(self).debug_log@.remove(session_id@));
    }

    /// Remove and return the recorded tool calls of a session; `None` while
    /// debugging is off.
    pub fn take_debug_info(&mut self, session_id: &str) -> (r: Option<Vec<String>>)
        requires
            old(self).wf(),
        ensures
            final(self).wf(),
            !old(self).debug ==> r is None && final(self).debug_log@ == old(self).debug_log@,
            old(self).debug ==> r == lookup(old(self).debug_log@, session_id@) && final(self).debug_log@
                == old(self).debug_log@.remove(session_id@),
            same_settings(*final(self), *old(self)),
            final(self).tool_configs@ == old(self).tool_configs@,
            final(self).usage@ == old(self).usage@,
    {
        if !self.debug {
            return None;
        }
        self.debug_log.remove(session_id)
    }
}

/// The refusal of a call of `tool` in `session`, if the session's policy refuses it.
pub open spec fn tool_refusal(configs: Map<Seq<char>, SessionToolConfig>, session: Seq<char>, tool: Seq<char>) -> Option<Seq<char>> {
    match lookup(configs, session) {
        Some(c) => refusal(c, tool),
        None => None,
    }
}

/// The policies after checking a call of `tool` in `session`: an admitted call is counted.
pub open spec fn checked_configs(configs: Map<Seq<char>, SessionToolConfig>, session: Seq<char>, tool: Seq<char>) -> Map<Seq<char>, SessionToolConfig> {
    match lookup(configs, session) {
        Some(c) => if refusal(c, tool) is None {
            configs.insert(session, counted(c))
        } else {
            configs
        },
        None => configs,
    }
}

/// The message of the error that ends a tool loop that ran out of iterations.
pub open spec fn loop_limit_message() -> Seq<char> {
    "tool loop exceeded maximum of 10 iterations"@
}

/// A tool call asked for by the model: its id, the tool's name, the input handed
/// to the tool (compact JSON text) and the input as the model wrote it.
#[derive(Debug, Clone, PartialEq, Eq)]
pub struct ToolCall {
    pub id: String,
    pub name: String,
    pub input: String,
    pub raw_input: String,
}

/// What to do with a tool call.
#[derive(Debug, Clone, PartialEq, Eq)]
pub enum Dispatch {
    /// The session's policy refuses the call: report this error text as the result.
    Refused(String),
    /// Run the registered tool at this position.
    Run(usize),
    /// No tool has this name: report this error text as the result.
    Unknown(String),
}

/// The tool calls of a response, in order.
pub open spec fn calls_of(content: Seq<ContentBlock>) -> Seq<ToolCall>
    decreases content.len(),
{
    if content.len() == 0 {
        Seq::empty()
    } else {
        match content.last() {
            ContentBlock::ToolUse { id, name, input } => calls_of(content.drop_last()).push(
                ToolCall { id, name, input, raw_input: input },
            ),
            _ => calls_of(content.drop_last()),
        }
    }
}

/// The tool calls of a response, in order.
pub fn tool_calls(content: &Vec<ContentBlock>) -> (r: Vec<ToolCall>)
    ensures
        r@ == calls_of(content@),
{
    let mut r: Vec<ToolCall> = Vec::new();
    let mut i: usize = 0;
    while i < content.len()
        invariant
            i <= content@.len(),
            r@ == calls_of(content@.take(i as int)),
        decreases content@.len() - i,
    {
        proof {
            assert(content@.take(i + 1).drop_last() =~= content@.take(i as int));
        }
        if let ContentBlock::ToolUse { id, name, input } = &content[i] {
            r.push(ToolCall { id: id.clone(), name: name.clone(), input: input.clone(), raw_input: input.clone() });
        }
        i += 1;
    }
    assert(content@.take(i as int) =~= content@);
    r
}

/// The result block reporting a tool's output for a call.
pub fn tool_result(call: &ToolCall, output: String) -> (r: ContentBlock)
    ensures
        r == (ContentBlock::ToolResult { tool_use_id: call.id, content: output }),
{
    ContentBlock::ToolResult { tool_use_id: call.id.clone(), content: output }
}

impl AgentRuntime {
    /// Decide what to do with a tool call: check the session's policy (counting an
    /// admitted call), then look the tool up by name.
    pub fn dispatch_tool(&mut self, session_id: &str, tool_name: &str) -> (r: Dispatch)
        requires
            old(self).wf(),
            count_fits(*old(self), session_id@, tool_name@),
        ensures
            final(self).wf(),
            same_but_tool_configs(*final(self), *old(self)),
            final(self).tool_configs@ == checked_configs(old(self).tool_configs@, session_id@, tool_name@),
            match tool_refusal(old(self).tool_configs@, session_id@, tool_name@) {
                Some(m) => r matches Dispatch::Refused(e) && e@ == m,
                None => match first_index(tool_names(old(self).tools@), tool_name@) {
                    Some(i) => r == Dispatch::Run(i as usize),
                    None => r matches Dispatch::Unknown(e) && e@ == "unknown tool: "@ + tool_name@,
                },
            },
    {
        match self.check_tool_allowed(session_id, tool_name) {
            Err(e) => Dispatch::Refused(e.message()),
            Ok(()) => match self.find_tool(tool_name) {
                Some(i) => Dispatch::Run(i),
                None => {
                    let mut m = owned("unknown tool: ");
                    push_str(&mut m, tool_name);
                    Dispatch::Unknown(m)
                },
            },
        }
    }

    /// The context handed to a tool run for a session.
    pub fn tool_context(&self, session_id: &str, user_id: Option<&str>, heartbeat_depth: u8) -> (r: ToolContext)
        ensures
            r.session_id@ == session_id@,
            opt_string_view(r.user_id) == opt_view(user_id),
            r.heartbeat_depth == heartbeat_depth,
            match lookup(self.tool_configs@, session_id@) {
                Some(c) => match c.allowed_tools {
                    Some(a) => r.allowed_tools matches Some(v) && v@ == a@,
                    None => r.allowed_tools is None,
                },
                None => r.allowed_tools is None,
            },
    {
        ToolContext {
            session_id: owned(session_id),
            user_id: match user_id {
                Some(u) => Some(owned(u)),
                None => None,
            },
            heartbeat_depth,
            allowed_tools: self.session_allowed_tools(session_id),
        }
    }

    /// The provider a turn uses: the named one, or the default one.
    pub fn select_provider(&self, provider_id: Option<&str>) -> (r: Result<usize, Error>)
        ensures
            match provider_id {
                Some(p) => match first_index(views(self.providers@), p@) {
                    Some(i) => r == Ok::<usize, Error>(i as usize),
                    None => r matches Err(Error::Agent(e)) && e@ == "provider '"@ + p@ + "' not found"@,
                },
                None => match self.default_provider {
                    Some(d) => match first_index(views(self.providers@), d@) {
                        Some(i) => r == Ok::<usize, Error>(i as usize),
                        None => r matches Err(Error::Agent(e)) && e@ == "no LLM provider configured"@,
                    },
                    None => r matches Err(Error::Agent(e)) && e@ == "no LLM provider configured"@,
                },
            },
    {
        match provider_id {
            Some(p) => match self.get_provider(p) {
                Some(i) => Ok(i),
                None => {
                    let mut m = owned("provider '");
                    push_str(&mut m, p);
                    push_str(&mut m, "' not found");
                    Err(Error::Agent(m))
                },
            },
            None => match self.default_provider() {
                Some(i) => Ok(i),
                None => Err(Error::Agent(owned("no LLM provider configured"))),
            },
        }
    }

    /// The system prompt of a turn: the base prompt with tool guidance, the
    /// personality (or the bootstrap instruction), document context, memory context
    /// and the conversation summary.
    pub fn turn_system_prompt(&self, rag_context: Option<&str>, memory_context: Option<&str>, session_summary: Option<&str>) -> (r: Option<String>)
        ensures
            r matches Some(s) && exists|home: Option<Seq<char>>| s@ == system_prompt_text(
                Some(base_prompt_text(opt_string_view(self.system_prompt), self.tools@)),
                opt_string_view(self.dna_content),
                opt_view(rag_context),
                opt_view(memory_context),
                opt_view(session_summary),
                bootstrap_text(path_join(config_dir_for(home), "dna.md"@)),
            ),
    {
        let base = self.base_prompt_with_tools();
        let dna: Option<&str> = match &self.dna_content {
            Some(d) => Some(d.as_str()),
            None => None,
        };
        match base {
            Some(b) => crate::prompt::build_system_prompt(Some(b.as_str()), dna, rag_context, memory_context, session_summary),
            None => crate::prompt::build_system_prompt(None, dna, rag_context, memory_context, session_summary),
        }
    }
}

/// The messages of a turn: the history followed by the user's message, with any
/// document context put in front of plain text.
pub fn turn_messages(history: Vec<ChatMessage>, user_content: MessagePart, rag_context: Option<&str>) -> (r: Vec<ChatMessage>)
    ensures
        r@.len() == history@.len() + 1,
        r@.take(history@.len() as int) == history@,
        r@.last().role == ChatRole::User,
        match (user_content, rag_context) {
            (MessagePart::Text(t), Some(rag)) => r@.last().content matches MessagePart::Text(u) && u@
                == crate::prompt::rag_preamble() + rag@ + "\n\n---\n\n"@ + t@,
            _ => r@.last().content == user_content,
        },
{
    let mut r = history;
    let ghost h = r@;
    r.push(ChatMessage { role: ChatRole::User, content: inject_rag_into_content(user_content, rag_context) });
    assert(r@.take(h.len() as int) =~= h);
    r
}

/// A conversation turn in progress: the request sent next, how many requests were
/// answered, and the text streamed so far.
pub struct ToolLoop {
    pub request: LlmRequest,
    pub iterations: usize,
    pub full_response: String,
}

/// What the loop asks for after an answer.
#[derive(Debug, Clone, PartialEq, Eq)]
pub enum LoopStep {
    /// The model answered without tools: the text of this answer and the whole
    /// response of the turn.
    Reply { text: String, full: String },
    /// Run these tool calls and report their results.
    RunTools(Vec<ToolCall>),
}

/// Whether two loops send the same model, system prompt, limits and tools.
pub open spec fn same_request_settings(a: LlmRequest, b: LlmRequest) -> bool {
    &&& a.model == b.model
    &&& a.system == b.system
    &&& a.max_tokens == b.max_tokens
    &&& a.temperature_milli == b.temperature_milli
    &&& a.tools@ == b.tools@
}

impl ToolLoop {
    /// Whether the loop is within its limit of provider calls.
    pub open spec fn wf(&self) -> bool {
        self.iterations <= MAX_TOOL_ITERATIONS
    }

    /// Start a turn with its messages, system prompt, tools, model and output limit.
    pub fn new(messages: Vec<ChatMessage>, system: Option<String>, tools: Vec<ToolDefinition>, model: String, max_tokens: u32) -> (r: Self)
        ensures
            r.wf(),
            r.iterations == 0,
            r.full_response@.len() == 0,
            r.request == (LlmRequest {
                model,
                messages,
                system,
                max_tokens: Some(max_tokens),
                temperature_milli: None,
                tools,
            }),
    {
        ToolLoop {
            request: LlmRequest { model, messages, system, max_tokens: Some(max_tokens), temperature_milli: None, tools },
            iterations: 0,
            full_response: String::new(),
        }
    }

    /// `Ok` while another request may be sent; the loop-limit error after ten.
    pub fn check_iterations(&self) -> (r: Result<(), Error>)
        ensures
            self.iterations < MAX_TOOL_ITERATIONS ==> r is Ok,
            self.iterations >= MAX_TOOL_ITERATIONS ==> (r matches Err(Error::Agent(e)) && e@ == loop_limit_message()),
    {
        if self.iterations < MAX_TOOL_ITERATIONS {
            Ok(())
        } else {
            Err(Error::Agent(owned("tool loop exceeded maximum of 10 iterations")))
        }
    }

    /// Take a complete answer: without tool calls it ends the turn with its text;
    /// otherwise the answer joins the conversation and its tool calls are returned.
    pub fn on_response(&mut self, content: Vec<ContentBlock>) -> (r: LoopStep)
        requires
            old(self).iterations < MAX_TOOL_ITERATIONS,
        ensures
            final(self).wf(),
            final(self).iterations == old(self).iterations + 1,
            same_request_settings(final(self).request, old(self).request),
            !has_tool_use_spec(content@) ==> {
                &&& r matches LoopStep::Reply { text, full } && text@ == join(text_pieces(content@), "\n"@)
                    && full@ == old(self).full_response@ + text@
                &&& final(self).request.messages@ == old(self).request.messages@
                &&& final(self).full_response@ == old(self).full_response@ + join(text_pieces(content@), "\n"@)
            },
            has_tool_use_spec(content@) ==> {
                &&& r matches LoopStep::RunTools(calls) && calls@ == calls_of(content@)
                &&& final(self).request.messages@ == old(self).request.messages@.push(
                    ChatMessage { role: ChatRole::Assistant, content: MessagePart::Parts(content) },
                )
                &&& final(self).full_response@ == old(self).full_response@
            },
    {
        self.iterations = self.iterations + 1;
        if !has_tool_use(&content) {
            let text = extract_text(&content);
            push_str(&mut self.full_response, text.as_str());
            let full = self.full_response.clone();
            return LoopStep::Reply { text, full };
        }
        let calls = tool_calls(&content);
        self.request.messages.push(ChatMessage { role: ChatRole::Assistant, content: MessagePart::Parts(content) });
        LoopStep::RunTools(calls)
    }

    /// Add the tool results to the conversation as a user message; when text was
    /// streamed, separate it from what follows by a blank line, and return whether
    /// that separator was added.
    pub fn on_tool_results(&mut self, results: Vec<ContentBlock>) -> (sep: bool)
        requires
            old(self).wf(),
        ensures
            final(self).wf(),
            final(self).iterations == old(self).iterations,
            same_request_settings(final(self).request, old(self).request),
            final(self).request.messages@ == old(self).request.messages@.push(
                ChatMessage { role: ChatRole::User, content: MessagePart::Parts(results) },
            ),
            sep == (old(self).full_response@.len() > 0),
            final(self).full_response@ == if sep {
                old(self).full_response@ + "\n\n"@
            } else {
                old(self).full_response@
            },
    {
        self.request.messages.push(ChatMessage { role: ChatRole::User, content: MessagePart::Parts(results) });
        if self.full_response.as_str().is_empty() {
            false
        } else {
            push_str(&mut self.full_response, "\n\n");
            true
        }
    }
}

/// The input handed to a tool for the JSON text the model streamed: the text
/// written back compactly, or `null` when it is not JSON.
pub open spec fn normalized_input(raw: Seq<char>) -> Seq<char> {
    match crate::json::json_compact(raw) {
        Some(s) => s,
        None => "null"@,
    }
}

/// The tool input for streamed JSON text.
pub fn tool_input_of(raw: &str) -> (r: String)
    ensures
        r@ == normalized_input(raw@),
{
    match crate::json::compact_json(raw) {
        Some(s) => s,
        None => owned("null"),
    }
}

/// A tool call being streamed: its id, name and the input text received so far.
#[derive(Debug, Clone, PartialEq, Eq)]
pub struct PendingTool {
    pub id: String,
    pub name: String,
    pub input: String,
}

/// What the caller does after a stream event: forward a text delta, record usage,
/// and whether the stream is over.
#[derive(Debug, Clone, PartialEq, Eq)]
pub struct StreamOutput {
    pub delta: Option<String>,
    pub usage: Option<Usage>,
    pub stop: bool,
}

/// One streamed answer being collected: its text, the finished tool calls, the tool
/// call in progress and the stop reason.
pub struct StreamTurn {
    pub response_text: String,
    pub tool_uses: Vec<PendingTool>,
    pub current: Option<PendingTool>,
    pub stop_reason: Option<String>,
}

/// Whether `b` holds the finished tool calls of `a` and then `p`.
pub open spec fn flushed(a: StreamTurn, b: StreamTurn) -> bool {
    match a.current {
        Some(p) => b.tool_uses@ == a.tool_uses@.push(p) && b.current is None,
        None => b.tool_uses@ == a.tool_uses@ && b.current is None,
    }
}

impl StreamTurn {
    /// An empty answer.
    pub fn new() -> (r: Self)
        ensures
            r.response_text@.len() == 0,
            r.tool_uses@.len() == 0,
            r.current is None,
            r.stop_reason is None,
    {
        StreamTurn { response_text: String::new(), tool_uses: Vec::new(), current: None, stop_reason: None }
    }

    fn flush(&mut self)
        ensures
            flushed(*old(self), *final(self)),
            final(self).response_text == old(self).response_text,
            final(self).stop_reason == old(self).stop_reason,
    {
        if let Some(t) = self.current.take() {
            self.tool_uses.push(t);
        }
    }

    /// Take one stream event: text is collected (and forwarded), a tool call starts
    /// (replacing any unfinished one), input text joins the call in progress, a
    /// block end or the final message delta finishes the call in progress, and the
    /// message delta's usage is handed back.
    pub fn apply(&mut self, event: StreamEvent) -> (out: StreamOutput)
        ensures
            match event {
                StreamEvent::TextDelta(t) => {
                    &&& final(self).response_text@ == old(self).response_text@ + t@
                    &&& final(self).tool_uses@ == old(self).tool_uses@
                    &&& final(self).current == old(self).current
                    &&& final(self).stop_reason == old(self).stop_reason
                    &&& out == StreamOutput { delta: Some(t), usage: None, stop: false }
                },
                StreamEvent::ToolUseStart { index, id, name } => {
                    &&& final(self).response_text == old(self).response_text
                    &&& final(self).tool_uses@ == old(self).tool_uses@
                    &&& final(self).current matches Some(p) && p.id == id && p.name == name && p.input@.len() == 0
                    &&& final(self).stop_reason == old(self).stop_reason
                    &&& out == StreamOutput { delta: None, usage: None, stop: false }
                },
                StreamEvent::InputJsonDelta(j) => {
                    &&& final(self).response_text == old(self).response_text
                    &&& final(self).tool_uses@ == old(self).tool_uses@
                    &&& match old(self).current {
                        Some(p) => final(self).current matches Some(q) && q.id == p.id && q.name == p.name
                            && q.input@ == p.input@ + j@,
                        None => final(self).current is None,
                    }
                    &&& final(self).stop_reason == old(self).stop_reason
                    &&& out == StreamOutput { delta: None, usage: None, stop: false }
                },
                StreamEvent::ContentBlockStop { index } => {
                    &&& final(self).response_text == old(self).response_text
                    &&& flushed(*old(self), *final(self))
                    &&& final(self).stop_reason == old(self).stop_reason
                    &&& out == StreamOutput { delta: None, usage: None, stop: false }
                },
                StreamEvent::MessageDelta { stop_reason, usage } => {
                    &&& final(self).response_text == old(self).response_text
                    &&& flushed(*old(self), *final(self))
                    &&& final(self).stop_reason == stop_reason
                    &&& out == StreamOutput { delta: None, usage, stop: false }
                },
                StreamEvent::MessageStop => {
                    &&& final(self).response_text == old(self).response_text
                    &&& final(self).tool_uses@ == old(self).tool_uses@
                    &&& final(self).current == old(self).current
                    &&& final(self).stop_reason == old(self).stop_reason
                    &&& out == StreamOutput { delta: None, usage: None, stop: true }
                },
            },
    {
        match event {
            StreamEvent::TextDelta(t) => {
                push_str(&mut self.response_text, t.as_str());
                StreamOutput { delta: Some(t), usage: None, stop: false }
            },
            StreamEvent::ToolUseStart { index: _, id, name } => {
                self.current = Some(PendingTool { id, name, input: String::new() });
                StreamOutput { delta: None, usage: None, stop: false }
            },
            StreamEvent::InputJsonDelta(j) => {
                if let Some(p) = self.current.take() {
                    let mut input = p.input;
                    push_str(&mut input, j.as_str());
                    self.current = Some(PendingTool { id: p.id, name: p.name, input });
                }
                StreamOutput { delta: None, usage: None, stop: false }
            },
            StreamEvent::ContentBlockStop { index: _ } => {
                self.flush();
                StreamOutput { delta: None, usage: None, stop: false }
            },
            StreamEvent::MessageDelta { stop_reason, usage } => {
                self.flush();
                self.stop_reason = stop_reason;
                StreamOutput { delta: None, usage, stop: false }
            },
            StreamEvent::MessageStop => StreamOutput { delta: None, usage: None, stop: true },
        }
    }

    /// End the stream: a tool call still in progress is finished.
    pub fn finish(&mut self)
        ensures
            flushed(*old(self), *final(self)),
            final(self).response_text == old(self).response_text,
            final(self).stop_reason == old(self).stop_reason,
    {
        self.flush();
    }
}

/// Whether `b` is a text block holding `text`.
pub open spec fn text_block_is(b: ContentBlock, text: Seq<char>) -> bool {
    b matches ContentBlock::Text { text: t } && t@ == text
}

/// Whether `b` is the tool-use block for the streamed tool call `t`.
pub open spec fn tool_block_is(b: ContentBlock, t: PendingTool) -> bool {
    b matches ContentBlock::ToolUse { id, name, input } && id == t.id && name == t.name && input@
        == normalized_input(t.input@)
}

/// Whether `blocks` is the assistant message built from streamed `text` and tool
/// calls `tools`: the text first when there is any, then one tool-use block per call.
pub open spec fn streamed_blocks(blocks: Seq<ContentBlock>, text: Seq<char>, tools: Seq<PendingTool>) -> bool {
    let off: int = if text.len() > 0 { 1 } else { 0 };
    &&& blocks.len() == off + tools.len()
    &&& text.len() > 0 ==> text_block_is(blocks[0], text)
    &&& forall|i: int| 0 <= i < tools.len() ==> tool_block_is(#[trigger] blocks[off + i], tools[i])
}

/// Whether `calls` are the calls to run for streamed tool calls `tools`.
pub open spec fn streamed_calls(calls: Seq<ToolCall>, tools: Seq<PendingTool>) -> bool {
    &&& calls.len() == tools.len()
    &&& forall|i: int| 0 <= i < tools.len() ==> {
        &&& (#[trigger] calls[i]).id == tools[i].id
        &&& calls[i].name == tools[i].name
        &&& calls[i].input@ == normalized_input(tools[i].input@)
        &&& calls[i].raw_input == tools[i].input
    }
}

impl ToolLoop {
    /// Take a finished streamed answer: without tool calls it ends the turn, adding
    /// its text to the response; otherwise its text and tool calls join the
    /// conversation as an assistant message and the calls are returned.
    pub fn on_streamed(&mut self, turn: StreamTurn) -> (r: LoopStep)
        requires
            old(self).iterations < MAX_TOOL_ITERATIONS,
            turn.current is None,
        ensures
            final(self).wf(),
            final(self).iterations == old(self).iterations + 1,
            same_request_settings(final(self).request, old(self).request),
            final(self).full_response@ == old(self).full_response@ + turn.response_text@,
            turn.tool_uses@.len() == 0 ==> {
                &&& r matches LoopStep::Reply { text, full } && text@ == turn.response_text@ && full@
                    == final(self).full_response@
                &&& final(self).request.messages@ == old(self).request.messages@
            },
            turn.tool_uses@.len() > 0 ==> {
                &&& r matches LoopStep::RunTools(calls) && streamed_calls(calls@, turn.tool_uses@)
                &&& final(self).request.messages@.len() == old(self).request.messages@.len() + 1
                &&& final(self).request.messages@.drop_last() == old(self).request.messages@
                &&& final(self).request.messages@.last().role == ChatRole::Assistant
                &&& final(self).request.messages@.last().content matches MessagePart::Parts(b)
                    && streamed_blocks(b@, turn.response_text@, turn.tool_uses@)
            },
    {
        self.iterations = self.iterations + 1;
        push_str(&mut self.full_response, turn.response_text.as_str());
        if turn.tool_uses.len() == 0 {
            let full = self.full_response.clone();
            return LoopStep::Reply { text: turn.response_text, full };
        }
        let has_text = !turn.response_text.as_str().is_empty();
        let ghost text = turn.response_text@;
        let mut blocks: Vec<ContentBlock> = Vec::new();
        if has_text {
            blocks.push(ContentBlock::Text { text: turn.response_text });
        }
        let ghost off: int = if has_text { 1 } else { 0 };
        let mut calls: Vec<ToolCall> = Vec::new();
        let mut i: usize = 0;
        while i < turn.tool_uses.len()
            invariant
                i <= turn.tool_uses@.len(),
                off == (if text.len() > 0 { 1int } else { 0int }),
                blocks@.len() == off + i,
                text.len() > 0 ==> text_block_is(blocks@[0], text),
                forall|k: int| 0 <= k < i ==> tool_block_is(#[trigger] blocks@[off + k], turn.tool_uses@[k]),
                calls@.len() == i,
                forall|k: int| 0 <= k < i ==> {
                    &&& (#[trigger] calls@[k]).id == turn.tool_uses@[k].id
                    &&& calls@[k].name == turn.tool_uses@[k].name
                    &&& calls@[k].input@ == normalized_input(turn.tool_uses@[k].input@)
                    &&& calls@[k].raw_input == turn.tool_uses@[k].input
                },
            decreases turn.tool_uses@.len() - i,
        {
            let t = &turn.tool_uses[i];
            let input = tool_input_of(t.input.as_str());
            blocks.push(ContentBlock::ToolUse { id: t.id.clone(), name: t.name.clone(), input: input.clone() });
            calls.push(ToolCall { id: t.id.clone(), name: t.name.clone(), input, raw_input: t.input.clone() });
            assert(blocks@[off + i] == blocks@.last());
            i += 1;
        }
        let ghost m = self.request.messages@;
        self.request.messages.push(ChatMessage { role: ChatRole::Assistant, content: MessagePart::Parts(blocks) });
        assert(self.request.messages@.drop_last() =~= m);
        LoopStep::RunTools(calls)
    }
}

/// The policy `c` after `n` admitted calls.
pub open spec fn after_calls(c: SessionToolConfig, n: nat) -> SessionToolConfig {
    SessionToolConfig { allowed_tools: c.allowed_tools, call_count: (c.call_count + n) as u32, budget: c.budget }
}

/// A fresh policy with budget `b` admits exactly `b` calls of a permitted tool: each
/// of the first `b` checks is admitted and counted, and the next one is refused
/// with the budget message.
pub proof fn lemma_budget_admits_exactly(c: SessionToolConfig, tool: Seq<char>, b: u32, n: nat)
    requires
        c.call_count == 0,
        c.budget == Some(b),
        permits(c.allowed_tools, tool),
        n <= b,
    ensures
        n < b ==> refusal(after_calls(c, n), tool) is None && counted(after_calls(c, n)) == after_calls(c, n + 1),
        n == b ==> refusal(after_calls(c, n), tool) == Some(budget_message(b)),
        within_budget(after_calls(c, n)),
{
}

/// A session without a policy may run every tool, and checking it changes nothing.
pub proof fn lemma_no_policy_admits_all(configs: Map<Seq<char>, SessionToolConfig>, session: Seq<char>, tool: Seq<char>)
    requires
        !configs.contains_key(session),
    ensures
        tool_refusal(configs, session, tool) is None,
        checked_configs(configs, session, tool) == configs,
{
}

/// A refused call is not counted, and an admitted call keeps the count within the
/// budget: checking preserves well-formedness of every policy.
pub proof fn lemma_check_keeps_budget(configs: Map<Seq<char>, SessionToolConfig>, session: Seq<char>, tool: Seq<char>)
    requires
        forall|k: Seq<char>| #[trigger] configs.contains_key(k) ==> within_budget(configs[k]),
    ensures
        tool_refusal(configs, session, tool) is Some ==> checked_configs(configs, session, tool) == configs,
        forall|k: Seq<char>| #[trigger] checked_configs(configs, session, tool).contains_key(k) ==> within_budget(
            checked_configs(configs, session, tool)[k],
        ),
{
}

} // verus!
