use opencrust::context::{estimate_tokens, finish_compaction, plan_compaction, trim_messages_to_budget, CompactionPlan};
use opencrust::prompt::{build_system_prompt, system_prompt_with};
use opencrust::providers::{
    ChatMessage, ChatRole, ContentBlock, LlmRequest, MessagePart, StreamEvent, ToolDefinition,
    Usage,
};
use opencrust::runtime::{
    tool_calls, tool_input_of, tool_result, turn_messages, AgentRuntime, Dispatch, LoopStep,
    StreamOutput, StreamTurn, ToolInfo, ToolLoop, DEFAULT_RECALL_LIMIT, MAX_TOOL_ITERATIONS,
};

fn make_msg(role: ChatRole, text: &str) -> ChatMessage {
    ChatMessage {
        role,
        content: MessagePart::Text(text.to_string()),
    }
}

fn tool(name: &str, hint: Option<&str>) -> ToolInfo {
    ToolInfo {
        name: name.to_string(),
        description: format!("{name} description"),
        system_hint: hint.map(|h| h.to_string()),
        input_schema: "{}".to_string(),
    }
}

// ── system prompt ────────────────────────────────────────────────────────────

#[test]
fn build_system_prompt_all_parts() {
    let base = Some("You are helpful.");
    let dna = Some("Be kind.");
    let mem = Some("User likes Rust.");
    let sum = Some("We discussed project setup.");
    let result = build_system_prompt(base, dna, None, mem, sum).unwrap();
    assert!(result.contains("You are helpful."));
    assert!(result.contains("Be kind."));
    assert!(result.contains("User likes Rust."));
    assert!(result.contains("Conversation summary:"));
    assert!(result.contains("We discussed project setup."));
}

#[test]
fn build_system_prompt_base_before_dna() {
    let base = Some("You are helpful.");
    let dna = Some("You are a pirate.");
    let result = build_system_prompt(base, dna, None, None, None).unwrap();
    let base_pos = result.find("helpful").unwrap();
    let dna_pos = result.find("pirate").unwrap();
    assert!(base_pos < dna_pos);
}

#[test]
fn build_system_prompt_no_summary() {
    let result = build_system_prompt(Some("Base."), Some("DNA."), None, None, None).unwrap();
    assert!(result.contains("Base."));
    assert!(result.contains("DNA."));
    assert!(!result.contains("Conversation summary:"));
}

#[test]
fn build_system_prompt_summary_only() {
    let result = build_system_prompt(None, None, None, None, Some("A summary.")).unwrap();
    assert!(result.contains("Conversation summary:"));
    assert!(result.contains("A summary."));
}

#[test]
fn build_system_prompt_bootstrap_when_no_dna() {
    let result = build_system_prompt(None, None, None, None, None).unwrap();
    assert!(result.contains("have not been personalized yet"));
    assert!(result.contains("dna.md"));
}

#[test]
fn build_system_prompt_dna_only() {
    let result = build_system_prompt(None, Some("You are a pirate."), None, None, None).unwrap();
    assert!(result.contains("You are a pirate."));
}

#[test]
fn system_prompt_layers_are_joined_in_order() {
    let r = system_prompt_with(Some("B"), None, Some("R"), Some("M"), Some("S"), "boot");
    assert_eq!(r, "B\n\nboot\n\nR\n\nM\n\nConversation summary:\nS");
    let r = system_prompt_with(None, Some("D"), None, None, None, "boot");
    assert_eq!(r, "D");
}

// ── context budget ───────────────────────────────────────────────────────────

#[test]
fn trim_messages_to_budget_keeps_last() {
    let mut messages = vec![
        make_msg(ChatRole::User, "aaaaaaaaaaaaaaaaaaaaaaaa"),
        make_msg(ChatRole::Assistant, "bbbbbbbbbbbbbbbbbbbbbbbb"),
        make_msg(ChatRole::User, "cccccccccccccccccccccccc"),
    ];
    trim_messages_to_budget(&mut messages, &None, &vec![], 10);
    assert_eq!(messages.len(), 1);
    assert!(matches!(&messages[0].content, MessagePart::Text(t) if t.starts_with('c')));
}

#[test]
fn trim_messages_to_budget_no_op_under_budget() {
    let mut messages = vec![
        make_msg(ChatRole::User, "hi"),
        make_msg(ChatRole::Assistant, "hello"),
    ];
    let original_len = messages.len();
    trim_messages_to_budget(&mut messages, &None, &vec![], 100_000);
    assert_eq!(messages.len(), original_len);
}

#[test]
fn trim_stops_once_the_rest_fits() {
    let mut messages = vec![
        make_msg(ChatRole::User, &"a".repeat(40)),
        make_msg(ChatRole::Assistant, &"b".repeat(40)),
        make_msg(ChatRole::User, &"c".repeat(40)),
    ];
    // 120 chars = 30 tokens; dropping one leaves 80 chars = 20 tokens.
    trim_messages_to_budget(&mut messages, &None, &vec![], 20);
    assert_eq!(messages.len(), 2);
    assert!(matches!(&messages[0].content, MessagePart::Text(t) if t.starts_with('b')));
}

#[test]
fn estimate_tokens_basic() {
    let messages = vec![make_msg(ChatRole::User, "hello world")];
    let tokens = estimate_tokens(&messages, &None, &vec![]);
    assert_eq!(tokens, 11 / 4);
}

#[test]
fn estimate_counts_system_blocks_and_tools() {
    let messages = vec![ChatMessage {
        role: ChatRole::User,
        content: MessagePart::Parts(vec![
            ContentBlock::Text { text: "abcd".to_string() },
            ContentBlock::Image { url: "u".to_string() },
        ]),
    }];
    let tools = vec![ToolDefinition {
        name: "t".to_string(),
        description: "12345678".to_string(),
        input_schema: "{}".to_string(),
    }];
    let system = Some("xxxx".to_string());
    // 4 (system) + 4 + 1000 (image) + 8 + 2 (tool) = 1018 chars.
    assert_eq!(estimate_tokens(&messages, &system, &tools), 1018 / 4);
}

// ── runtime settings ─────────────────────────────────────────────────────────

#[test]
fn dna_content_set_and_get() {
    let mut runtime = AgentRuntime::new();
    assert!(runtime.dna_content().is_none());
    runtime.set_dna_content(Some("Be friendly.".to_string()));
    assert_eq!(runtime.dna_content().unwrap(), "Be friendly.");
    runtime.set_dna_content(None);
    assert!(runtime.dna_content().is_none());
}

#[test]
fn recall_limit_default_is_10() {
    let runtime = AgentRuntime::new();
    assert_eq!(runtime.recall_limit, 10);
    assert_eq!(runtime.recall_limit(), DEFAULT_RECALL_LIMIT);
}

#[test]
fn summarization_enabled_default_is_true() {
    let runtime = AgentRuntime::new();
    assert!(runtime.summarization_enabled);
}

#[test]
fn set_recall_limit_works() {
    let mut runtime = AgentRuntime::new();
    runtime.set_recall_limit(20);
    assert_eq!(runtime.recall_limit, 20);
}

#[test]
fn set_summarization_enabled_works() {
    let mut runtime = AgentRuntime::new();
    runtime.set_summarization_enabled(false);
    assert!(!runtime.summarization_enabled);
}

#[test]
fn token_limits_fall_back_to_defaults() {
    let mut runtime = AgentRuntime::new();
    assert_eq!(runtime.request_max_tokens(), 4096);
    assert_eq!(runtime.context_window(), 100_000);
    runtime.set_max_tokens(512);
    runtime.set_max_context_tokens(2048);
    assert_eq!(runtime.request_max_tokens(), 512);
    assert_eq!(runtime.context_window(), 2048);
}

#[test]
fn system_prompt_append_and_tool_guidance() {
    let mut runtime = AgentRuntime::new();
    runtime.set_system_prompt("Base".to_string());
    runtime.append_system_prompt("More");
    assert_eq!(runtime.system_prompt(), Some("Base\n\nMore"));
    runtime.register_tool(tool("bash", Some("run commands")));
    runtime.register_tool(tool("web_fetch", None));
    assert_eq!(
        runtime.base_prompt_with_tools().unwrap(),
        "Base\n\nMore\n\nAvailable tools:\n  - bash: run commands\n  - web_fetch: web_fetch description"
    );
    let defs = runtime.tool_definitions();
    assert_eq!(defs.len(), 2);
    assert_eq!(defs[1].name, "web_fetch");
    assert_eq!(runtime.find_tool("web_fetch"), Some(1));
    assert_eq!(runtime.find_tool("nope"), None);
}

// ── tool policies ────────────────────────────────────────────────────────────

#[test]
fn set_session_tool_config_and_check_allowed_tool() {
    let mut runtime = AgentRuntime::new();
    runtime.set_session_tool_config("sess", Some(vec!["bash".to_string()]), None);
    assert!(runtime.check_tool_allowed("sess", "bash").is_ok());
    assert!(runtime.check_tool_allowed("sess", "file_read").is_err());
}

#[test]
fn check_tool_allowed_permits_all_when_no_config() {
    let mut runtime = AgentRuntime::new();
    assert!(runtime.check_tool_allowed("sess", "any_tool").is_ok());
}

#[test]
fn check_tool_allowed_permits_all_when_allowed_tools_is_none() {
    let mut runtime = AgentRuntime::new();
    runtime.set_session_tool_config("sess", None, None);
    assert!(runtime.check_tool_allowed("sess", "bash").is_ok());
    assert!(runtime.check_tool_allowed("sess", "file_read").is_ok());
}

#[test]
fn budget_exhaustion_blocks_tool_call() {
    let mut runtime = AgentRuntime::new();
    runtime.set_session_tool_config("sess", None, Some(2));
    assert!(runtime.check_tool_allowed("sess", "bash").is_ok());
    assert!(runtime.check_tool_allowed("sess", "bash").is_ok());
    let err = runtime.check_tool_allowed("sess", "bash");
    assert!(err.is_err());
    assert!(err.unwrap_err().message().contains("budget"));
}

#[test]
fn refusal_messages_are_exact() {
    let mut runtime = AgentRuntime::new();
    runtime.set_session_tool_config("s", Some(vec!["bash".to_string()]), Some(1));
    assert_eq!(
        runtime.check_tool_allowed("s", "web").unwrap_err().message(),
        "tool 'web' is not permitted for this session"
    );
    assert!(runtime.check_tool_allowed("s", "bash").is_ok());
    assert_eq!(
        runtime.check_tool_allowed("s", "bash").unwrap_err().message(),
        "tool call budget of 1 exhausted for session"
    );
    runtime.clear_session_tool_config("s");
    assert!(runtime.check_tool_allowed("s", "web").is_ok());
}

#[test]
fn retain_session_tool_configs_removes_evicted_sessions() {
    let mut runtime = AgentRuntime::new();
    runtime.set_session_tool_config("keep", Some(vec!["bash".to_string()]), None);
    runtime.set_session_tool_config("drop", None, None);
    runtime.retain_session_tool_configs(|id: &str| id == "keep");
    assert!(runtime.check_tool_allowed("keep", "bash").is_ok());
    assert!(runtime.check_tool_allowed("drop", "bash").is_ok());
    assert!(runtime.session_allowed_tools("keep").is_some());
}

#[test]
fn session_allowed_tools_returns_none_when_no_config() {
    let runtime = AgentRuntime::new();
    assert!(runtime.session_allowed_tools("sess").is_none());
}

#[test]
fn session_allowed_tools_returns_configured_list() {
    let mut runtime = AgentRuntime::new();
    let tools = vec!["bash".to_string(), "web_search".to_string()];
    runtime.set_session_tool_config("sess", Some(tools.clone()), None);
    assert_eq!(runtime.session_allowed_tools("sess"), Some(tools));
}

#[test]
fn dispatch_refuses_runs_or_reports_unknown() {
    let mut runtime = AgentRuntime::new();
    runtime.register_tool(tool("bash", None));
    runtime.set_session_tool_config("s", Some(vec!["bash".to_string(), "ghost".to_string()]), None);
    assert_eq!(runtime.dispatch_tool("s", "bash"), Dispatch::Run(0));
    assert_eq!(
        runtime.dispatch_tool("s", "ghost"),
        Dispatch::Unknown("unknown tool: ghost".to_string())
    );
    assert_eq!(
        runtime.dispatch_tool("s", "web"),
        Dispatch::Refused("tool 'web' is not permitted for this session".to_string())
    );
    let ctx = runtime.tool_context("s", Some("u1"), 2);
    assert_eq!(ctx.session_id, "s");
    assert_eq!(ctx.user_id.as_deref(), Some("u1"));
    assert_eq!(ctx.heartbeat_depth, 2);
    assert_eq!(ctx.allowed_tools.unwrap().len(), 2);
}

// ── providers, usage, debug ──────────────────────────────────────────────────

#[test]
fn providers_and_default_selection() {
    let mut runtime = AgentRuntime::new();
    assert_eq!(
        runtime.select_provider(None).unwrap_err().message(),
        "no LLM provider configured"
    );
    runtime.register_provider("anthropic".to_string());
    runtime.register_provider("openai".to_string());
    assert_eq!(runtime.default_provider_id().as_deref(), Some("anthropic"));
    assert_eq!(runtime.select_provider(None).unwrap(), 0);
    assert_eq!(runtime.select_provider(Some("openai")).unwrap(), 1);
    assert_eq!(
        runtime.select_provider(Some("x")).unwrap_err().message(),
        "provider 'x' not found"
    );
    assert!(runtime.set_default_provider_id("openai"));
    assert!(!runtime.set_default_provider_id("missing"));
    assert_eq!(runtime.default_provider(), Some(1));
    assert_eq!(runtime.provider_ids(), vec!["anthropic".to_string(), "openai".to_string()]);
}

#[test]
fn usage_accumulates_and_is_taken_once() {
    let mut runtime = AgentRuntime::new();
    runtime.accumulate_usage("s", "anthropic", "m1", 10, 5);
    runtime.accumulate_usage("s", "openai", "m2", 3, 4);
    assert_eq!(
        runtime.take_session_usage("s"),
        Some((13, 9, "anthropic".to_string(), "m1".to_string()))
    );
    assert_eq!(runtime.take_session_usage("s"), None);
}

#[test]
fn debug_log_records_only_while_debugging() {
    let mut runtime = AgentRuntime::new();
    runtime.record_debug_tool_call("s", "bash", "ls");
    runtime.set_debug(true);
    assert_eq!(runtime.take_debug_info("s"), None);
    runtime.record_debug_tool_call("s", "bash", "ls");
    let long = "x".repeat(100);
    runtime.record_debug_tool_call("s", "web", &long);
    let log = runtime.take_debug_info("s").unwrap();
    assert_eq!(log[0], "bash(ls)");
    assert_eq!(log[1], format!("web({}...)", "x".repeat(80)));
    assert_eq!(runtime.take_debug_info("s"), None);
    runtime.set_debug(false);
    assert_eq!(runtime.take_debug_info("s"), None);
}

// ── the tool loop ────────────────────────────────────────────────────────────

fn new_loop() -> ToolLoop {
    ToolLoop::new(
        vec![make_msg(ChatRole::User, "hi")],
        Some("sys".to_string()),
        vec![],
        "model".to_string(),
        1024,
    )
}

#[test]
fn loop_reply_without_tools() {
    let mut l = new_loop();
    assert!(l.check_iterations().is_ok());
    let step = l.on_response(vec![
        ContentBlock::Text { text: "a".to_string() },
        ContentBlock::Text { text: "b".to_string() },
    ]);
    assert_eq!(
        step,
        LoopStep::Reply {
            text: "a\nb".to_string(),
            full: "a\nb".to_string()
        }
    );
    assert_eq!(l.iterations, 1);
    assert_eq!(l.request.messages.len(), 1);
}

#[test]
fn loop_runs_tools_then_replies() {
    let mut l = new_loop();
    let content = vec![
        ContentBlock::Text { text: "checking".to_string() },
        ContentBlock::ToolUse {
            id: "t1".to_string(),
            name: "bash".to_string(),
            input: "{\"command\":\"ls\"}".to_string(),
        },
    ];
    let calls = tool_calls(&content);
    assert_eq!(calls.len(), 1);
    let step = l.on_response(content);
    match step {
        LoopStep::RunTools(c) => assert_eq!(c, calls),
        _ => panic!("expected tool calls"),
    }
    assert_eq!(l.request.messages.len(), 2);
    assert_eq!(l.request.messages[1].role, ChatRole::Assistant);
    let result = tool_result(&calls[0], "file.txt".to_string());
    assert!(!l.on_tool_results(vec![result]));
    assert_eq!(l.request.messages.len(), 3);
    assert_eq!(l.request.messages[2].role, ChatRole::User);
    let step = l.on_response(vec![ContentBlock::Text { text: "done".to_string() }]);
    assert_eq!(
        step,
        LoopStep::Reply {
            text: "done".to_string(),
            full: "done".to_string()
        }
    );
}

#[test]
fn loop_stops_after_max_iterations() {
    let mut l = new_loop();
    for _ in 0..MAX_TOOL_ITERATIONS {
        assert!(l.check_iterations().is_ok());
        let _ = l.on_response(vec![ContentBlock::ToolUse {
            id: "t".to_string(),
            name: "bash".to_string(),
            input: "{}".to_string(),
        }]);
    }
    assert_eq!(
        l.check_iterations().unwrap_err().message(),
        "tool loop exceeded maximum of 10 iterations"
    );
}

#[test]
fn streamed_turn_collects_text_and_tool_calls() {
    let mut turn = StreamTurn::new();
    assert_eq!(
        turn.apply(StreamEvent::TextDelta("Hel".to_string())),
        StreamOutput { delta: Some("Hel".to_string()), usage: None, stop: false }
    );
    turn.apply(StreamEvent::TextDelta("lo".to_string()));
    turn.apply(StreamEvent::ToolUseStart {
        index: 0,
        id: "c1".to_string(),
        name: "bash".to_string(),
    });
    turn.apply(StreamEvent::InputJsonDelta("{\"command\": ".to_string()));
    turn.apply(StreamEvent::InputJsonDelta("\"ls\"}".to_string()));
    turn.apply(StreamEvent::ContentBlockStop { index: 0 });
    let out = turn.apply(StreamEvent::MessageDelta {
        stop_reason: Some("tool_use".to_string()),
        usage: Some(Usage { input_tokens: 3, output_tokens: 4 }),
    });
    assert_eq!(out.usage, Some(Usage { input_tokens: 3, output_tokens: 4 }));
    assert!(turn.apply(StreamEvent::MessageStop).stop);
    turn.finish();
    assert_eq!(turn.response_text, "Hello");
    assert_eq!(turn.tool_uses.len(), 1);
    assert_eq!(turn.stop_reason.as_deref(), Some("tool_use"));

    let mut l = new_loop();
    match l.on_streamed(turn) {
        LoopStep::RunTools(calls) => {
            assert_eq!(calls[0].id, "c1");
            assert_eq!(calls[0].input, "{\"command\":\"ls\"}");
            assert_eq!(calls[0].raw_input, "{\"command\": \"ls\"}");
        }
        _ => panic!("expected tool calls"),
    }
    assert_eq!(l.full_response, "Hello");
    match &l.request.messages[1].content {
        MessagePart::Parts(blocks) => {
            assert_eq!(blocks.len(), 2);
            assert_eq!(blocks[0], ContentBlock::Text { text: "Hello".to_string() });
        }
        _ => panic!("expected blocks"),
    }
    assert!(l.on_tool_results(vec![]));
    assert_eq!(l.full_response, "Hello\n\n");
}

#[test]
fn tool_input_falls_back_to_null() {
    assert_eq!(tool_input_of("{ \"a\" : 1 }"), "{\"a\":1}");
    assert_eq!(tool_input_of("{\"a\":"), "null");
}

#[test]
fn turn_messages_append_user_input_with_document_context() {
    let history = vec![make_msg(ChatRole::Assistant, "earlier")];
    let r = turn_messages(history, MessagePart::Text("question".to_string()), Some("DOC"));
    assert_eq!(r.len(), 2);
    match &r[1].content {
        MessagePart::Text(t) => {
            assert!(t.starts_with("[Retrieved document context"));
            assert!(t.ends_with("DOC\n\n---\n\nquestion"));
        }
        _ => panic!("expected text"),
    }
    let r = turn_messages(vec![], MessagePart::Text("q".to_string()), None);
    assert_eq!(r[0], make_msg(ChatRole::User, "q"));
}

#[test]
fn loop_keeps_request_settings() {
    let l = new_loop();
    assert_eq!(
        l.request,
        LlmRequest {
            model: "model".to_string(),
            messages: vec![make_msg(ChatRole::User, "hi")],
            system: Some("sys".to_string()),
            max_tokens: Some(1024),
            temperature_milli: None,
            tools: vec![],
        }
    );
}

// The compaction scenarios below follow the runtime: it plans, asks the
// provider for a summary when the plan says so, and finishes with the answer.

#[test]
fn compact_messages_under_budget_returns_none() {
    let messages = vec![make_msg(ChatRole::User, "hi"), make_msg(ChatRole::Assistant, "hello")];
    let original_len = messages.len();
    let plan = plan_compaction(&messages, &None, &vec![], 100_000, None, true);
    assert!(matches!(plan, CompactionPlan::Keep));
    assert_eq!(messages.len(), original_len);
}

#[test]
fn compact_messages_disabled_falls_back_to_trim() {
    let long_text = "x".repeat(4000);
    let mut messages = vec![
        make_msg(ChatRole::User, &long_text),
        make_msg(ChatRole::Assistant, &long_text),
        make_msg(ChatRole::User, "latest question"),
    ];
    let plan = plan_compaction(&messages, &None, &vec![], 100, None, false);
    assert!(matches!(plan, CompactionPlan::Trim));
    trim_messages_to_budget(&mut messages, &None, &vec![], 100);
    assert!(messages.len() <= 2);
}

#[test]
fn compact_messages_summarizes_when_over_budget() {
    let long_text = "x".repeat(4000);
    let mut messages = vec![
        make_msg(ChatRole::User, &long_text),
        make_msg(ChatRole::Assistant, &long_text),
        make_msg(ChatRole::User, "latest question"),
    ];
    let plan = plan_compaction(&messages, &None, &vec![], 1500, None, true);
    let drop_count = match plan {
        CompactionPlan::Summarize { drop_count, .. } => drop_count,
        other => panic!("expected a summary request, got {other:?}"),
    };
    let result = finish_compaction(
        &mut messages,
        &None,
        &vec![],
        1500,
        drop_count,
        Some("Summary: user asked about Rust.".to_string()),
    );
    assert!(result.is_some());
    assert!(result.unwrap().contains("Summary: user asked about Rust."));
    assert!(messages.len() < 3);
}
