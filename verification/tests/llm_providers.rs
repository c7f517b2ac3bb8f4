use opencrust::openai::{relayed_events, sse_data, SseData};
use opencrust::anthropic::{
    from_anthropic_response, to_anthropic_message, without_trailing_slashes, AnthropicBlock,
    AnthropicContent, AnthropicProvider, AnthropicResponse, AnthropicUsage,
};
use opencrust::openai::{
    from_openai_response, map_stop_reason, parse_stream_chunk, OpenAiChoice,
    OpenAiFunctionCall, OpenAiMessage, OpenAiProvider, OpenAiResponse, OpenAiStreamChoice,
    OpenAiStreamChunk, OpenAiStreamDelta, OpenAiStreamFunctionDelta, OpenAiStreamToolCallDelta,
    OpenAiToolCall, OpenAiUsage,
};
use opencrust::providers::{
    has_tool_use, text_message, ChatMessage, ChatRole, ContentBlock, LlmRequest, MessagePart,
    StreamEvent, ToolDefinition, Usage,
};

fn request(model: &str, messages: Vec<ChatMessage>, system: Option<&str>, max: Option<u32>) -> LlmRequest {
    LlmRequest {
        model: model.to_string(),
        messages,
        system: system.map(|s| s.to_string()),
        max_tokens: max,
        temperature_milli: None,
        tools: vec![],
    }
}

fn bash_tool() -> ToolDefinition {
    ToolDefinition {
        name: "bash".to_string(),
        description: "Run a command".to_string(),
        input_schema: "{\"type\":\"object\",\"properties\":{\"command\":{\"type\":\"string\"}}}"
            .to_string(),
    }
}

// ── Anthropic ────────────────────────────────────────────────────────────────

#[test]
fn anthropic_builds_request_with_default_model() {
    let provider = AnthropicProvider::new("test-key".to_string(), "sonnet-4-5".to_string(), None);
    let request = request(
        "",
        vec![text_message(ChatRole::User, "hello".to_string())],
        Some("You are helpful"),
        Some(1024),
    );
    let anthropic_req = provider.build_request(&request);
    assert_eq!(anthropic_req.model, "sonnet-4-5");
    assert_eq!(anthropic_req.max_tokens, 1024);
    assert_eq!(anthropic_req.system, Some("You are helpful".to_string()));
    assert!(anthropic_req.tools.is_none());
}

#[test]
fn builds_request_with_explicit_model() {
    let provider = AnthropicProvider::new("test-key".to_string(), "sonnet-4-5".to_string(), None);
    let mut request = request("haiku-4-5", vec![], None, None);
    request.temperature_milli = Some(700);
    let anthropic_req = provider.build_request(&request);
    assert_eq!(anthropic_req.model, "haiku-4-5");
    assert_eq!(anthropic_req.temperature_milli, Some(700));
    assert_eq!(anthropic_req.max_tokens, 4096);
}

#[test]
fn anthropic_drops_system_messages_and_maps_roles() {
    let provider = AnthropicProvider::new("k".to_string(), "m".to_string(), None);
    let request = request(
        "",
        vec![
            text_message(ChatRole::System, "sys".to_string()),
            text_message(ChatRole::User, "u".to_string()),
            text_message(ChatRole::Assistant, "a".to_string()),
            text_message(ChatRole::Tool, "t".to_string()),
        ],
        None,
        None,
    );
    let r = provider.build_request(&request);
    assert_eq!(r.model, "m");
    let roles: Vec<&str> = r.messages.iter().map(|m| m.role.as_str()).collect();
    assert_eq!(roles, vec!["user", "assistant", "user"]);
}

#[test]
fn converts_tool_result_message() {
    let msg = ChatMessage {
        role: ChatRole::User,
        content: MessagePart::Parts(vec![ContentBlock::ToolResult {
            tool_use_id: "toolu_123".to_string(),
            content: "hello\n".to_string(),
        }]),
    };

    let anthropic_msg = to_anthropic_message(&msg);
    assert_eq!(anthropic_msg.role, "user");
    match &anthropic_msg.content {
        AnthropicContent::Blocks(blocks) => {
            assert_eq!(blocks.len(), 1);
            match &blocks[0] {
                AnthropicBlock::ToolResult {
                    tool_use_id,
                    content,
                } => {
                    assert_eq!(tool_use_id, "toolu_123");
                    assert_eq!(content, "hello\n");
                }
                _ => panic!("expected tool_result block"),
            }
        }
        _ => panic!("expected blocks content"),
    }
}

#[test]
fn image_blocks_become_text_for_anthropic() {
    let msg = ChatMessage {
        role: ChatRole::User,
        content: MessagePart::Parts(vec![ContentBlock::Image { url: "http://x/y.png".to_string() }]),
    };
    let w = to_anthropic_message(&msg);
    assert_eq!(
        w.content,
        AnthropicContent::Blocks(vec![AnthropicBlock::Text { text: "[image: http://x/y.png]".to_string() }])
    );
}

#[test]
fn anthropic_endpoint_strips_trailing_slash() {
    let provider = AnthropicProvider::new(
        "key".to_string(),
        "sonnet-4-5".to_string(),
        Some("https://api.example.com/".to_string()),
    );
    assert_eq!(provider.endpoint(), "https://api.example.com/v1/messages");
    assert_eq!(without_trailing_slashes("a///"), "a");
    let default = AnthropicProvider::new("key".to_string(), "sonnet-4-5".to_string(), None);
    assert_eq!(default.endpoint(), "https://api.anthropic.com/v1/messages");
}

#[test]
fn anthropic_request_includes_tools_when_provided() {
    let provider = AnthropicProvider::new("test-key".to_string(), "sonnet-4-5".to_string(), None);
    let mut request = request("", vec![], None, None);
    request.tools = vec![bash_tool()];
    let anthropic_req = provider.build_request(&request);
    let tools = anthropic_req.tools.unwrap();
    assert_eq!(tools.len(), 1);
    assert_eq!(tools[0].name, "bash");
}

#[test]
fn anthropic_deserializes_text_response() {
    let response = AnthropicResponse {
        content: vec![AnthropicBlock::Text { text: "Hello! How can I help?".to_string() }],
        model: "sonnet-4-5".to_string(),
        usage: Some(AnthropicUsage { input_tokens: 10, output_tokens: 20 }),
        stop_reason: Some("end_turn".to_string()),
    };
    let llm_response = from_anthropic_response(response);
    assert_eq!(llm_response.content.len(), 1);
    match &llm_response.content[0] {
        ContentBlock::Text { text } => assert_eq!(text, "Hello! How can I help?"),
        _ => panic!("expected text block"),
    }
    assert_eq!(llm_response.usage.as_ref().unwrap().input_tokens, 10);
    assert_eq!(llm_response.usage.as_ref().unwrap().output_tokens, 20);
    assert_eq!(llm_response.stop_reason.as_deref(), Some("end_turn"));
}

#[test]
fn deserializes_tool_use_response() {
    let response = AnthropicResponse {
        content: vec![
            AnthropicBlock::Text { text: "Let me run that command.".to_string() },
            AnthropicBlock::ToolUse {
                id: "toolu_123".to_string(),
                name: "bash".to_string(),
                input: "{\"command\":\"echo hello\"}".to_string(),
            },
        ],
        model: "sonnet-4-5".to_string(),
        usage: Some(AnthropicUsage { input_tokens: 50, output_tokens: 30 }),
        stop_reason: Some("tool_use".to_string()),
    };
    let llm_response = from_anthropic_response(response);
    assert_eq!(llm_response.content.len(), 2);
    assert_eq!(llm_response.stop_reason, Some("tool_use".to_string()));
    assert!(has_tool_use(&llm_response.content));
    match &llm_response.content[1] {
        ContentBlock::ToolUse { id, name, input } => {
            assert_eq!(id, "toolu_123");
            assert_eq!(name, "bash");
            assert_eq!(input, "{\"command\":\"echo hello\"}");
        }
        _ => panic!("expected tool_use block"),
    }
}

// ── OpenAI ───────────────────────────────────────────────────────────────────

#[test]
fn openai_builds_request_with_default_model() {
    let provider = OpenAiProvider::new("test-key".to_string(), None, None);
    let request = request(
        "",
        vec![text_message(ChatRole::User, "hello".to_string())],
        Some("You are helpful"),
        Some(1024),
    );
    let openai_req = provider.build_request(&request);
    assert_eq!(openai_req.model, "gpt-4o");
    assert_eq!(openai_req.messages[0].role, "system");
    assert_eq!(
        openai_req.messages[0].content,
        Some("You are helpful".to_string())
    );
    assert_eq!(openai_req.messages[1].role, "user");
    assert!(openai_req.tools.is_none());
    assert_eq!(openai_req.max_tokens, Some(1024));
}

#[test]
fn converts_tool_result_to_tool_messages() {
    let provider = OpenAiProvider::new("test-key".to_string(), None, None);
    let request = request(
        "",
        vec![
            ChatMessage {
                role: ChatRole::Assistant,
                content: MessagePart::Parts(vec![ContentBlock::ToolUse {
                    id: "call_123".to_string(),
                    name: "bash".to_string(),
                    input: "{\"command\":\"echo hi\"}".to_string(),
                }]),
            },
            ChatMessage {
                role: ChatRole::User,
                content: MessagePart::Parts(vec![ContentBlock::ToolResult {
                    tool_use_id: "call_123".to_string(),
                    content: "hi\n".to_string(),
                }]),
            },
        ],
        None,
        None,
    );

    let openai_req = provider.build_request(&request);
    assert_eq!(openai_req.messages[0].role, "assistant");
    assert!(openai_req.messages[0].tool_calls.is_some());
    let calls = openai_req.messages[0].tool_calls.as_ref().unwrap();
    assert_eq!(calls[0].kind, "function");
    assert_eq!(calls[0].function.arguments, "{\"command\":\"echo hi\"}");
    assert_eq!(openai_req.messages[1].role, "tool");
    assert_eq!(
        openai_req.messages[1].tool_call_id,
        Some("call_123".to_string())
    );
    assert_eq!(openai_req.messages[1].content, Some("hi\n".to_string()));
}

#[test]
fn openai_endpoint_strips_trailing_slash() {
    let provider =
        OpenAiProvider::new("key".to_string(), None, Some("https://api.example.com/".to_string()));
    assert_eq!(
        provider.endpoint(),
        "https://api.example.com/v1/chat/completions"
    );
}

#[test]
fn openai_request_includes_tools_when_provided() {
    let provider = OpenAiProvider::new("test-key".to_string(), None, None);
    let mut request = request("", vec![], None, None);
    request.tools = vec![bash_tool()];
    let openai_req = provider.build_request(&request);
    let tools = openai_req.tools.unwrap();
    assert_eq!(tools.len(), 1);
    assert_eq!(tools[0].function.name, "bash");
    assert_eq!(tools[0].kind, "function");
}

#[test]
fn openai_deserializes_text_response() {
    let response = OpenAiResponse {
        choices: vec![OpenAiChoice {
            message: OpenAiMessage {
                role: "assistant".to_string(),
                content: Some("Hello! How can I help?".to_string()),
                tool_calls: None,
                tool_call_id: None,
            },
            finish_reason: Some("stop".to_string()),
        }],
        model: "gpt-4o".to_string(),
        usage: Some(OpenAiUsage { prompt_tokens: 10, completion_tokens: 20 }),
    };
    let llm_response = from_openai_response(response);
    assert_eq!(llm_response.content.len(), 1);
    match &llm_response.content[0] {
        ContentBlock::Text { text } => assert_eq!(text, "Hello! How can I help?"),
        _ => panic!("expected text block"),
    }
    assert_eq!(llm_response.stop_reason, Some("end_turn".to_string()));
    assert_eq!(llm_response.usage.as_ref().unwrap().input_tokens, 10);
    assert_eq!(llm_response.usage.as_ref().unwrap().output_tokens, 20);
}

#[test]
fn deserializes_tool_call_response() {
    let response = OpenAiResponse {
        choices: vec![OpenAiChoice {
            message: OpenAiMessage {
                role: "assistant".to_string(),
                content: Some("Let me check that.".to_string()),
                tool_calls: Some(vec![OpenAiToolCall {
                    id: "call_123".to_string(),
                    kind: "function".to_string(),
                    function: OpenAiFunctionCall {
                        name: "bash".to_string(),
                        arguments: "{\"command\":\"echo hello\"}".to_string(),
                    },
                }]),
                tool_call_id: None,
            },
            finish_reason: Some("tool_calls".to_string()),
        }],
        model: "gpt-4o".to_string(),
        usage: Some(OpenAiUsage { prompt_tokens: 50, completion_tokens: 30 }),
    };
    let llm_response = from_openai_response(response);
    assert_eq!(llm_response.content.len(), 2);
    assert_eq!(llm_response.stop_reason, Some("tool_use".to_string()));
    match &llm_response.content[1] {
        ContentBlock::ToolUse { id, name, input } => {
            assert_eq!(id, "call_123");
            assert_eq!(name, "bash");
            assert_eq!(input, "{\"command\":\"echo hello\"}");
        }
        _ => panic!("expected tool_use block"),
    }
}

#[test]
fn invalid_call_arguments_become_null() {
    let response = OpenAiResponse {
        choices: vec![OpenAiChoice {
            message: OpenAiMessage {
                role: "assistant".to_string(),
                content: Some(String::new()),
                tool_calls: Some(vec![OpenAiToolCall {
                    id: "c".to_string(),
                    kind: "function".to_string(),
                    function: OpenAiFunctionCall {
                        name: "bash".to_string(),
                        arguments: "{broken".to_string(),
                    },
                }]),
                tool_call_id: None,
            },
            finish_reason: Some("length".to_string()),
        }],
        model: "gpt-4o".to_string(),
        usage: None,
    };
    let r = from_openai_response(response);
    assert_eq!(r.content.len(), 1);
    assert_eq!(
        r.content[0],
        ContentBlock::ToolUse { id: "c".to_string(), name: "bash".to_string(), input: "null".to_string() }
    );
    assert_eq!(r.stop_reason.as_deref(), Some("length"));
    assert_eq!(map_stop_reason("stop"), "end_turn");
    assert_eq!(map_stop_reason("tool_calls"), "tool_use");
}

fn chunk(content: Option<&str>, calls: Option<Vec<OpenAiStreamToolCallDelta>>, finish: Option<&str>) -> OpenAiStreamChunk {
    OpenAiStreamChunk {
        choices: vec![OpenAiStreamChoice {
            delta: OpenAiStreamDelta {
                content: content.map(|s| s.to_string()),
                tool_calls: calls,
            },
            finish_reason: finish.map(|s| s.to_string()),
        }],
        usage: None,
    }
}

#[test]
fn parses_text_stream_chunk() {
    let events = parse_stream_chunk(&chunk(Some("Hello"), None, None)).unwrap();
    assert_eq!(events.len(), 1);
    assert!(matches!(&events[0], StreamEvent::TextDelta(t) if t == "Hello"));
}

#[test]
fn parses_tool_call_stream_chunks() {
    let data1 = chunk(
        None,
        Some(vec![OpenAiStreamToolCallDelta {
            index: 0,
            id: Some("call_123".to_string()),
            function: Some(OpenAiStreamFunctionDelta {
                name: Some("bash".to_string()),
                arguments: Some(String::new()),
            }),
        }]),
        None,
    );
    let events1 = parse_stream_chunk(&data1).unwrap();
    assert!(
        matches!(&events1[0], StreamEvent::ToolUseStart { id, name, .. } if id == "call_123" && name == "bash")
    );
    assert_eq!(events1.len(), 1);

    let data2 = chunk(
        None,
        Some(vec![OpenAiStreamToolCallDelta {
            index: 0,
            id: None,
            function: Some(OpenAiStreamFunctionDelta {
                name: None,
                arguments: Some("{\"cmd\":".to_string()),
            }),
        }]),
        None,
    );
    let events2 = parse_stream_chunk(&data2).unwrap();
    assert!(matches!(&events2[0], StreamEvent::InputJsonDelta(s) if s == r#"{"cmd":"#));
}

#[test]
fn parses_finish_reason_stop() {
    let events = parse_stream_chunk(&chunk(None, None, Some("stop"))).unwrap();
    assert!(
        matches!(&events[0], StreamEvent::MessageDelta { stop_reason: Some(r), .. } if r == "end_turn")
    );
}

#[test]
fn parses_finish_reason_tool_calls() {
    let events = parse_stream_chunk(&chunk(None, None, Some("tool_calls"))).unwrap();
    assert!(
        matches!(&events[0], StreamEvent::MessageDelta { stop_reason: Some(r), .. } if r == "tool_use")
    );
}

#[test]
fn empty_chunk_has_no_events() {
    assert!(parse_stream_chunk(&chunk(Some(""), None, None)).is_none());
    let none = OpenAiStreamChunk { choices: vec![], usage: None };
    assert!(parse_stream_chunk(&none).is_none());
    let mut last = chunk(None, None, Some("stop"));
    last.usage = Some(OpenAiUsage { prompt_tokens: 1, completion_tokens: 2 });
    let events = parse_stream_chunk(&last).unwrap();
    assert_eq!(
        events[0],
        StreamEvent::MessageDelta {
            stop_reason: Some("end_turn".to_string()),
            usage: Some(Usage { input_tokens: 1, output_tokens: 2 })
        }
    );
}

#[test]
fn sse_blocks_carry_data_or_done() {
    assert_eq!(sse_data("data: [DONE]"), Some(SseData::Done));
    assert_eq!(
        sse_data(": keep-alive\ndata: {\"a\":1}\ndata: {\"b\":2}"),
        Some(SseData::Data("{\"b\":2}".to_string()))
    );
    assert_eq!(sse_data("event: ping"), None);
    assert_eq!(sse_data("data:{}"), None);
    let usage = Some(Usage { input_tokens: 1, output_tokens: 2 });
    let relayed = relayed_events(vec![
        StreamEvent::MessageDelta { stop_reason: Some("a".to_string()), usage },
        StreamEvent::TextDelta("t".to_string()),
        StreamEvent::MessageDelta { stop_reason: Some("b".to_string()), usage },
    ]);
    assert_eq!(relayed[0], StreamEvent::MessageDelta { stop_reason: Some("a".to_string()), usage });
    assert_eq!(relayed[1], StreamEvent::TextDelta("t".to_string()));
    assert_eq!(relayed[2], StreamEvent::MessageDelta { stop_reason: Some("b".to_string()), usage: None });
}

#[test]
fn done_sentinel_returns_none() {
    // The end marker carries no chunk to parse.
    assert_eq!(sse_data("data: [DONE]"), Some(SseData::Done));
    assert!(parse_stream_chunk(&OpenAiStreamChunk { choices: vec![], usage: None }).is_none());
}
