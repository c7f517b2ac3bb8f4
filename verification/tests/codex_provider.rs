use opencrust::codex::take_event_block;
use base64::Engine;
use opencrust::codex::{
    model_slugs, parse_codex_id_token_claims, parse_sse_chunk, parse_sse_events, push_message_items,
    retry_after, split_text, CodexAuthConfig, CodexItem, CodexPart, CodexProvider,
};
use opencrust::providers::{
    ChatMessage, ChatRole, ContentBlock, LlmRequest, MessagePart, StreamEvent, ToolDefinition, Usage,
};

fn provider() -> CodexProvider {
    CodexProvider::new(
        CodexAuthConfig {
            access_token: Some("at".to_string()),
            refresh_token: Some("  ".to_string()),
            account_id: None,
            id_token: None,
        },
        None,
        None,
    )
}

// ── server-sent events ───────────────────────────────────────────────────────

#[test]
fn parse_sse_events_parses_text_tool_and_usage() {
    let body = [
        "event: response.output_text.delta\n",
        "data: {\"delta\":\"Hello\"}\n\n",
        "event: response.output_item.done\n",
        "data: {\"item\":{\"type\":\"function_call\",\"call_id\":\"call-1\",\"name\":\"lookup\",\"arguments\":\"{\\\"city\\\":\\\"Paris\\\"}\"}}\n\n",
        "event: response.completed\n",
        "data: {\"response\":{\"usage\":{\"input_tokens\":12,\"output_tokens\":34}}}\n\n"
    ]
    .concat();

    let events = parse_sse_events(body.as_bytes()).expect("parse SSE events");

    assert_eq!(events.len(), 6);
    assert!(matches!(&events[0], StreamEvent::TextDelta(text) if text == "Hello"));
    assert!(matches!(
        &events[1],
        StreamEvent::ToolUseStart { index: 0, id, name }
        if id == "call-1" && name == "lookup"
    ));
    assert!(matches!(
        &events[2],
        StreamEvent::InputJsonDelta(arguments) if arguments == "{\"city\":\"Paris\"}"
    ));
    assert!(matches!(
        &events[3],
        StreamEvent::ContentBlockStop { index: 0 }
    ));
    assert!(matches!(
        &events[4],
        StreamEvent::MessageDelta {
            stop_reason: Some(reason),
            usage: Some(Usage {
                input_tokens: 12,
                output_tokens: 34,
            }),
        } if reason == "end_turn"
    ));
    assert!(matches!(&events[5], StreamEvent::MessageStop));
}

#[test]
fn parse_sse_events_uses_message_text_when_no_delta_arrives() {
    let body = [
        "event: response.output_item.done\n",
        "data: {\"item\":{\"type\":\"message\",\"content\":[{\"type\":\"output_text\",\"text\":\"Hello \"},{\"type\":\"output_text\",\"text\":\"world\"}]}}\n\n",
        "event: response.completed\n",
        "data: {\"response\":{\"usage\":{\"input_tokens\":1,\"output_tokens\":2}}}\n\n"
    ]
    .concat();

    let events = parse_sse_events(body.as_bytes()).expect("parse SSE events");

    assert!(matches!(
        &events[0],
        StreamEvent::TextDelta(text) if text == "Hello world"
    ));
    assert!(matches!(events.last(), Some(StreamEvent::MessageStop)));
}

#[test]
fn parse_sse_events_returns_error_for_failed_response() {
    let body = [
        "event: response.failed\n",
        "data: {\"response\":{\"error\":{\"message\":\"model exploded\"}}}\n\n"
    ]
    .concat();

    let err = parse_sse_events(body.as_bytes()).expect_err("failed response should error");

    assert!(err.message().contains("model exploded"));
}

#[test]
fn parse_sse_events_adds_message_stop_when_completed_missing() {
    let body = [
        "event: response.output_text.delta\n",
        "data: {\"delta\":\"partial\"}\n\n"
    ]
    .concat();

    let events = parse_sse_events(body.as_bytes()).expect("parse SSE events");

    assert_eq!(events.len(), 2);
    assert!(matches!(&events[0], StreamEvent::TextDelta(text) if text == "partial"));
    assert!(matches!(&events[1], StreamEvent::MessageStop));
}

#[test]
fn message_text_is_skipped_after_streamed_deltas() {
    let body = [
        "event: response.output_text.delta\n",
        "data: {\"delta\":\"Hi\"}\n\n",
        "event: response.output_item.done\n",
        "data: {\"item\":{\"type\":\"message\",\"content\":[{\"type\":\"output_text\",\"text\":\"Hi\"}]}}\n\n",
    ]
    .concat();
    let events = parse_sse_events(body.as_bytes()).unwrap();
    assert_eq!(
        events,
        vec![StreamEvent::TextDelta("Hi".to_string()), StreamEvent::MessageStop]
    );
}

#[test]
fn sse_errors_and_ignored_chunks() {
    assert_eq!(
        parse_sse_events(b"event: x\ndata: {oops\n\n").unwrap_err().message(),
        format!(
            "failed to parse codex SSE payload: {}",
            serde_json::from_str::<serde_json::Value>("{oops").unwrap_err()
        )
    );
    assert!(parse_sse_events(b"\xff\xfe")
        .unwrap_err()
        .message()
        .starts_with("invalid UTF-8 in codex SSE body: "));
    assert_eq!(
        parse_sse_events(b"data: {}\n\n: comment\n\n").unwrap(),
        vec![StreamEvent::MessageStop]
    );
    let mut saw = false;
    assert_eq!(
        parse_sse_chunk("event: response.failed\ndata: {}", &mut saw).unwrap_err().message(),
        "codex response failed"
    );
    let events = parse_sse_chunk(
        "event: response.output_item.done\ndata: {\"item\":{\"type\":\"function_call\",\"call_id\":\"c\",\"name\":\"n\"}}",
        &mut saw,
    )
    .unwrap();
    assert_eq!(events[1], StreamEvent::InputJsonDelta("{}".to_string()));
    assert_eq!(split_text("a\n\n\nb", "\n\n"), vec!["a".to_string(), "\nb".to_string()]);
}

// ── request building ─────────────────────────────────────────────────────────

#[test]
fn provider_defaults_and_endpoints() {
    let p = provider();
    assert_eq!(p.model, "gpt-5.3-codex");
    assert_eq!(p.responses_endpoint(), "https://chatgpt.com/backend-api/codex/responses");
    assert_eq!(p.models_endpoint(), "https://chatgpt.com/backend-api/codex/models");
    assert_eq!(p.token_endpoint(), "https://auth.openai.com/oauth/token");
    assert_eq!(p.auth.refresh_token, None);
    assert!(!p.needs_refresh());
    assert_eq!(p.refresh_token().unwrap_err().message(), "codex oauth refresh token missing");
    assert_eq!(p.access_token().unwrap(), "at");
    assert!(retry_after(401, 0));
    assert!(!retry_after(401, 1));
    assert!(!retry_after(200, 0));
}

#[test]
fn refresh_answer_updates_tokens() {
    let mut p = provider();
    let claims = parse_codex_id_token_claims(&id_token("acct-9")).ok();
    p.apply_refresh(None, Some("rt2".to_string()), Some("idt".to_string()), claims);
    assert_eq!(p.auth.access_token.as_deref(), Some("at"));
    assert_eq!(p.auth.refresh_token.as_deref(), Some("rt2"));
    assert_eq!(p.auth.id_token.as_deref(), Some("idt"));
    assert_eq!(p.auth.account_id.as_deref(), Some("acct-9"));
    p.apply_refresh(Some("at2".to_string()), None, None, None);
    assert_eq!(p.auth.access_token.as_deref(), Some("at2"));
    assert_eq!(p.auth.account_id.as_deref(), Some("acct-9"));
}

#[test]
fn messages_become_input_items() {
    let mut input = Vec::new();
    push_message_items(
        &mut input,
        &ChatMessage {
            role: ChatRole::User,
            content: MessagePart::Parts(vec![
                ContentBlock::Text { text: "look".to_string() },
                ContentBlock::ToolResult { tool_use_id: "c1".to_string(), content: "out".to_string() },
                ContentBlock::Image { url: "http://i".to_string() },
            ]),
        },
    );
    assert_eq!(
        input,
        vec![
            CodexItem::FunctionCallOutput { call_id: "c1".to_string(), output: "out".to_string() },
            CodexItem::Message {
                role: "user".to_string(),
                content: vec![
                    CodexPart::InputText("look".to_string()),
                    CodexPart::InputImage("http://i".to_string())
                ]
            },
        ]
    );
    let mut only_results = Vec::new();
    push_message_items(
        &mut only_results,
        &ChatMessage {
            role: ChatRole::User,
            content: MessagePart::Parts(vec![ContentBlock::ToolResult {
                tool_use_id: "c1".to_string(),
                content: "out".to_string(),
            }]),
        },
    );
    assert_eq!(only_results.len(), 1);
    let mut empty = Vec::new();
    push_message_items(
        &mut empty,
        &ChatMessage { role: ChatRole::User, content: MessagePart::Parts(vec![]) },
    );
    assert_eq!(empty, vec![CodexItem::Message { role: "user".to_string(), content: vec![] }]);
}

#[test]
fn build_request_shape() {
    let p = provider();
    let request = LlmRequest {
        model: "  gpt-x  ".to_string(),
        messages: vec![
            ChatMessage { role: ChatRole::System, content: MessagePart::Text("sys".to_string()) },
            ChatMessage {
                role: ChatRole::Assistant,
                content: MessagePart::Parts(vec![
                    ContentBlock::Text { text: "calling".to_string() },
                    ContentBlock::ToolUse {
                        id: "c1".to_string(),
                        name: "bash".to_string(),
                        input: "{\"command\":\"ls\"}".to_string(),
                    },
                ]),
            },
            ChatMessage { role: ChatRole::Tool, content: MessagePart::Text("done".to_string()) },
        ],
        system: None,
        max_tokens: None,
        temperature_milli: None,
        tools: vec![ToolDefinition {
            name: "bash".to_string(),
            description: "run".to_string(),
            input_schema: "{}".to_string(),
        }],
    };
    let r = p.build_request(&request, true);
    assert_eq!(r.model, "gpt-x");
    assert_eq!(r.instructions, "");
    assert_eq!(
        r.input,
        vec![
            CodexItem::FunctionCall {
                call_id: "c1".to_string(),
                name: "bash".to_string(),
                arguments: "{\"command\":\"ls\"}".to_string()
            },
            CodexItem::Message {
                role: "assistant".to_string(),
                content: vec![CodexPart::OutputText("calling".to_string())]
            },
            CodexItem::Message {
                role: "tool".to_string(),
                content: vec![CodexPart::InputText("done".to_string())]
            },
        ]
    );
    assert_eq!(r.tools[0].parameters, "{}");
    assert_eq!(r.tool_choice, "auto");
    assert!(r.parallel_tool_calls && !r.store && r.stream);
    let blank = LlmRequest { model: " ".to_string(), ..request };
    assert_eq!(p.build_request(&blank, false).model, "gpt-5.3-codex");
}

#[test]
fn answer_is_rebuilt_from_events() {
    let p = provider();
    let request = LlmRequest {
        model: String::new(),
        messages: vec![],
        system: None,
        max_tokens: None,
        temperature_milli: None,
        tools: vec![],
    };
    let events = vec![
        StreamEvent::TextDelta("Hel".to_string()),
        StreamEvent::TextDelta("lo".to_string()),
        StreamEvent::ToolUseStart { index: 0, id: "c1".to_string(), name: "bash".to_string() },
        StreamEvent::InputJsonDelta("{\"a\": ".to_string()),
        StreamEvent::InputJsonDelta("1}".to_string()),
        StreamEvent::ContentBlockStop { index: 0 },
        StreamEvent::ToolUseStart { index: 1, id: "c2".to_string(), name: "x".to_string() },
        StreamEvent::InputJsonDelta("not json".to_string()),
        StreamEvent::MessageDelta { stop_reason: Some("end_turn".to_string()), usage: None },
        StreamEvent::MessageDelta {
            stop_reason: None,
            usage: Some(Usage { input_tokens: 1, output_tokens: 2 }),
        },
        StreamEvent::MessageStop,
    ];
    let r = p.response_from_stream_events(&request, &events);
    assert_eq!(r.model, "gpt-5.3-codex");
    assert_eq!(
        r.content,
        vec![
            ContentBlock::Text { text: "Hello".to_string() },
            ContentBlock::ToolUse { id: "c1".to_string(), name: "bash".to_string(), input: "{\"a\":1}".to_string() },
            ContentBlock::ToolUse { id: "c2".to_string(), name: "x".to_string(), input: "{}".to_string() },
        ]
    );
    assert_eq!(r.stop_reason.as_deref(), Some("end_turn"));
    assert_eq!(r.usage, Some(Usage { input_tokens: 1, output_tokens: 2 }));
}

// ── identity tokens and models ───────────────────────────────────────────────

fn id_token(account_id: &str) -> String {
    let header = base64::engine::general_purpose::URL_SAFE_NO_PAD.encode(r#"{"alg":"none"}"#);
    let payload = base64::engine::general_purpose::URL_SAFE_NO_PAD.encode(format!(
        r#"{{"https://api.openai.com/auth":{{"chatgpt_account_id":"{account_id}","chatgpt_user_id":"user-123","chatgpt_plan_type":"plus"}},"https://api.openai.com/profile":{{"email":"a@b.c"}}}}"#
    ));
    format!("{header}.{payload}.signature")
}

#[test]
fn id_token_claims_are_read() {
    let claims = parse_codex_id_token_claims(&id_token("acct-1")).unwrap();
    assert_eq!(claims.account_id.as_deref(), Some("acct-1"));
    assert_eq!(claims.user_id.as_deref(), Some("user-123"));
    assert_eq!(claims.plan_type.as_deref(), Some("plus"));
    assert_eq!(claims.email.as_deref(), Some("a@b.c"));
    assert_eq!(parse_codex_id_token_claims("a.b").unwrap_err(), "invalid id token format");
    assert_eq!(parse_codex_id_token_claims("a..c").unwrap_err(), "invalid id token format");
    assert!(parse_codex_id_token_claims("a.!!!.c")
        .unwrap_err()
        .starts_with("failed to decode id token payload: "));
    let not_json = base64::engine::general_purpose::URL_SAFE_NO_PAD.encode("nope");
    assert!(parse_codex_id_token_claims(&format!("a.{not_json}.c"))
        .unwrap_err()
        .starts_with("failed to parse id token payload: "));
}

#[test]
fn models_are_listed_by_slug() {
    assert_eq!(
        model_slugs(r#"{"models":[{"slug":"gpt-5"},{"name":"x"},{"slug":"gpt-5-mini"}]}"#),
        vec!["gpt-5".to_string(), "gpt-5-mini".to_string()]
    );
    assert!(model_slugs("{}").is_empty());
    assert!(model_slugs("[]").is_empty());
}

#[test]
fn stream_buffer_yields_complete_events() {
    let mut buf = "event: a\ndata: 1\n\nevent: b".to_string();
    assert_eq!(take_event_block(&mut buf).as_deref(), Some("event: a\ndata: 1"));
    assert_eq!(buf, "event: b");
    assert_eq!(take_event_block(&mut buf), None);
    assert_eq!(buf, "event: b");
}

// The refresh scenarios below follow the provider: it sends the stored refresh
// token to the issuer and takes the issuer's answer, or reports the refusal.

#[test]
fn refresh_access_token_updates_tokens_and_account_id() {
    let next_id_token = id_token("acct-456");
    let mut p = CodexProvider::new(
        CodexAuthConfig {
            access_token: Some("old-access".to_string()),
            refresh_token: Some("old-refresh".to_string()),
            account_id: None,
            id_token: None,
        },
        None,
        None,
    );
    assert_eq!(p.refresh_token().unwrap(), "old-refresh");
    let claims = parse_codex_id_token_claims(&next_id_token).ok();
    p.apply_refresh(
        Some("next-access".to_string()),
        Some("next-refresh".to_string()),
        Some(next_id_token.clone()),
        claims,
    );
    assert_eq!(p.auth.access_token.as_deref(), Some("next-access"));
    assert_eq!(p.auth.refresh_token.as_deref(), Some("next-refresh"));
    assert_eq!(p.auth.account_id.as_deref(), Some("acct-456"));
    assert_eq!(p.auth.id_token.as_deref(), Some(next_id_token.as_str()));
}

#[test]
fn refresh_access_token_surfaces_http_error_body() {
    let p = CodexProvider::new(
        CodexAuthConfig {
            access_token: None,
            refresh_token: Some("stale-refresh".to_string()),
            account_id: None,
            id_token: None,
        },
        None,
        None,
    );
    assert!(p.needs_refresh());
    let err = p.refresh_failed("401 Unauthorized", "invalid_grant").message();
    assert!(err.contains("401 Unauthorized"));
    assert!(err.contains("invalid_grant"));
}
