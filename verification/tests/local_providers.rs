use opencrust::embeddings::{CohereEmbeddingProvider, OllamaEmbeddingProvider};
use opencrust::ollama::{
    image_data_of, next_line, ollama_response, ollama_stream_response, remaining_line, to_ollama_message,
    OllamaProvider, OllamaResponse,
};
use opencrust::providers::{ChatMessage, ChatRole, ContentBlock, LlmRequest, MessagePart, Usage};

// ── embeddings ───────────────────────────────────────────────────────────────

#[test]
fn builds_expected_request_shape() {
    let provider = CohereEmbeddingProvider::new(
        "test-key".to_string(),
        Some("embed-english-v3.0".into()),
        None,
    );
    let body = provider.build_request_body(
        &vec!["hello".to_string(), "world".to_string()],
        "search_document",
    );
    assert_eq!(body.model, "embed-english-v3.0");
    assert_eq!(body.input_type, "search_document");
    assert_eq!(body.embedding_types, vec!["float".to_string()]);
    assert_eq!(body.texts.len(), 2);
    assert_eq!(body.truncate, "END");
}

#[test]
fn endpoint_is_normalized_without_double_slashes() {
    let provider = CohereEmbeddingProvider::new(
        "test-key".to_string(),
        Some("embed-english-v3.0".into()),
        Some("https://api.cohere.com/".into()),
    );
    assert_eq!(provider.endpoint(), "https://api.cohere.com/v1/embed");
    assert_eq!(provider.provider_id(), "cohere");
}

#[test]
fn ollama_defaults() {
    let provider = OllamaEmbeddingProvider::new(None, None);
    assert_eq!(provider.provider_id(), "ollama");
    assert_eq!(provider.model, "nomic-embed-text");
    assert_eq!(provider.endpoint(), "http://localhost:11434/api/embed");
}

#[test]
fn ollama_custom_config() {
    let provider = OllamaEmbeddingProvider::new(
        Some("mxbai-embed-large".into()),
        Some("http://gpu-server:11434/".into()),
    );
    assert_eq!(provider.model, "mxbai-embed-large");
    assert_eq!(provider.endpoint(), "http://gpu-server:11434/api/embed");
    let body = provider.build_request_body(&vec!["a".to_string()]);
    assert_eq!(body.model, "mxbai-embed-large");
    assert_eq!(body.input, vec!["a".to_string()]);
}

// ── Ollama chat ──────────────────────────────────────────────────────────────

#[test]
fn request_serialization_includes_options() {
    let provider = OllamaProvider::new(None, None);
    let req = LlmRequest {
        model: "llama3".to_string(),
        messages: vec![ChatMessage {
            role: ChatRole::User,
            content: MessagePart::Text("Hello".to_string()),
        }],
        system: None,
        max_tokens: Some(100),
        temperature_milli: Some(700),
        tools: vec![],
    };

    let body = provider.build_request_body(&req, false);

    assert_eq!(body.model, "llama3");
    assert!(!body.stream);
    assert_eq!(body.messages[0].role, "user");
    assert_eq!(body.messages[0].content, "Hello");
    assert_eq!(body.temperature_milli, Some(700));
    assert_eq!(body.num_predict, Some(100));
}

#[test]
fn ollama_provider_defaults_and_images() {
    let provider = OllamaProvider::new(None, None);
    assert_eq!(provider.model, "llama3.1");
    assert_eq!(provider.chat_endpoint(), "http://localhost:11434/api/chat");
    assert_eq!(provider.tags_endpoint(), "http://localhost:11434/api/tags");
    assert_eq!(image_data_of("data:image/png;base64,QUJD"), "QUJD");
    assert_eq!(image_data_of("data:image/png,raw"), "data:image/png,raw");
    assert_eq!(image_data_of("http://x/y.png"), "http://x/y.png");
    let m = to_ollama_message(&ChatMessage {
        role: ChatRole::Assistant,
        content: MessagePart::Parts(vec![
            ContentBlock::Text { text: "a".to_string() },
            ContentBlock::Image { url: "data:image/jpeg;base64,Zm9v".to_string() },
            ContentBlock::Text { text: "b".to_string() },
            ContentBlock::ToolResult { tool_use_id: "t".to_string(), content: "x".to_string() },
        ]),
    });
    assert_eq!(m.role, "assistant");
    assert_eq!(m.content, "a\nb");
    assert_eq!(m.images, vec!["Zm9v".to_string()]);
}

#[test]
fn ollama_answers_are_read() {
    let done = OllamaResponse {
        model: "llama3".to_string(),
        message: Some("hi".to_string()),
        done: true,
        eval_count: 5,
        prompt_eval_count: 3,
    };
    let r = ollama_response(done.clone());
    assert_eq!(r.content, vec![ContentBlock::Text { text: "hi".to_string() }]);
    assert_eq!(r.usage, Some(Usage { input_tokens: 3, output_tokens: 5 }));
    assert_eq!(r.stop_reason.as_deref(), Some("stop"));
    let piece = OllamaResponse { done: false, message: None, ..done };
    let r = ollama_stream_response(piece.clone());
    assert!(r.content.is_empty());
    assert_eq!(r.usage, None);
    assert_eq!(r.stop_reason, None);
    let r = ollama_response(piece);
    assert_eq!(r.usage, Some(Usage { input_tokens: 3, output_tokens: 5 }));
}

#[test]
fn stream_lines_are_framed() {
    let mut buf = b"{\"a\":1}\n\n{\"b\":2}\n{\"c\"".to_vec();
    assert_eq!(next_line(&mut buf).as_deref(), Some("{\"a\":1}"));
    assert_eq!(next_line(&mut buf).as_deref(), Some("{\"b\":2}"));
    assert_eq!(next_line(&mut buf), None);
    assert_eq!(buf, b"{\"c\"".to_vec());
    let mut blank = b"\n\n".to_vec();
    assert_eq!(next_line(&mut blank), None);
    assert!(blank.is_empty());
}

// The Ollama scenarios below feed the library what the chat endpoint answers:
// one JSON object, or a stream of newline-separated objects.

fn ollama_answer(line: &str) -> OllamaResponse {
    let v: serde_json::Value = serde_json::from_str(line).unwrap();
    OllamaResponse {
        model: v["model"].as_str().unwrap_or_default().to_string(),
        message: v["message"]["content"].as_str().map(|s| s.to_string()),
        done: v["done"].as_bool().unwrap_or(false),
        eval_count: v["eval_count"].as_u64().unwrap_or(0) as u32,
        prompt_eval_count: v["prompt_eval_count"].as_u64().unwrap_or(0) as u32,
    }
}

#[test]
fn complete_works() {
    let body = r#"{"model":"llama3","message":{"content":"Hello World"},"done":true,"prompt_eval_count":10,"eval_count":5}"#;
    let res = ollama_response(ollama_answer(body));
    match &res.content[0] {
        ContentBlock::Text { text } => assert_eq!(text, "Hello World"),
        _ => panic!("expected text content"),
    }
}

#[test]
fn stream_complete_works() {
    let body = "{\"model\":\"llama3\",\"message\":{\"content\":\"Hello\"},\"done\":false}\n{\"model\":\"llama3\",\"message\":{\"content\":\" World\"},\"done\":true}";
    let mut buffer = body.as_bytes().to_vec();
    let mut lines = Vec::new();
    while let Some(line) = next_line(&mut buffer) {
        lines.push(line);
    }
    if let Some(last) = remaining_line(buffer) {
        lines.push(last);
    }
    let mut full_text = String::new();
    for line in &lines {
        let chunk = ollama_stream_response(ollama_answer(line));
        if let Some(ContentBlock::Text { text }) = chunk.content.first() {
            full_text.push_str(text);
        }
    }
    assert_eq!(full_text, "Hello World");
}

#[test]
fn remaining_line_keeps_unfinished_tail() {
    assert_eq!(remaining_line(b"{\"c\":3}".to_vec()).as_deref(), Some("{\"c\":3}"));
    assert_eq!(remaining_line(Vec::new()), None);
}
