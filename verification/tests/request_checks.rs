use opencrust::codex::{function_call_events, message_text_events, response_completed_events, response_failed_error};
use opencrust::line_hook::body_events;
use opencrust::mqtt::{detect, detect_fields, DetectedMessage, MultiUserPayload};
use opencrust::providers::{StreamEvent, Usage};
use opencrust::slack_hook::{socket_frame, SlackAction, SlackMessage};
use base64::Engine;
use opencrust::cli::{stop_wait, StopWait, STOP_POLLS};
use opencrust::line_hook::post_check as line_post_check;
use opencrust::wechat_fmt::{extract_xml_field, reply_xml_at};
use opencrust::wechat_hook::{post_check as wechat_post_check, WeChatWebhookParams};
use ring::hmac;

fn line_sig(secret: &str, body: &[u8]) -> String {
    let key = hmac::Key::new(hmac::HMAC_SHA256, secret.as_bytes());
    base64::engine::general_purpose::STANDARD.encode(hmac::sign(&key, body).as_ref())
}

fn wechat_sig(token: &str, timestamp: &str, nonce: &str) -> String {
    let mut parts = [token, timestamp, nonce];
    parts.sort();
    let joined = parts.concat();
    let digest = ring::digest::digest(&ring::digest::SHA1_FOR_LEGACY_USE_ONLY, joined.as_bytes());
    digest.as_ref().iter().map(|b| format!("{b:02x}")).collect()
}

#[test]
fn line_post_statuses() {
    let secrets = vec!["a".to_string(), "b".to_string()];
    let body = b"{\"events\":[]}";
    assert_eq!(line_post_check(&secrets, body, &line_sig("b", body)), Ok(1));
    assert_eq!(line_post_check(&secrets, body, "bad"), Err(401));
    let broken = b"{not json";
    assert_eq!(line_post_check(&secrets, broken, &line_sig("a", broken)), Err(400));
}

#[test]
fn wechat_post_statuses() {
    let tokens = vec!["tok".to_string()];
    let params = WeChatWebhookParams {
        signature: Some(wechat_sig("tok", "1", "n")),
        timestamp: Some("1".to_string()),
        nonce: Some("n".to_string()),
        echostr: None,
    };
    assert_eq!(wechat_post_check(&tokens, &params, b"<xml/>"), Ok((0, "<xml/>".to_string())));
    assert_eq!(wechat_post_check(&tokens, &params, &[0xff, 0xfe]), Err(400));
    let unsigned = WeChatWebhookParams { signature: Some("x".to_string()), ..params };
    assert_eq!(wechat_post_check(&tokens, &unsigned, b"<xml/>"), Err(401));
}

#[test]
fn reply_fields_read_back() {
    let xml = reply_xml_at("oUser", "gh_acct", "hello there", 1700000000);
    assert_eq!(extract_xml_field(&xml, "ToUserName").as_deref(), Some("oUser"));
    assert_eq!(extract_xml_field(&xml, "FromUserName").as_deref(), Some("gh_acct"));
    assert_eq!(extract_xml_field(&xml, "MsgType").as_deref(), Some("text"));
    assert_eq!(extract_xml_field(&xml, "Content").as_deref(), Some("hello there"));
    assert_eq!(extract_xml_field(&xml, "CreateTime").as_deref(), Some("1700000000"));
}

#[test]
fn stopping_waits_twenty_checks() {
    assert_eq!(stop_wait(1, false), StopWait::Stopped);
    assert_eq!(stop_wait(1, true), StopWait::Poll);
    assert_eq!(stop_wait(STOP_POLLS - 1, true), StopWait::Poll);
    assert_eq!(stop_wait(STOP_POLLS, true), StopWait::GiveUp);
    assert_eq!(stop_wait(STOP_POLLS, false), StopWait::Stopped);
}

#[test]
fn reply_fields_with_brackets_read_back() {
    let xml = reply_xml_at("o]u", "g]]h", "a ]] b ]", 5);
    assert_eq!(extract_xml_field(&xml, "ToUserName").as_deref(), Some("o]u"));
    assert_eq!(extract_xml_field(&xml, "FromUserName").as_deref(), Some("g]]h"));
    assert_eq!(extract_xml_field(&xml, "Content").as_deref(), Some("a ]] b ]"));
}

#[test]
fn hints_split_by_trimmed_lines() {
    let (hints, body) = opencrust::hints::split_hints("  \n\u{1F527} one\nbody a\n  \u{1F527} two  \n\nbody b\n");
    assert_eq!(hints.as_deref(), Some("\u{1F527} one\n\u{1F527} two"));
    assert_eq!(body, "body a\n\nbody b");
}

// ── raw frames and bodies read inside the library ────────────────────────────


#[test]
fn slack_raw_frames() {
    assert_eq!(socket_frame("not json"), SlackAction::Ignore);
    assert_eq!(socket_frame(r#"{"type":"hello"}"#), SlackAction::Ignore);
    assert_eq!(socket_frame(r#"{"type":"disconnect"}"#), SlackAction::Reconnect);
    assert_eq!(
        socket_frame(
            r#"{"type":"events_api","envelope_id":"E1","payload":{"event":{"type":"message","channel":"C1","user":"U1","text":"hi"}}}"#
        ),
        SlackAction::Event {
            ack: Some("E1".to_string()),
            message: Some(SlackMessage { channel_id: "C1".to_string(), user_id: "U1".to_string(), text: "hi".to_string() }),
        }
    );
    assert_eq!(
        socket_frame(r#"{"type":"events_api","payload":{"event":{"type":"message","subtype":"message_changed","text":"x"}}}"#),
        SlackAction::Event { ack: None, message: None }
    );
    assert_eq!(
        socket_frame(r#"{"type":"events_api","envelope_id":"E3","payload":{"event":{"type":"message","text":"   "}}}"#),
        SlackAction::Event { ack: Some("E3".to_string()), message: None }
    );
}

#[test]
fn line_raw_body_events() {
    let body = br#"{"events":[
        {"type":"message","replyToken":"r1","source":{"type":"user","userId":"U1"},"message":{"type":"text","text":"hi"}},
        {"type":"follow","source":{"type":"user","userId":"U2"}},
        {"type":"message","replyToken":"r3","source":{"type":"group","groupId":"G1","userId":"U3"},"message":{"type":"text","text":"yo"}},
        {"type":"message","source":{"type":"room","roomId":"R1","userId":"U5"},"message":{"type":"text","text":"room msg"}}
    ]}"#;
    let evs = body_events(body, true);
    assert_eq!(evs.len(), 3);
    assert_eq!((evs[0].user_id.as_str(), evs[0].context_id.as_str(), evs[0].reply_token.as_str()), ("U1", "U1", "r1"));
    assert!(!evs[0].is_group);
    assert_eq!((evs[1].context_id.as_str(), evs[1].text.as_str()), ("G1", "yo"));
    assert!(evs[1].is_group);
    assert_eq!(evs[2].context_id, "R1");
    assert_eq!(evs[2].reply_token, "");
    assert_eq!(body_events(body, false).len(), 1);
    assert!(body_events(b"{broken", true).is_empty());
    assert!(body_events(b"{\"events\":3}", true).is_empty());
}

#[test]
fn codex_events_from_read_fields() {
    let evs = function_call_events(Some("c1".to_string()), Some("lookup".to_string()), None);
    assert_eq!(evs.len(), 3);
    assert!(matches!(&evs[1], StreamEvent::InputJsonDelta(a) if a == "{}"));
    assert!(function_call_events(Some("c1".to_string()), None, Some("{}".to_string())).is_empty());
    assert!(message_text_events(String::new()).is_empty());
    assert!(matches!(&message_text_events("hi".to_string())[0], StreamEvent::TextDelta(t) if t == "hi"));
    let done = response_completed_events(Some(Usage { input_tokens: 1, output_tokens: 2 }));
    assert!(matches!(&done[0], StreamEvent::MessageDelta { stop_reason: Some(r), usage: Some(_) } if r == "end_turn"));
    assert!(matches!(done[1], StreamEvent::MessageStop));
    assert_eq!(response_failed_error(None).message(), "codex response failed");
    assert_eq!(response_failed_error(Some("quota".to_string())).message(), "quota");
}

#[test]
fn mqtt_detect_from_fields() {
    assert_eq!(
        detect_fields("{}".to_string(), Some("hi".to_string()), Some("u1".to_string()), None),
        DetectedMessage::Multi(MultiUserPayload { user_id: "u1".to_string(), text: "hi".to_string(), session_id: None })
    );
    assert_eq!(
        detect_fields("raw".to_string(), Some("hi".to_string()), None, None),
        DetectedMessage::Simple { text: "raw".to_string() }
    );
    assert_eq!(
        detect(br#"{"user_id":"u","text":"t","session_id":"s"}"#),
        DetectedMessage::Multi(MultiUserPayload { user_id: "u".to_string(), text: "t".to_string(), session_id: Some("s".to_string()) })
    );
}
