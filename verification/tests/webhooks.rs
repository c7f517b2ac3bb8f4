use base64::Engine;
use opencrust::crypto::{base64_encode, constant_time_eq, hmac_sha256_tag, sha1_digest, to_hex};
use opencrust::json::JsonValue;
use opencrust::line_hook::{line_delivery, line_events, matching_channel, verify_signature};
use opencrust::slack_hook::{socket_event, SlackAction, SlackMessage, SlackStream, StreamStep};
use opencrust::wechat_hook::{
    async_reply, inbound, matching_channel as wechat_matching_channel, str_le, sync_reply, verify_response as wechat_verify,
    verify_signature as wechat_verify_signature, WeChatWebhookParams,
};
use opencrust::whatsapp_hook::{
    channel_for, reply_text, verify_response as whatsapp_verify, whatsapp_messages, VerifyParams,
};
use ring::hmac;

/// The library's JSON value for a parsed `serde_json` value.
fn jv(v: &serde_json::Value) -> JsonValue {
    match v {
        serde_json::Value::Null => JsonValue::Null,
        serde_json::Value::Bool(b) => JsonValue::Bool(*b),
        serde_json::Value::Number(n) => JsonValue::Number(n.to_string()),
        serde_json::Value::String(s) => JsonValue::Str(s.clone()),
        serde_json::Value::Array(a) => JsonValue::Array(a.iter().map(jv).collect()),
        serde_json::Value::Object(o) => {
            JsonValue::Object(o.iter().map(|(k, v)| (k.clone(), jv(v))).collect())
        }
    }
}

fn parse(text: &str) -> JsonValue {
    jv(&serde_json::from_str::<serde_json::Value>(text).unwrap())
}

// ── crypto wrappers ──────────────────────────────────────────────────────────

#[test]
fn digests_match_known_values() {
    assert_eq!(to_hex(&sha1_digest(b"abc")), "a9993e364706816aba3e25717850c26c9cd0d89d");
    assert_eq!(
        to_hex(&hmac_sha256_tag(b"key", b"The quick brown fox jumps over the lazy dog")),
        "f7bc83f430538424b13298e6aa6fb143ef4d59a14946175997479dbc2d1a3cd8"
    );
    assert_eq!(base64_encode(b"hello"), "aGVsbG8=");
    assert_eq!(base64_encode(b""), "");
    assert!(constant_time_eq(b"same", b"same"));
    assert!(!constant_time_eq(b"same", b"sane"));
    assert!(!constant_time_eq(b"short", b"longer"));
    assert_eq!(to_hex(&vec![0, 15, 255]), "000fff");
}

// ── LINE ─────────────────────────────────────────────────────────────────────

#[test]
fn verify_signature_correct() {
    let secret = "my-channel-secret";
    let body = b"hello world";

    let key = hmac::Key::new(hmac::HMAC_SHA256, secret.as_bytes());
    let tag = hmac::sign(&key, body);
    let sig = base64::engine::general_purpose::STANDARD.encode(tag.as_ref());

    assert!(verify_signature(secret, body, &sig));
    assert!(!verify_signature(secret, body, "invalidsig"));
    assert!(!verify_signature(secret, b"other body", &sig));
}

#[test]
fn line_request_matches_the_signing_channel() {
    let body = b"{\"events\":[]}";
    let key = hmac::Key::new(hmac::HMAC_SHA256, b"second");
    let sig = base64::engine::general_purpose::STANDARD.encode(hmac::sign(&key, body).as_ref());
    let secrets = vec!["first".to_string(), "second".to_string(), "second".to_string()];
    assert_eq!(matching_channel(&secrets, body, &sig), Some(1));
    assert_eq!(matching_channel(&secrets, body, "nope"), None);
}

#[test]
fn line_events_keep_text_messages() {
    let body = parse(
        r#"{"events":[
            {"type":"message","replyToken":"r1","source":{"type":"user","userId":"U1"},"message":{"type":"text","text":"hi"}},
            {"type":"follow","source":{"type":"user","userId":"U2"}},
            {"type":"message","replyToken":"r3","source":{"type":"group","groupId":"G1","userId":"U3"},"message":{"type":"text","text":"yo"}},
            {"type":"message","source":{"type":"user","userId":"U4"},"message":{"type":"image"}},
            {"type":"message","source":{"type":"room","roomId":"R1","userId":"U5"},"message":{"type":"text","text":"  "}}
        ]}"#,
    );
    let evs = line_events(&body, true);
    assert_eq!(evs.len(), 2);
    assert_eq!(evs[0].user_id, "U1");
    assert_eq!(evs[0].context_id, "U1");
    assert_eq!(evs[0].reply_token, "r1");
    assert!(!evs[0].is_group);
    assert_eq!(evs[1].context_id, "G1");
    assert!(evs[1].is_group);
    let filtered = line_events(&body, false);
    assert_eq!(filtered.len(), 1);
    assert!(line_events(&parse("{}"), true).is_empty());
}

#[test]
fn line_delivery_prefers_reply_token() {
    let d = line_delivery(Ok("answer".to_string()), "tok", "U1").unwrap();
    assert!(d.reply && d.push_on_reply_failure && !d.push);
    assert_eq!(d.text, "answer");
    let d = line_delivery(Ok("answer".to_string()), "", "U1").unwrap();
    assert!(!d.reply && d.push);
    let d = line_delivery(Err("boom".to_string()), "tok", "U1").unwrap();
    assert_eq!(d.text, "Sorry, an error occurred.");
    assert!(!d.push_on_reply_failure);
    assert!(line_delivery(Err("__blocked__".to_string()), "tok", "U1").is_none());
}

// ── WhatsApp ─────────────────────────────────────────────────────────────────

#[test]
fn whatsapp_handshake() {
    let tokens = vec!["verify-me".to_string()];
    let p = |mode: Option<&str>, tok: Option<&str>| VerifyParams {
        mode: mode.map(|s| s.to_string()),
        verify_token: tok.map(|s| s.to_string()),
        challenge: Some("12345".to_string()),
    };
    assert_eq!(whatsapp_verify(&tokens, &p(Some("subscribe"), Some("verify-me"))), (200, "12345".to_string()));
    assert_eq!(whatsapp_verify(&tokens, &p(Some("subscribe"), Some("bad"))), (403, "invalid verify token".to_string()));
    assert_eq!(whatsapp_verify(&tokens, &p(None, Some("verify-me"))), (403, "invalid mode".to_string()));
}

#[test]
fn whatsapp_notification_messages() {
    let body = parse(
        r#"{"entry":[{"changes":[{"value":{
            "metadata":{"phone_number_id":"123456"},
            "contacts":[{"wa_id":"491700","profile":{"name":"Ada"}}],
            "messages":[
                {"from":"491700","id":"m1","type":"text","text":{"body":"hello"}},
                {"from":"491701","id":"m2","type":"text","text":{"body":"hi"}},
                {"from":"491700","id":"m3","type":"image"}
            ]}}]}]}"#,
    );
    let msgs = whatsapp_messages(&body);
    assert_eq!(msgs.len(), 2);
    assert_eq!(msgs[0].phone_number_id, "123456");
    assert_eq!(msgs[0].user_name, "Ada");
    assert_eq!(msgs[0].message_id, "m1");
    assert_eq!(msgs[1].user_name, "491701");
    let ids = vec!["999".to_string(), "123456".to_string()];
    assert_eq!(channel_for(&ids, "123456"), Some(1));
    assert_eq!(channel_for(&ids, "1"), Some(0));
    assert_eq!(channel_for(&vec![], "1"), None);
    assert_eq!(reply_text(Ok("ok".to_string())).as_deref(), Some("ok"));
    assert_eq!(
        reply_text(Err("x".to_string())).as_deref(),
        Some("Sorry, an error occurred processing your message.")
    );
    assert_eq!(reply_text(Err("__blocked__".to_string())), None);
}

// ── WeChat ───────────────────────────────────────────────────────────────────

fn wechat_sig(token: &str, timestamp: &str, nonce: &str) -> String {
    let mut parts = [token, timestamp, nonce];
    parts.sort();
    let joined = parts.concat();
    let digest = ring::digest::digest(&ring::digest::SHA1_FOR_LEGACY_USE_ONLY, joined.as_bytes());
    digest.as_ref().iter().map(|b| format!("{b:02x}")).collect()
}

#[test]
fn wechat_signature_over_sorted_parts() {
    let sig = wechat_sig("token", "1700000000", "nonce42");
    assert!(wechat_verify_signature("token", "1700000000", "nonce42", &sig));
    assert!(!wechat_verify_signature("token", "1700000001", "nonce42", &sig));
    assert!(str_le("abc", "abd"));
    assert!(str_le("ab", "abc"));
    assert!(!str_le("b", "abc"));
}

#[test]
fn wechat_ownership_check_echoes() {
    let sig = wechat_sig("token", "1", "2");
    let params = WeChatWebhookParams {
        signature: Some(sig),
        timestamp: Some("1".to_string()),
        nonce: Some("2".to_string()),
        echostr: Some("echo".to_string()),
    };
    let tokens = vec!["other".to_string(), "token".to_string()];
    assert_eq!(wechat_verify(&tokens, &params), (200, "echo".to_string()));
    let only_other = vec!["other".to_string()];
    assert_eq!(wechat_verify(&only_other, &params), (401, String::new()));
}

#[test]
fn wechat_inbound_messages() {
    let text = "<xml><ToUserName><![CDATA[gh]]></ToUserName><FromUserName><![CDATA[oU]]></FromUserName><MsgType><![CDATA[text]]></MsgType><Content><![CDATA[hi]]></Content><MsgId>42</MsgId></xml>";
    let m = inbound(text).unwrap();
    assert_eq!(m.from_user, "oU");
    assert_eq!(m.to_user, "gh");
    assert_eq!(m.msg_id, "42");
    assert_eq!(m.content, "hi");
    let image = "<xml><MsgType>image</MsgType><PicUrl>http://p</PicUrl><MediaId>M</MediaId></xml>";
    assert_eq!(inbound(image).unwrap().content, "[image: url=http://p media_id=M]");
    let voice = "<xml><MsgType>voice</MsgType><MediaId>V</MediaId><Format>amr</Format></xml>";
    assert_eq!(inbound(voice).unwrap().content, "[voice: media_id=V format=amr]");
    let loc = "<xml><MsgType>location</MsgType><Location_X>1.5</Location_X><Location_Y>2.5</Location_Y><Label>Here</Label></xml>";
    assert_eq!(inbound(loc).unwrap().content, "[location: lat=1.5 lon=2.5 label=Here]");
    assert!(inbound("<xml><MsgType>event</MsgType></xml>").is_none());
    assert!(inbound("<xml><MsgType>text</MsgType><Content> </Content></xml>").is_none());
}

#[test]
fn wechat_replies() {
    let (xml, push) = sync_reply("oU", "gh", Ok("answer".to_string()));
    assert!(push.is_none());
    assert!(xml.contains("<ToUserName><![CDATA[oU]]></ToUserName>"));
    assert!(xml.contains("<FromUserName><![CDATA[gh]]></FromUserName>"));
    assert!(xml.contains("<![CDATA[answer]]>"));
    let (xml, push) = sync_reply("oU", "gh", Err("x".to_string()));
    assert!(xml.is_empty());
    assert_eq!(push.as_deref(), Some("Sorry, an error occurred."));
    let (xml, push) = sync_reply("oU", "gh", Err("__blocked__".to_string()));
    assert!(xml.is_empty() && push.is_none());
    assert_eq!(async_reply(Ok("a".repeat(3000))).chars().count(), 2048);
}

// ── Slack ────────────────────────────────────────────────────────────────────

#[test]
fn slack_envelopes() {
    assert_eq!(socket_event(None), SlackAction::Ignore);
    assert_eq!(socket_event(Some(&parse(r#"{"type":"hello"}"#))), SlackAction::Ignore);
    assert_eq!(socket_event(Some(&parse(r#"{"type":"disconnect"}"#))), SlackAction::Reconnect);
    let env = parse(
        r#"{"type":"events_api","envelope_id":"E1","payload":{"event":{"type":"message","channel":"C1","user":"U1","text":"hi"}}}"#,
    );
    assert_eq!(
        socket_event(Some(&env)),
        SlackAction::Event {
            ack: Some("E1".to_string()),
            message: Some(SlackMessage {
                channel_id: "C1".to_string(),
                user_id: "U1".to_string(),
                text: "hi".to_string()
            })
        }
    );
    let bot = parse(
        r#"{"type":"events_api","envelope_id":"E2","payload":{"event":{"type":"message","bot_id":"B","text":"hi"}}}"#,
    );
    assert_eq!(
        socket_event(Some(&bot)),
        SlackAction::Event { ack: Some("E2".to_string()), message: None }
    );
}

#[test]
fn slack_stream_posts_then_updates() {
    let mut s = SlackStream::new();
    assert_eq!(s.on_delta("Hel", 10, 10), StreamStep::Wait);
    assert_eq!(s.on_delta("lo", 1200, 1200), StreamStep::Post("Hello".to_string()));
    s.posted("ts1".to_string());
    assert_eq!(s.on_delta("!", 1300, 100), StreamStep::Wait);
    assert_eq!(
        s.on_delta("?", 2500, 1100),
        StreamStep::Update { ts: "ts1".to_string(), text: "Hello!?".to_string() }
    );
    assert_eq!(
        s.finish(Ok("**done**".to_string())),
        Some((Some("ts1".to_string()), "*done*".to_string()))
    );
    assert_eq!(
        s.finish(Err("bad".to_string())),
        Some((Some("ts1".to_string()), "Sorry, an error occurred: bad".to_string()))
    );
    assert_eq!(s.finish(Err("__blocked__".to_string())), None);
}

// The LINE webhook scenarios below follow the handler: the signing channel
// decides between 200 and 401, the events decide what reaches the agent, and
// the delivery decides between the reply and the push calls.

fn line_sign(secret: &str, body: &[u8]) -> String {
    let key = hmac::Key::new(hmac::HMAC_SHA256, secret.as_bytes());
    base64::engine::general_purpose::STANDARD.encode(hmac::sign(&key, body).as_ref())
}

fn line_text_event(reply_token: &str, user_id: &str, text: &str) -> Vec<u8> {
    format!(
        "{{\"destination\":\"Uxxxxx\",\"events\":[{{\"type\":\"message\",\"replyToken\":{},\"source\":{{\"type\":\"user\",\"userId\":{}}},\"timestamp\":1234567890,\"message\":{{\"id\":\"1\",\"type\":\"text\",\"text\":{}}}}}]}}",
        serde_json::to_string(reply_token).unwrap(),
        serde_json::to_string(user_id).unwrap(),
        serde_json::to_string(text).unwrap()
    )
    .into_bytes()
}

fn line_status(secret: &str, body: &[u8], signature: Option<&str>) -> u16 {
    let secrets = vec![secret.to_string()];
    match signature {
        Some(sig) if matching_channel(&secrets, body, sig).is_some() => 200,
        _ => 401,
    }
}

#[test]
fn valid_signature_returns_200() {
    let secret = "test-secret";
    let body = line_text_event("tok123", "Uabc", "hello");
    let sig = line_sign(secret, &body);
    assert_eq!(line_status(secret, &body, Some(&sig)), 200);
}

#[test]
fn invalid_signature_returns_401() {
    let body = line_text_event("tok123", "Uabc", "hello");
    assert_eq!(line_status("test-secret", &body, Some("badsig")), 401);
}

#[test]
fn missing_signature_returns_401() {
    let body = line_text_event("tok123", "Uabc", "hello");
    assert_eq!(line_status("test-secret", &body, None), 401);
}

#[test]
fn non_message_event_returns_200() {
    let secret = "test-secret";
    let body = br#"{"destination":"Uxxxxx","events":[{"type":"follow","source":{"type":"user","userId":"Uabc"},"timestamp":1234567890}]}"#.to_vec();
    let sig = line_sign(secret, &body);
    assert_eq!(line_status(secret, &body, Some(&sig)), 200);
    let text = String::from_utf8(body).unwrap();
    assert!(line_events(&parse(&text), true).is_empty());
}

#[test]
fn group_message_returns_200() {
    let secret = "test-secret";
    let body = br#"{"destination":"Uxxxxx","events":[{"type":"message","replyToken":"tok456","source":{"type":"group","groupId":"Cabc123","userId":"Uabc"},"timestamp":1234567890,"message":{"id":"2","type":"text","text":"hi group"}}]}"#.to_vec();
    let sig = line_sign(secret, &body);
    assert_eq!(line_status(secret, &body, Some(&sig)), 200);
    let text = String::from_utf8(body).unwrap();
    let evs = line_events(&parse(&text), true);
    assert_eq!(evs.len(), 1);
    assert!(evs[0].is_group);
    assert_eq!(evs[0].context_id, "Cabc123");
    assert_eq!(evs[0].text, "hi group");
}

#[test]
fn reply_succeeds_push_not_called() {
    let body = line_text_event("tok-reply", "Uabc", "hello");
    let evs = line_events(&parse(&String::from_utf8(body).unwrap()), true);
    let d = line_delivery(Ok("reply".to_string()), &evs[0].reply_token, &evs[0].user_id).unwrap();
    // The reply call is made; a push only follows a failed reply.
    assert!(d.reply);
    assert!(!d.push);
}

#[test]
fn reply_fails_falls_back_to_push() {
    let body = line_text_event("tok-fail", "Uabc", "hello");
    let evs = line_events(&parse(&String::from_utf8(body).unwrap()), true);
    let d = line_delivery(Ok("reply".to_string()), &evs[0].reply_token, &evs[0].user_id).unwrap();
    assert!(d.reply);
    assert!(d.push_on_reply_failure);
}

#[test]
fn no_reply_token_uses_push_directly() {
    let body = line_text_event("", "Uabc", "hello");
    let evs = line_events(&parse(&String::from_utf8(body).unwrap()), true);
    let d = line_delivery(Ok("reply".to_string()), &evs[0].reply_token, &evs[0].user_id).unwrap();
    assert!(!d.reply);
    assert!(d.push);
}

// The WeChat webhook scenarios below follow the handler: the ownership check
// answers GET requests, the signature picks the channel of a POST, the message
// decides what reaches the agent, and the agent's answer becomes the XML reply.

fn wechat_params(signature: &str, timestamp: &str, nonce: &str, echostr: Option<&str>) -> WeChatWebhookParams {
    WeChatWebhookParams {
        signature: Some(signature.to_string()),
        timestamp: Some(timestamp.to_string()),
        nonce: Some(nonce.to_string()),
        echostr: echostr.map(|e| e.to_string()),
    }
}

/// Status and body of a POST, the agent answering "reply".
fn wechat_post(token: &str, params: &WeChatWebhookParams, body: &str) -> (u16, String) {
    let tokens = vec![token.to_string()];
    if wechat_matching_channel(&tokens, params).is_none() {
        return (401, String::new());
    }
    match inbound(body) {
        Some(m) => (200, sync_reply(&m.from_user, &m.to_user, Ok("reply".to_string())).0),
        None => (200, String::new()),
    }
}

fn text_message_xml(from_user: &str, to_user: &str, content: &str) -> String {
    format!(
        "<xml><ToUserName><![CDATA[{to_user}]]></ToUserName><FromUserName><![CDATA[{from_user}]]></FromUserName><CreateTime>1234567890</CreateTime><MsgType><![CDATA[text]]></MsgType><Content><![CDATA[{content}]]></Content><MsgId>1234567890</MsgId></xml>"
    )
}

#[test]
fn server_verification_valid_signature_returns_echostr() {
    let token = "mytoken";
    let sig = wechat_sig(token, "1700000000", "abc123");
    let params = wechat_params(&sig, "1700000000", "abc123", Some("hello"));
    assert_eq!(wechat_verify(&vec![token.to_string()], &params), (200, "hello".to_string()));
}

#[test]
fn server_verification_invalid_signature_returns_401() {
    let params = wechat_params("badsig", "1700000000", "abc", Some("hi"));
    assert_eq!(wechat_verify(&vec!["mytoken".to_string()], &params).0, 401);
}

#[test]
fn post_valid_text_message_returns_xml_reply() {
    let token = "mytoken";
    let sig = wechat_sig(token, "1700000000", "abc123");
    let params = wechat_params(&sig, "1700000000", "abc123", None);
    let (status, reply) = wechat_post(token, &params, &text_message_xml("oOpenId123", "gh_account", "hello"));
    assert_eq!(status, 200);
    assert!(reply.contains("<![CDATA[reply]]>"));
    assert!(reply.contains("<![CDATA[oOpenId123]]>"));
}

#[test]
fn post_invalid_signature_returns_401() {
    let params = wechat_params("badsig", "1700000000", "abc", None);
    let (status, _) = wechat_post("mytoken", &params, &text_message_xml("oOpenId123", "gh_account", "hello"));
    assert_eq!(status, 401);
}

#[test]
fn post_non_text_event_returns_200_empty() {
    let token = "mytoken";
    let sig = wechat_sig(token, "1700000000", "abc123");
    let params = wechat_params(&sig, "1700000000", "abc123", None);
    let body = "<xml><ToUserName><![CDATA[gh_account]]></ToUserName><FromUserName><![CDATA[oOpenId123]]></FromUserName><CreateTime>1234567890</CreateTime><MsgType><![CDATA[follow]]></MsgType></xml>";
    let (status, reply) = wechat_post(token, &params, body);
    assert_eq!(status, 200);
    assert!(reply.is_empty());
}

#[test]
fn post_image_message_dispatches_to_on_message() {
    let token = "mytoken";
    let sig = wechat_sig(token, "1700000000", "abc123");
    let params = wechat_params(&sig, "1700000000", "abc123", None);
    let body = "<xml><ToUserName><![CDATA[gh_account]]></ToUserName><FromUserName><![CDATA[oOpenId123]]></FromUserName><CreateTime>1234567890</CreateTime><MsgType><![CDATA[image]]></MsgType><PicUrl><![CDATA[https://example.com/photo.jpg]]></PicUrl><MediaId><![CDATA[media_abc]]></MediaId><MsgId>1234567890</MsgId></xml>";
    let (status, reply) = wechat_post(token, &params, body);
    assert_eq!(status, 200);
    assert!(reply.contains("<![CDATA[reply]]>"));
}

#[test]
fn post_voice_message_dispatches_to_on_message() {
    let token = "mytoken";
    let sig = wechat_sig(token, "1700000000", "abc123");
    let params = wechat_params(&sig, "1700000000", "abc123", None);
    let body = "<xml><ToUserName><![CDATA[gh_account]]></ToUserName><FromUserName><![CDATA[oOpenId123]]></FromUserName><CreateTime>1234567890</CreateTime><MsgType><![CDATA[voice]]></MsgType><MediaId><![CDATA[voice_media_id]]></MediaId><Format><![CDATA[amr]]></Format><MsgId>1234567890</MsgId></xml>";
    let (status, reply) = wechat_post(token, &params, body);
    assert_eq!(status, 200);
    assert!(reply.contains("<![CDATA[reply]]>"));
}

#[test]
fn post_location_message_dispatches_to_on_message() {
    let token = "mytoken";
    let sig = wechat_sig(token, "1700000000", "abc123");
    let params = wechat_params(&sig, "1700000000", "abc123", None);
    let body = "<xml><ToUserName><![CDATA[gh_account]]></ToUserName><FromUserName><![CDATA[oOpenId123]]></FromUserName><CreateTime>1234567890</CreateTime><MsgType><![CDATA[location]]></MsgType><Location_X>13.7563</Location_X><Location_Y>100.5018</Location_Y><Scale>15</Scale><Label><![CDATA[Bangkok]]></Label><MsgId>1234567890</MsgId></xml>";
    let (status, reply) = wechat_post(token, &params, body);
    assert_eq!(status, 200);
    assert!(reply.contains("<![CDATA[reply]]>"));
}
