use opencrust::discord::{all_commands, registration_targets, DiscordSlashCommand, RegistrationTarget};
use opencrust::hints::split_hints;
use opencrust::line_fmt::{to_line_text, truncated_to, LINE_TEXT_MAX};
use opencrust::protocol::{
    check_frame_size, ConnectorCapability, ConnectorHandshake, CONNECTOR_PROTOCOL_VERSION,
    MAX_CONNECTOR_FRAME_BYTES,
};
use opencrust::slack_fmt::to_slack_mrkdwn;
use opencrust::wechat_fmt::{
    build_reply_xml, extract_xml_field, reply_xml_at, to_wechat_text, WECHAT_TEXT_MAX,
};

// ── hints ────────────────────────────────────────────────────────────────────

#[test]
fn no_hints() {
    let (hints, body) = split_hints("hello world");
    assert!(hints.is_none());
    assert_eq!(body, "hello world");
}

#[test]
fn hints_only() {
    let (hints, body) = split_hints("🔧 bash: ls");
    assert_eq!(hints.unwrap(), "🔧 bash: ls");
    assert!(body.is_empty());
}

#[test]
fn hints_and_response() {
    let (hints, body) = split_hints("🔧 bash: ls\n\nhere are the files");
    assert_eq!(hints.unwrap(), "🔧 bash: ls");
    assert_eq!(body, "here are the files");
}

#[test]
fn multiple_hints() {
    let (hints, body) = split_hints("🔧 bash: ls\n🔧 file_read: main.rs\n\nresponse");
    assert_eq!(hints.unwrap(), "🔧 bash: ls\n🔧 file_read: main.rs");
    assert_eq!(body, "response");
}

#[test]
fn hint_lines_are_trimmed_and_body_keeps_inner_lines() {
    let (hints, body) = split_hints("  🔧 bash: ls  \nfirst\n\nsecond\n");
    assert_eq!(hints.unwrap(), "🔧 bash: ls");
    assert_eq!(body, "first\n\nsecond");
}

#[test]
fn empty_text_has_no_hints() {
    let (hints, body) = split_hints("");
    assert!(hints.is_none());
    assert_eq!(body, "");
}

// ── LINE text ────────────────────────────────────────────────────────────────

#[test]
fn short_text_unchanged() {
    assert_eq!(to_line_text("hello"), "hello");
}

#[test]
fn long_text_truncated() {
    let long: String = "a".repeat(6000);
    let result = to_line_text(&long);
    assert_eq!(result.chars().count(), LINE_TEXT_MAX);
}

#[test]
fn line_text_counts_characters_not_bytes() {
    let long: String = "é".repeat(5001);
    let result = to_line_text(&long);
    assert_eq!(result.chars().count(), 5000);
    assert_eq!(result, "é".repeat(5000));
    let exact: String = "b".repeat(5000);
    assert_eq!(to_line_text(&exact), exact);
}

#[test]
fn truncated_to_keeps_prefix() {
    assert_eq!(truncated_to("abcdef", 3), "abc");
    assert_eq!(truncated_to("abc", 10), "abc");
    assert_eq!(truncated_to("abc", 0), "");
}

// ── WeChat text and XML ──────────────────────────────────────────────────────

#[test]
fn fmt_short_text_unchanged() {
    assert_eq!(to_wechat_text("hello"), "hello");
}

#[test]
fn fmt_long_text_truncated() {
    let long: String = "a".repeat(3000);
    let result = to_wechat_text(&long);
    assert_eq!(result.chars().count(), WECHAT_TEXT_MAX);
}

#[test]
fn reply_xml_contains_fields() {
    let xml = build_reply_xml("user123", "gh_abc", "hello");
    assert!(xml.contains("<![CDATA[user123]]>"));
    assert!(xml.contains("<![CDATA[gh_abc]]>"));
    assert!(xml.contains("<![CDATA[hello]]>"));
    assert!(xml.contains("<MsgType><![CDATA[text]]></MsgType>"));
}

#[test]
fn reply_xml_at_exact_layout() {
    let xml = reply_xml_at("u", "g", "hi", 42);
    assert_eq!(
        xml,
        "<xml><ToUserName><![CDATA[u]]></ToUserName><FromUserName><![CDATA[g]]></FromUserName><CreateTime>42</CreateTime><MsgType><![CDATA[text]]></MsgType><Content><![CDATA[hi]]></Content></xml>"
    );
}

#[test]
fn extract_cdata_field() {
    let xml = "<xml><FromUserName><![CDATA[oABC123]]></FromUserName></xml>";
    assert_eq!(extract_xml_field(xml, "FromUserName").as_deref(), Some("oABC123"));
}

#[test]
fn extract_plain_field() {
    let xml = "<xml><MsgType>text</MsgType></xml>";
    assert_eq!(extract_xml_field(xml, "MsgType").as_deref(), Some("text"));
}

#[test]
fn extract_missing_field_returns_none() {
    let xml = "<xml><MsgType>text</MsgType></xml>";
    assert_eq!(extract_xml_field(xml, "Content"), None);
}

#[test]
fn extract_unclosed_field_returns_none() {
    assert_eq!(extract_xml_field("<xml><MsgType>text</xml>", "MsgType"), None);
    assert_eq!(
        extract_xml_field("<xml><Content><![CDATA[abc</Content></xml>", "Content").as_deref(),
        Some("<![CDATA[abc")
    );
}

// ── Slack mrkdwn ─────────────────────────────────────────────────────────────

#[test]
fn bold_converted() {
    assert_eq!(to_slack_mrkdwn("this is **bold** text"), "this is *bold* text");
}

#[test]
fn code_block_preserved() {
    let input = "```rust\nfn main() {}\n```";
    assert_eq!(to_slack_mrkdwn(input), input);
}

#[test]
fn inline_code_preserved() {
    let input = "use `foo.bar()` here";
    assert_eq!(to_slack_mrkdwn(input), input);
}

#[test]
fn plain_text_unchanged() {
    assert_eq!(to_slack_mrkdwn("hello world"), "hello world");
}

#[test]
fn mixed_formatting() {
    let input = "Try `code` and **bold** together.";
    let output = to_slack_mrkdwn(input);
    assert_eq!(output, "Try `code` and *bold* together.");
}

#[test]
fn slack_escapes_entities_and_closes_unterminated_bold() {
    assert_eq!(to_slack_mrkdwn("a < b & c > d"), "a &lt; b &amp; c &gt; d");
    assert_eq!(to_slack_mrkdwn("**a & b**"), "*a &amp; b*");
    assert_eq!(to_slack_mrkdwn("`a < b` and ```x > y```"), "`a < b` and ```x > y```");
    assert_eq!(to_slack_mrkdwn("**open"), "*open*");
    assert_eq!(to_slack_mrkdwn("```x"), "```x");
    assert_eq!(to_slack_mrkdwn("`x"), "`x");
}

// ── Discord commands ─────────────────────────────────────────────────────────

#[test]
fn from_name_maps_known_commands() {
    assert_eq!(
        DiscordSlashCommand::from_name("start"),
        Some(DiscordSlashCommand::Start)
    );
    assert_eq!(DiscordSlashCommand::from_name("nope"), None);
}

#[test]
fn all_commands_includes_expected_names() {
    let commands = all_commands();
    assert_eq!(commands.len(), 5);
    let names: Vec<&str> = commands.iter().map(|c| c.name.as_str()).collect();
    assert_eq!(names, vec!["start", "help", "clear", "pair", "users"]);
}

#[test]
fn command_names_round_trip() {
    for c in [
        DiscordSlashCommand::Start,
        DiscordSlashCommand::Help,
        DiscordSlashCommand::Clear,
        DiscordSlashCommand::Pair,
        DiscordSlashCommand::Users,
    ] {
        assert_eq!(DiscordSlashCommand::from_name(c.as_str()), Some(c));
    }
}

#[test]
fn registration_targets_global_without_guilds() {
    assert_eq!(registration_targets(&vec![]), vec![RegistrationTarget::Global]);
    assert_eq!(
        registration_targets(&vec![7, 9]),
        vec![RegistrationTarget::Guild(7), RegistrationTarget::Guild(9)]
    );
}

// ── connector protocol ───────────────────────────────────────────────────────

fn handshake(version: u32, name: &str, ver: &str, ch: &str) -> ConnectorHandshake {
    ConnectorHandshake {
        protocol_version: version,
        connector_name: name.to_string(),
        connector_version: ver.to_string(),
        channel_type: ch.to_string(),
        capabilities: vec![],
    }
}

#[test]
fn handshake_validation_accepts_valid_payload() {
    let handshake = ConnectorHandshake {
        protocol_version: CONNECTOR_PROTOCOL_VERSION,
        connector_name: "telegram-sidecar".to_string(),
        connector_version: "0.1.0".to_string(),
        channel_type: "telegram".to_string(),
        capabilities: vec![
            ConnectorCapability::ReceiveMessages,
            ConnectorCapability::SendMessage,
        ],
    };

    assert!(handshake.validate().is_ok());
}

#[test]
fn handshake_validation_rejects_wrong_protocol_version() {
    let handshake = ConnectorHandshake {
        protocol_version: 999,
        connector_name: "telegram-sidecar".to_string(),
        connector_version: "0.1.0".to_string(),
        channel_type: "telegram".to_string(),
        capabilities: vec![],
    };

    assert!(handshake.validate().is_err());
}

#[test]
fn handshake_errors_name_the_failed_check() {
    let e = handshake(999, "a", "b", "c").validate().unwrap_err();
    assert_eq!(e.message(), "unsupported protocol version 999, expected 1");
    let e = handshake(1, "  ", "b", "c").validate().unwrap_err();
    assert_eq!(e.message(), "connector_name cannot be empty");
    let e = handshake(1, "a", "", "c").validate().unwrap_err();
    assert_eq!(e.message(), "connector_version cannot be empty");
    let e = handshake(1, "a", "b", "\t").validate().unwrap_err();
    assert_eq!(e.message(), "channel_type cannot be empty");
}

#[test]
fn parse_json_rejects_oversized_payload() {
    let oversized = "x".repeat(MAX_CONNECTOR_FRAME_BYTES + 1);
    let err = check_frame_size(&oversized).expect_err("must reject oversized frame");
    assert!(err.message().contains("exceeds max size"));
    assert_eq!(
        err.message(),
        "connector frame exceeds max size: 262145 > 262144"
    );
}

#[test]
fn frame_of_exactly_max_size_is_accepted() {
    let frame = "x".repeat(MAX_CONNECTOR_FRAME_BYTES);
    assert!(check_frame_size(&frame).is_ok());
    assert!(check_frame_size("{}").is_ok());
}
