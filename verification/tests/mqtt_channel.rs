use opencrust::mqtt::{
    default_qos, detect, DetectedMessage, MqttConfig, MqttMode, MultiUserPayload, QoS,
    RawMqttConfig,
};

fn minimal() -> RawMqttConfig {
    RawMqttConfig {
        broker_url: Some("mqtt://localhost".to_string()),
        port: Some(1883),
        subscribe_topic: Some("in".to_string()),
        publish_topic: Some("out".to_string()),
        client_id: None,
        qos: default_qos(),
        username: None,
        password: None,
        mode: String::new(),
    }
}

// ── configuration ────────────────────────────────────────────────────────────

#[test]
fn minimal_config_parses() {
    let cfg = MqttConfig::from_raw("ch", &minimal()).unwrap();
    assert_eq!(cfg.broker_url, "mqtt://localhost");
    assert_eq!(cfg.port, 1883);
    assert_eq!(cfg.subscribe_topic, "in");
    assert_eq!(cfg.publish_topic, "out");
    assert_eq!(cfg.client_id, "ch");
    assert_eq!(cfg.qos, QoS::AtLeastOnce);
    assert_eq!(cfg.mode, MqttMode::Auto);
}

#[test]
fn missing_broker_url_fails() {
    let mut s = minimal();
    s.broker_url = None;
    let err = MqttConfig::from_raw("ch", &s).unwrap_err();
    assert!(err.message().contains("broker_url"));
}

#[test]
fn missing_port_fails() {
    let mut s = minimal();
    s.port = None;
    let err = MqttConfig::from_raw("ch", &s).unwrap_err();
    assert!(err.message().contains("port"));
}

#[test]
fn invalid_qos_fails() {
    let mut s = minimal();
    s.qos = 5;
    let err = MqttConfig::from_raw("ch", &s).unwrap_err();
    assert!(err.message().contains("qos"));
    assert_eq!(err.message(), "mqtt qos must be 0, 1, or 2 — got 5");
}

#[test]
fn mode_simple_parses() {
    let mut s = minimal();
    s.mode = "simple".to_string();
    let cfg = MqttConfig::from_raw("ch", &s).unwrap();
    assert_eq!(cfg.mode, MqttMode::Simple);
}

#[test]
fn mode_multi_parses() {
    let mut s = minimal();
    s.mode = "multi".to_string();
    let cfg = MqttConfig::from_raw("ch", &s).unwrap();
    assert_eq!(cfg.mode, MqttMode::Multi);
}

#[test]
fn mode_is_case_insensitive() {
    let mut s = minimal();
    s.mode = "SiMpLe".to_string();
    let cfg = MqttConfig::from_raw("ch", &s).unwrap();
    assert_eq!(cfg.mode, MqttMode::Simple);
}

#[test]
fn unknown_mode_defaults_to_auto() {
    let mut s = minimal();
    s.mode = "unknown".to_string();
    let cfg = MqttConfig::from_raw("ch", &s).unwrap();
    assert_eq!(cfg.mode, MqttMode::Auto);
}

#[test]
fn host_strips_scheme() {
    let mut s = minimal();
    s.broker_url = Some("mqtts://broker.example.com".to_string());
    let cfg = MqttConfig::from_raw("ch", &s).unwrap();
    assert_eq!(cfg.host(), "broker.example.com");
    assert!(cfg.use_tls());
}

#[test]
fn host_drops_port_and_plain_scheme() {
    let mut s = minimal();
    s.broker_url = Some("mqtt://10.0.0.5:1883".to_string());
    let cfg = MqttConfig::from_raw("ch", &s).unwrap();
    assert_eq!(cfg.host(), "10.0.0.5");
    assert!(!cfg.use_tls());
}

#[test]
fn blank_topics_and_qos_levels() {
    let mut s = minimal();
    s.subscribe_topic = Some("   ".to_string());
    assert_eq!(
        MqttConfig::from_raw("ch", &s).unwrap_err().message(),
        "mqtt subscribe_topic is required"
    );
    let mut s = minimal();
    s.publish_topic = None;
    assert_eq!(
        MqttConfig::from_raw("ch", &s).unwrap_err().message(),
        "mqtt publish_topic is required"
    );
    let mut s = minimal();
    s.qos = 0;
    assert_eq!(MqttConfig::from_raw("ch", &s).unwrap().qos, QoS::AtMostOnce);
    s.qos = 2;
    assert_eq!(MqttConfig::from_raw("ch", &s).unwrap().qos, QoS::ExactlyOnce);
}

#[test]
fn client_id_and_credentials() {
    let mut s = minimal();
    s.client_id = Some("dev-1".to_string());
    s.username = Some(String::new());
    s.password = Some("pw".to_string());
    let cfg = MqttConfig::from_raw("ch", &s).unwrap();
    assert_eq!(cfg.client_id, "dev-1");
    assert_eq!(cfg.username, None);
    assert_eq!(cfg.password.as_deref(), Some("pw"));
    assert_eq!(cfg.channel_name, "ch");
}

// ── payload detection ────────────────────────────────────────────────────────

#[test]
fn plain_text_is_simple() {
    let result = detect(b"hello world");
    assert_eq!(
        result,
        DetectedMessage::Simple {
            text: "hello world".into()
        }
    );
}

#[test]
fn invalid_utf8_is_simple() {
    let result = detect(b"\xFF\xFE");
    match result {
        DetectedMessage::Simple { text } => {
            assert!(text.contains("binary payload"));
            assert_eq!(text, "<binary payload, 2 bytes>");
        }
        _ => panic!("expected Simple"),
    }
}

#[test]
fn json_array_is_simple() {
    let result = detect(b"[1,2,3]");
    assert_eq!(
        result,
        DetectedMessage::Simple {
            text: "[1,2,3]".into()
        }
    );
}

#[test]
fn json_missing_user_id_is_simple() {
    let result = detect(br#"{"text":"hello"}"#);
    match result {
        DetectedMessage::Simple { .. } => {}
        _ => panic!("expected Simple when user_id is missing"),
    }
}

#[test]
fn json_missing_text_is_simple() {
    let result = detect(br#"{"user_id":"s01"}"#);
    match result {
        DetectedMessage::Simple { .. } => {}
        _ => panic!("expected Simple when text is missing"),
    }
}

#[test]
fn json_with_text_and_user_id_is_multi() {
    let result = detect(br#"{"user_id":"s01","text":"hi"}"#);
    assert_eq!(
        result,
        DetectedMessage::Multi(MultiUserPayload {
            user_id: "s01".into(),
            text: "hi".into(),
            session_id: None,
        })
    );
}

#[test]
fn json_with_session_id_override() {
    let result = detect(br#"{"user_id":"s01","text":"hi","session_id":"custom-42"}"#);
    assert_eq!(
        result,
        DetectedMessage::Multi(MultiUserPayload {
            user_id: "s01".into(),
            text: "hi".into(),
            session_id: Some("custom-42".into()),
        })
    );
}

#[test]
fn non_string_text_field_is_simple() {
    let result = detect(br#"{"user_id":"s01","text":42}"#);
    match result {
        DetectedMessage::Simple { .. } => {}
        _ => panic!("expected Simple when text is not a string"),
    }
}
