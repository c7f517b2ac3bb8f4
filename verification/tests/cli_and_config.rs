use opencrust::config::{ChannelConfig, LlmProviderConfig, McpServerConfig};
use opencrust::wizard::{
    apply_answers, config_summary, default_provider_index, default_system_prompt, env_hint,
    key_prompt, key_storage, non_interactive_help, resolve_api_key, wizard_providers, KeyStorage,
};

use opencrust::a2a::{AgentCapabilities, TaskStatus};
use opencrust::cli::{
    cache_path, check_is_fresh, checksum_name, missing_pid_message, notes_preview,
    opencrust_dir, parse_pid, parse_u32, pid_file_path, platform_asset_name, sha256_digest,
    strip_v, update_notice, verify_checksum,
};
use opencrust::config::{
    default_host, default_port, default_rate_burst_size, default_rate_per_second,
    default_transport, AppConfig, ConfigLoader, ConfigSource,
};
use opencrust::crypto::to_hex;
use opencrust::keyed::KeyedMap;
use opencrust::lines::lines_of;
use opencrust::prompt::{config_dir_from, join_path};

// ── configuration ────────────────────────────────────────────────────────────

#[test]
fn app_config_defaults_include_memory_block() {
    let config = AppConfig::default();
    assert!(config.memory.enabled);
    assert!(!config.memory.shared_continuity);
    assert!(config.embeddings.is_empty());
    assert_eq!(config.gateway.host, "127.0.0.1");
    assert_eq!(config.gateway.port, 3888);
    assert_eq!(config.log_level.as_deref(), Some("info"));
}

#[test]
fn config_default_values() {
    assert_eq!(default_host(), "127.0.0.1");
    assert_eq!(default_port(), 3888);
    assert_eq!(default_rate_per_second(), 1);
    assert_eq!(default_rate_burst_size(), 60);
    assert_eq!(default_transport(), "stdio");
}

#[test]
fn config_loader_paths_and_source() {
    let loader = ConfigLoader::with_dir("/home/u/.opencrust".to_string());
    assert_eq!(loader.config_dir(), "/home/u/.opencrust");
    assert_eq!(loader.yaml_path(), "/home/u/.opencrust/config.yml");
    assert_eq!(loader.toml_path(), "/home/u/.opencrust/config.toml");
    assert_eq!(loader.source(true, true), ConfigSource::Yaml);
    assert_eq!(loader.source(false, true), ConfigSource::Toml);
    assert_eq!(loader.source(false, false), ConfigSource::Defaults);
    assert_eq!(
        loader.parse_error(ConfigSource::Toml, "bad").message(),
        "failed to parse TOML config: bad"
    );
    assert_eq!(
        loader.required_dirs(),
        vec![
            "/home/u/.opencrust".to_string(),
            "/home/u/.opencrust/sessions".to_string(),
            "/home/u/.opencrust/credentials".to_string(),
            "/home/u/.opencrust/plugins".to_string(),
            "/home/u/.opencrust/data".to_string(),
        ]
    );
}

#[test]
fn paths_join_like_std() {
    assert_eq!(join_path("/a", "b"), "/a/b");
    assert_eq!(join_path("/a/", "b"), "/a/b");
    assert_eq!(join_path("/a", "/abs"), "/abs");
    assert_eq!(join_path("", "b"), "b");
    assert_eq!(config_dir_from(&Some("/home/u".to_string())), "/home/u/.opencrust");
    assert_eq!(config_dir_from(&None), ".opencrust");
    assert!(pid_file_path().ends_with("opencrust.pid"));
    assert!(cache_path().ends_with("update-check.json"));
    assert!(opencrust_dir().ends_with(".opencrust"));
}

// ── daemon and update ────────────────────────────────────────────────────────

#[test]
fn pid_file_text_is_parsed() {
    assert_eq!(parse_pid(" 4242\n"), Some(4242));
    assert_eq!(parse_pid("+7"), Some(7));
    assert_eq!(parse_pid("abc"), None);
    assert_eq!(parse_pid(""), None);
    assert_eq!(parse_u32("4294967295"), Some(u32::MAX));
    assert_eq!(parse_u32("4294967296"), None);
    assert_eq!(parse_u32("-1"), None);
    assert_eq!(parse_u32("+"), None);
    assert_eq!(missing_pid_message("/x/opencrust.pid"), "no PID file found at /x/opencrust.pid");
}

#[test]
fn update_versions_and_assets() {
    assert_eq!(strip_v("v1.2.3"), "1.2.3");
    assert_eq!(strip_v("1.2.3"), "1.2.3");
    assert_eq!(update_notice("1.2.3", "v1.2.3"), None);
    assert_eq!(
        update_notice("1.2.3", "v1.3.0").unwrap(),
        "Update available: v1.2.3 -> v1.3.0  —  run `opencrust update`"
    );
    assert_eq!(platform_asset_name("linux", "x86_64").unwrap(), "opencrust-linux-x86_64");
    assert_eq!(
        platform_asset_name("windows", "x86_64").unwrap(),
        "opencrust-windows-x86_64.exe"
    );
    assert_eq!(
        platform_asset_name("freebsd", "x86_64").unwrap_err(),
        "unsupported platform: freebsd/x86_64"
    );
    assert_eq!(checksum_name("opencrust-linux-x86_64"), "opencrust-linux-x86_64.sha256");
    assert!(check_is_fresh(1000, 900));
    assert!(!check_is_fresh(100_000, 0));
    assert!(check_is_fresh(5, 10));
}

#[test]
fn checksum_is_checked_case_insensitively() {
    let data = b"binary";
    let hexdigest = to_hex(&sha256_digest(data));
    assert_eq!(hexdigest.len(), 64);
    assert!(verify_checksum(data, &format!("{}  opencrust\n", hexdigest.to_uppercase())).is_ok());
    let err = verify_checksum(data, &format!("{}  opencrust", "0".repeat(64))).unwrap_err();
    assert!(err.starts_with("checksum mismatch!"));
    assert_eq!(verify_checksum(data, "   \n").unwrap_err(), "invalid checksum file format");
}

#[test]
fn release_notes_preview_twenty_lines() {
    let notes: Vec<String> = (1..=25).map(|i| format!("line {i}")).collect();
    let (preview, more) = notes_preview(&notes.join("\n"));
    assert!(more);
    assert_eq!(preview, notes[..20].join("\n"));
    let (preview, more) = notes_preview("a\nb");
    assert!(!more);
    assert_eq!(preview, "a\nb");
    assert_eq!(lines_of("x\r\ny\n"), vec!["x".to_string(), "y".to_string()]);
}

// ── agent-to-agent records ───────────────────────────────────────────────────

#[test]
fn task_status_names() {
    assert_eq!(TaskStatus::Submitted.as_str(), "submitted");
    assert_eq!(TaskStatus::Canceled.as_str(), "canceled");
    let caps = AgentCapabilities::default();
    assert!(!caps.streaming && !caps.push_notifications);
}

// ── keyed map ────────────────────────────────────────────────────────────────

#[test]
fn keyed_map_insert_get_remove() {
    let mut m: KeyedMap<u32> = KeyedMap::new();
    m.insert("a".to_string(), 1);
    m.insert("b".to_string(), 2);
    m.insert("a".to_string(), 3);
    assert_eq!(m.get("a"), Some(&3));
    assert_eq!(m.get("c"), None);
    assert_eq!(m.remove("b"), Some(2));
    assert_eq!(m.remove("b"), None);
    m.insert("z".to_string(), 9);
    m.retain(|k: &str| k != "a");
    assert_eq!(m.get("a"), None);
    assert_eq!(m.get("z"), Some(&9));
}

// ── setup wizard ─────────────────────────────────────────────────────────────

fn llm(provider: &str, key: Option<&str>) -> LlmProviderConfig {
    LlmProviderConfig {
        provider: provider.to_string(),
        model: Some("m".to_string()),
        api_key: key.map(|k| k.to_string()),
        base_url: None,
        extra: vec![],
    }
}

#[test]
fn wizard_defaults_and_prompts() {
    assert_eq!(wizard_providers(), vec!["anthropic", "openai", "sansa"]);
    assert_eq!(default_provider_index(Some("openai")), 1);
    assert_eq!(default_provider_index(Some("other")), 0);
    assert_eq!(default_provider_index(None), 0);
    assert_eq!(env_hint("sansa"), "SANSA_API_KEY");
    assert_eq!(env_hint("x"), "API_KEY");
    assert_eq!(
        key_prompt("openai", false),
        "Enter your openai API key (or set OPENAI_API_KEY env var later)"
    );
    assert_eq!(
        key_prompt("anthropic", true),
        "Enter your anthropic API key (Enter to keep existing, or set ANTHROPIC_API_KEY env var later)"
    );
    assert_eq!(resolve_api_key("  ", Some("old")), ("old".to_string(), true));
    assert_eq!(resolve_api_key(" new ", Some("old")), ("new".to_string(), false));
    assert_eq!(resolve_api_key("", None), (String::new(), false));
    assert_eq!(key_storage("k", false), KeyStorage::Ask);
    assert_eq!(key_storage("k", true), KeyStorage::Plaintext);
    assert_eq!(key_storage("", false), KeyStorage::Skip);
    assert_eq!(default_system_prompt(None), "You are a helpful personal AI assistant.");
    assert_eq!(non_interactive_help("/c")[1], "To configure OpenCrust, edit: /c/config.yml");
}

#[test]
fn wizard_answers_replace_main_and_keep_the_rest() {
    let mut config = AppConfig::default();
    config.llm.push(("backup".to_string(), llm("openai", None)));
    config.llm.push(("main".to_string(), llm("openai", Some("k1"))));
    config.channels.push((
        "tg".to_string(),
        ChannelConfig { channel_type: "telegram".to_string(), enabled: None, settings: vec![] },
    ));
    apply_answers(&mut config, "anthropic", Some("k2".to_string()), String::new());
    assert_eq!(config.llm.len(), 2);
    assert_eq!(config.llm[0].1.provider, "openai");
    assert_eq!(config.llm[1].0, "main");
    assert_eq!(config.llm[1].1.provider, "anthropic");
    assert_eq!(config.llm[1].1.api_key.as_deref(), Some("k2"));
    assert_eq!(config.llm[1].1.model, None);
    assert_eq!(config.agent.system_prompt, None);
    assert_eq!(config.channels.len(), 1);

    let mut fresh = AppConfig::default();
    apply_answers(&mut fresh, "openai", None, "Be brief.".to_string());
    assert_eq!(fresh.llm.len(), 1);
    assert_eq!(fresh.agent.system_prompt.as_deref(), Some("Be brief."));
}

#[test]
fn config_summary_lines() {
    let mut config = AppConfig::default();
    assert_eq!(config_summary(&config), vec!["  Provider:      not configured".to_string(), String::new()]);
    config.llm.push(("main".to_string(), llm("anthropic", None)));
    config.agent.system_prompt = Some("p".repeat(70));
    config.channels.push((
        "tg".to_string(),
        ChannelConfig { channel_type: "telegram".to_string(), enabled: None, settings: vec![] },
    ));
    config.channels.push((
        "sl".to_string(),
        ChannelConfig { channel_type: "slack".to_string(), enabled: None, settings: vec![] },
    ));
    config.mcp.push((
        "fs".to_string(),
        McpServerConfig {
            command: "x".to_string(),
            args: vec![],
            env: vec![],
            transport: "stdio".to_string(),
            url: None,
            enabled: None,
            timeout: None,
        },
    ));
    assert_eq!(
        config_summary(&config),
        vec![
            "  Provider:      anthropic".to_string(),
            "  API key:       not set (using env var)".to_string(),
            format!("  System prompt: {}...", "p".repeat(57)),
            "  Channels:      tg, sl".to_string(),
            "  MCP servers:   1".to_string(),
            String::new(),
        ]
    );
}
