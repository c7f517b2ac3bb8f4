use opencrust::tools::{
    clamp_count, combined_output_of, format_search_results, handoff_depth_check, handoff_not_wired, handoff_request,
    handoff_result, handoff_session, handoff_unknown_agent, lossy_utf8, output_fits_cut, path_has_parent_dir,
    path_parent, path_starts_with, required_param, BashTool, CreateSkillTool, FileReadTool,
    FileWriteTool, SearchResult, SkillRequest, ToolOutput, WebFetchTool, WebSearchTool,
    MAX_COUNT,
};

// ── tool outputs ─────────────────────────────────────────────────────────────

#[test]
fn test_tool_output_success() {
    let output = ToolOutput::success("Operation successful");
    assert_eq!(output.content, "Operation successful");
    assert!(!output.is_error);
}

#[test]
fn test_tool_output_error() {
    let output = ToolOutput::error("Operation failed");
    assert_eq!(output.content, "Operation failed");
    assert!(output.is_error);
}

#[test]
fn test_tool_output_from_string() {
    let content = String::from("Owned string content");
    let output = ToolOutput::success(content.clone());
    assert_eq!(output.content, content);
    assert!(!output.is_error);
}

#[test]
fn success_helper_sets_non_error_state() {
    let output = ToolOutput::success("done");
    assert_eq!(output.content, "done");
    assert!(!output.is_error);
}

#[test]
fn error_helper_sets_error_state() {
    let output = ToolOutput::error("failed");
    assert_eq!(output.content, "failed");
    assert!(output.is_error);
}

#[test]
fn required_param_reports_missing_key() {
    assert_eq!(required_param("{\"command\":\"ls\"}", "command").unwrap(), "ls");
    assert_eq!(
        required_param("{}", "command").unwrap_err().message(),
        "missing 'command' parameter"
    );
    assert!(required_param("{\"command\":3}", "command").is_err());
    assert!(required_param("not json", "command").is_err());
}

// ── bash ─────────────────────────────────────────────────────────────────────

#[test]
fn bash_reports_output_and_exit_codes() {
    let tool = BashTool::new(None);
    assert_eq!(tool.timeout_secs, 30);
    assert_eq!(tool.command("{\"command\":\"echo hi\"}").unwrap(), "echo hi");
    assert!(tool.command("{}").is_err());

    let run = |out: &[u8], err: &[u8], success: bool, code: Option<i32>| {
        let c = combined_output_of(out, err);
        assert!(output_fits_cut(&c));
        tool.finished(&c, success, code)
    };
    let ok = run(b"hi\n", b"", true, Some(0));
    assert_eq!(ok, ToolOutput { content: "hi\n".to_string(), is_error: false });

    let err = run(b"", b"boom", false, Some(2));
    assert_eq!(err.content, "exit code 2: STDERR:\nboom");
    assert!(err.is_error);

    let both = run(b"out", b"warn", true, Some(0));
    assert_eq!(both.content, "out\nSTDERR:\nwarn");

    let silent = run(b"", b"", false, None);
    assert_eq!(silent.content, "exit code -1: (exit code: -1)");

    let quiet_ok = run(b"", b"", true, Some(0));
    assert_eq!(quiet_ok.content, "(exit code: 0)");
}

#[test]
fn bash_output_is_capped_at_32_kib() {
    let tool = BashTool::new(Some(5));
    let big = combined_output_of(&vec![b'a'; 40_000], b"");
    assert!(output_fits_cut(&big));
    let r = tool.finished(&big, true, Some(0));
    assert_eq!(r.content, format!("{}\n... (output truncated)", "a".repeat(32_768)));
    assert_eq!(tool.timed_out().content, "command timed out after 5s");
    assert_eq!(
        tool.spawn_failed("no such file").content,
        "failed to execute command: no such file"
    );
}

#[test]
fn cut_inside_a_character_is_detected() {
    let mut text = "a".repeat(32_767);
    text.push('é');
    assert!(!output_fits_cut(&text));
    assert!(output_fits_cut(&"é".repeat(16_384)));
}

#[test]
fn lossy_utf8_replaces_bad_bytes() {
    assert_eq!(lossy_utf8(b"a\xffb"), "a\u{FFFD}b");
    assert_eq!(lossy_utf8(b"plain"), "plain");
}

// ── file tools ───────────────────────────────────────────────────────────────

#[test]
fn parent_dir_components_are_found() {
    assert!(path_has_parent_dir("../etc/passwd"));
    assert!(path_has_parent_dir("a/../b"));
    assert!(path_has_parent_dir("a/.."));
    assert!(!path_has_parent_dir("a/..b/c"));
    assert!(!path_has_parent_dir("a/b..."));
    assert!(!path_has_parent_dir("/tmp/x"));
}

#[test]
fn path_helpers_follow_std() {
    assert!(path_starts_with("/home/u/docs/a.txt", "/home/u"));
    assert!(!path_starts_with("/home/user", "/home/u"));
    assert_eq!(path_parent("/tmp/a.txt").as_deref(), Some("/tmp"));
    assert_eq!(path_parent("/"), None);
}

#[test]
fn file_read_validates_paths() {
    let open = FileReadTool::new(None);
    assert!(open.validate_path("/any/where", &Err("unused".to_string())).is_ok());
    assert_eq!(
        open.validate_path("../x", &Ok("/x".to_string())).unwrap_err().message(),
        "path traversal not allowed"
    );
    let limited = FileReadTool::new(Some(vec!["/srv/data".to_string()]));
    assert!(limited.validate_path("f", &Ok("/srv/data/f".to_string())).is_ok());
    assert_eq!(
        limited.validate_path("f", &Ok("/etc/f".to_string())).unwrap_err().message(),
        "path outside allowed directories"
    );
    assert_eq!(
        limited.validate_path("f", &Err("No such file".to_string())).unwrap_err().message(),
        "cannot resolve path: No such file"
    );
    assert!(limited.size_check(1_048_576).is_none());
    assert_eq!(
        limited.size_check(1_048_577).unwrap().content,
        "file too large: 1048577 bytes (limit: 1048576 bytes)"
    );
}

#[test]
fn file_write_validates_and_reports() {
    let limited = FileWriteTool::new(Some(vec!["/srv".to_string()]));
    assert_eq!(
        limited.validate_path("/", &Ok("/".to_string())).unwrap_err().message(),
        "invalid path"
    );
    assert!(limited.validate_path("/srv/a.txt", &Ok("/srv".to_string())).is_ok());
    assert_eq!(
        limited
            .validate_path("/srv/a.txt", &Err("gone".to_string()))
            .unwrap_err()
            .message(),
        "cannot resolve parent path: gone"
    );
    assert_eq!(limited.written("héllo", "/srv/a.txt").content, "wrote 6 bytes to /srv/a.txt");
    assert_eq!(
        limited.hint("{\"path\":\"/srv/a.txt\",\"content\":\"x\"}"),
        "\n🔧 file_write: /srv/a.txt\n"
    );
    let big = "x".repeat(1_048_577);
    assert_eq!(
        limited.size_check(&big).unwrap().content,
        "content too large: 1048577 bytes (limit: 1048576 bytes)"
    );
    assert!(limited.size_check("small").is_none());
}

// ── web tools ────────────────────────────────────────────────────────────────

#[test]
fn blocks_domains() {
    let tool = WebFetchTool::new(Some(vec!["evil.com".to_string()]));
    assert!(tool.is_blocked("https://evil.com/path"));
    assert!(!tool.is_blocked("https://good.com/path"));
}

#[test]
fn web_fetch_keeps_the_first_megabyte() {
    let tool = WebFetchTool::new(None);
    assert!(!tool.is_blocked("https://evil.com"));
    assert_eq!(tool.fetched(b"<html>").content, "<html>");
    let big = vec![b'z'; 1_048_580];
    let r = tool.fetched(&big);
    assert!(r.content.ends_with("\n... (response truncated at 1048576 bytes)"));
    assert_eq!(r.content.len(), 1_048_576 + "\n... (response truncated at 1048576 bytes)".len());
    assert_eq!(tool.http_error("404 Not Found").content, "HTTP 404 Not Found");
    assert_eq!(tool.blocked().content, "domain is blocked");
}

#[test]
fn count_clamps_to_max() {
    let count: u64 = 50;
    assert_eq!(clamp_count(count), MAX_COUNT);
    assert_eq!(count.clamp(1, MAX_COUNT), MAX_COUNT);
}

#[test]
fn count_clamps_to_min() {
    let count: u64 = 0;
    assert_eq!(clamp_count(count), 1);
    assert_eq!(clamp_count(7), 7);
}

#[test]
fn formats_results_correctly() {
    let results = vec![
        SearchResult {
            title: "Rust Lang".into(),
            url: "https://www.rust-lang.org".into(),
            description: "A systems programming language.".into(),
        },
        SearchResult {
            title: "Crates.io".into(),
            url: "https://crates.io".into(),
            description: "The Rust package registry.".into(),
        },
    ];

    let formatted = format_search_results(&results);
    let output = formatted.content.as_str();
    assert!(!formatted.is_error);
    assert!(output.starts_with("1. **Rust Lang**"));
    assert!(output.contains("2. **Crates.io**"));
    assert!(output.contains("https://crates.io"));
    assert!(output.contains("The Rust package registry."));

    let mut expected = String::new();
    for (i, result) in results.iter().enumerate() {
        expected.push_str(&format!(
            "{}. **{}** — {}\n   {}\n\n",
            i + 1,
            result.title,
            result.url,
            result.description,
        ));
    }
    assert_eq!(output, expected.trim_end());
}

#[test]
fn no_results_is_an_error() {
    let r = format_search_results(&vec![]);
    assert!(r.is_error);
    assert_eq!(r.content, "No search results found.");
}

#[test]
fn search_input_is_read_with_defaults() {
    let tool = WebSearchTool::new("test-key".into());
    assert_eq!(tool.query("{\"query\":\"rust\"}").unwrap(), "rust");
    assert!(tool.query("{}").is_err());
    assert_eq!(tool.result_count("{\"query\":\"q\"}"), 5);
    assert_eq!(tool.result_count("{\"query\":\"q\",\"count\":50}"), 10);
    assert_eq!(tool.result_count("{\"query\":\"q\",\"count\":0}"), 1);
    assert_eq!(tool.api_error("429").content, "Brave Search API error: HTTP 429");
}

// ── skills ───────────────────────────────────────────────────────────────────

fn skill_input(rationale: &str, body: &str) -> String {
    format!(
        "{{\"name\":\"disk-cleanup\",\"description\":\"Free disk space\",\"body\":{},\"rationale\":{},\"triggers\":[\"disk full\",7,\"free space\"]}}",
        serde_json::to_string(body).unwrap(),
        serde_json::to_string(rationale).unwrap()
    )
}

const GOOD_RATIONALE: &str = "Took many steps to find which caches were safe to delete.";

fn good_body() -> String {
    "1. Run `du -sh ~/.cache/*` to see sizes.\n2. Remove the largest caches that can be rebuilt.\n3. Empty the trash.".to_string()
}

#[test]
fn skill_request_is_parsed() {
    let tool = CreateSkillTool::new("/skills".to_string());
    let q = tool.parse_request(&skill_input(GOOD_RATIONALE, &good_body())).unwrap();
    assert_eq!(q.name, "disk-cleanup");
    assert_eq!(q.triggers, vec!["disk full".to_string(), "free space".to_string()]);
    assert!(!q.overwrite);
    assert!(tool.check_request(&q, 0, false).is_none());
    assert_eq!(tool.skill_path("disk-cleanup"), "/skills/disk-cleanup.md");
}

#[test]
fn skill_requests_missing_fields_are_refused() {
    let tool = CreateSkillTool::new("/skills".to_string());
    assert_eq!(
        tool.parse_request("{}").unwrap_err().content,
        "missing required parameter: 'name'"
    );
    assert_eq!(
        tool.parse_request("{\"name\":\"a\",\"description\":\"d\"}").unwrap_err().content,
        "missing required parameter: 'body'"
    );
    assert_eq!(
        tool.parse_request("{\"name\":\"a\",\"description\":\"d\",\"body\":\"b\"}")
            .unwrap_err()
            .content,
        "missing required parameter: 'rationale' — explain why this skill is worth persisting before saving"
    );
}

#[test]
fn skill_layers_refuse_in_order() {
    let tool = CreateSkillTool::new("/skills".to_string());
    let vague = tool.parse_request(&skill_input("useful", &good_body())).unwrap();
    let r = tool.check_request(&vague, 0, false).unwrap();
    assert!(r.content.starts_with("rationale too vague (6 chars"));

    let short = tool.parse_request(&skill_input(GOOD_RATIONALE, "ls -la")).unwrap();
    let r = tool.check_request(&short, 0, false).unwrap();
    assert!(r.content.starts_with("skill body too short (6 chars"));

    let good = tool.parse_request(&skill_input(GOOD_RATIONALE, &good_body())).unwrap();
    let r = tool.check_request(&good, 30, false).unwrap();
    assert!(r.content.starts_with("skill library full (30/30)"));

    let r = tool.check_request(&good, 3, true).unwrap();
    assert!(r.content.starts_with("skill 'disk-cleanup' already exists"));

    let mut again = good.clone();
    again.overwrite = true;
    assert!(tool.check_request(&again, 3, true).is_none());
    assert_eq!(
        tool.saved("disk-cleanup", true, 3).content,
        "skill 'disk-cleanup' updated (4/30 skills used) — active immediately"
    );
}

#[test]
fn skill_file_has_front_matter_then_body() {
    let tool = CreateSkillTool::new("skills".to_string());
    let q = SkillRequest {
        name: "n".to_string(),
        description: "d".to_string(),
        body: "B".to_string(),
        rationale: "say \"why\"".to_string(),
        triggers: vec!["t1".to_string()],
        overwrite: false,
    };
    assert_eq!(
        tool.skill_content(&q),
        "---\nname: n\ndescription: d\nrationale: \"say \\\"why\\\"\"\ntriggers:\n  - t1\n---\n\nB\n"
    );
    assert_eq!(tool.skill_path("n"), "skills/n.md");
    assert_eq!(tool.stage_failed("disk").content, "failed to stage skill file: disk");
}

// ── handoff ──────────────────────────────────────────────────────────────────

#[test]
fn handoff_helpers() {
    let q = handoff_request("{\"agent_id\":\"coder\",\"message\":\"fix it\"}").unwrap();
    assert_eq!(q.agent_id, "coder");
    assert_eq!(q.message, "fix it");
    assert_eq!(
        handoff_request("{\"agent_id\":\"coder\"}").unwrap_err().content,
        "missing required parameter: 'message'"
    );
    assert!(handoff_depth_check(2).is_none());
    assert!(handoff_depth_check(3).unwrap().is_error);
    assert!(handoff_not_wired().is_error);
    assert_eq!(
        handoff_unknown_agent("x").content,
        "unknown agent 'x' — check the `agents:` section in config"
    );
    assert_eq!(handoff_session("s1", "coder"), "s1-handoff-coder");
    assert_eq!(handoff_result("coder", Ok("done".to_string())).content, "[coder]: done");
    let failed = handoff_result("coder", Err("timeout".to_string()));
    assert!(failed.is_error);
    assert_eq!(failed.content, "agent 'coder' failed: timeout");
}

#[test]
fn returns_error_on_missing_query() {
    let tool = WebSearchTool::new("test-key".into());
    let result = tool.query("{}");
    assert!(result.is_err());
}

#[test]
fn returns_error_on_missing_url() {
    let tool = WebFetchTool::new(None);
    let result = tool.url("{}");
    assert!(result.is_err());
    assert_eq!(result.unwrap_err().message(), "missing 'url' parameter");
    assert_eq!(tool.url("{\"url\":\"https://example.com\"}").unwrap(), "https://example.com");
}

// The skill-tool scenarios below follow the tool step by step: parse the input,
// check it against the library's state (how many skills exist, whether the name
// is taken), then write the file and report.

const ORIG_GOOD_BODY: &str = "1. Run `df -h` to see disk usage by partition.\n\
    2. Identify partitions above 90% — those need attention.\n\
    3. Run `du -sh * | sort -rh | head -20` to find largest directories.\n\
    4. Remove caches with `brew cleanup` or clear Xcode derived data.";

const ORIG_GOOD_RATIONALE: &str = "This is a multi-step workflow I had to reason through — \
     the specific command combination is not obvious and I would need to look it up again.";

fn skill_json(name: &str, description: &str, body: &str, rationale: &str, extra: &str) -> String {
    format!(
        "{{\"name\":{},\"description\":{},\"body\":{},\"rationale\":{}{}}}",
        serde_json::to_string(name).unwrap(),
        serde_json::to_string(description).unwrap(),
        serde_json::to_string(body).unwrap(),
        serde_json::to_string(rationale).unwrap(),
        extra
    )
}

#[test]
fn creates_skill_with_all_layers_satisfied() {
    let tool = CreateSkillTool::new("/tmp/skills".to_string());
    let input = skill_json(
        "disk-cleanup",
        "Free up disk space step by step",
        ORIG_GOOD_BODY,
        ORIG_GOOD_RATIONALE,
        ",\"triggers\":[\"disk full\",\"free space\"]",
    );
    let q = tool.parse_request(&input).unwrap();
    assert!(tool.check_request(&q, 0, false).is_none());
    assert_eq!(tool.skill_path(&q.name), "/tmp/skills/disk-cleanup.md");
    let saved = tool.skill_content(&q);
    assert!(saved.contains("rationale:"), "skill file should contain rationale field");
    assert!(saved.contains("multi-step workflow"), "rationale content should be stored verbatim");
    let out = tool.saved(&q.name, false, 0);
    assert!(!out.is_error, "unexpected error: {}", out.content);
    assert!(out.content.contains("1/30"));
}

#[test]
fn layer3_rejects_vague_rationale() {
    let tool = CreateSkillTool::new("/tmp/skills".to_string());
    let q = tool
        .parse_request(&skill_json("my-skill", "Does something", ORIG_GOOD_BODY, "useful", ""))
        .unwrap();
    let out = tool.check_request(&q, 0, false).unwrap();
    assert!(out.is_error);
    assert!(out.content.contains("rationale too vague"));
}

#[test]
fn layer2_rejects_short_body() {
    let tool = CreateSkillTool::new("/tmp/skills".to_string());
    let q = tool
        .parse_request(&skill_json("tiny", "Too short", "Run df -h.", ORIG_GOOD_RATIONALE, ""))
        .unwrap();
    let out = tool.check_request(&q, 0, false).unwrap();
    assert!(out.is_error);
    assert!(out.content.contains("body too short"));
}

#[test]
fn layer2_blocks_duplicate_without_overwrite() {
    let tool = CreateSkillTool::new("/tmp/skills".to_string());
    let input = skill_json("disk-cleanup", "Free up disk space", ORIG_GOOD_BODY, ORIG_GOOD_RATIONALE, "");
    let q = tool.parse_request(&input).unwrap();
    assert!(tool.check_request(&q, 0, false).is_none());
    // The first call saved the skill: one exists now, under this name.
    let out = tool.check_request(&q, 1, true).unwrap();
    assert!(out.is_error);
    assert!(out.content.contains("already exists"));
    assert!(out.content.contains("overwrite: true"));
}

#[test]
fn layer2_allows_overwrite_when_flag_set() {
    let tool = CreateSkillTool::new("/tmp/skills".to_string());
    let update = skill_json(
        "disk-cleanup",
        "Updated version",
        ORIG_GOOD_BODY,
        ORIG_GOOD_RATIONALE,
        ",\"overwrite\":true",
    );
    let q = tool.parse_request(&update).unwrap();
    assert!(q.overwrite);
    assert!(tool.check_request(&q, 1, true).is_none());
    let out = tool.saved(&q.name, true, 1);
    assert!(!out.is_error, "{}", out.content);
}

#[test]
fn layer2_enforces_hard_cap() {
    let tool = CreateSkillTool::new("/tmp/skills".to_string());
    let q = tool
        .parse_request(&skill_json("overflow", "One too many", ORIG_GOOD_BODY, ORIG_GOOD_RATIONALE, ""))
        .unwrap();
    let out = tool.check_request(&q, opencrust::tools::MAX_SKILLS, false).unwrap();
    assert!(out.is_error);
    assert!(out.content.contains("skill library full"));
}

#[test]
fn returns_error_on_missing_param() {
    let tool = FileReadTool::new(None);
    let result = tool.path("{}");
    assert!(result.is_err());
    assert_eq!(result.unwrap_err().message(), "missing 'path' parameter");
}

#[test]
fn returns_error_on_missing_params() {
    let tool = FileWriteTool::new(None);
    assert!(tool.path("{}").is_err());
    let with_path = "{\"path\": \"/tmp/test\"}";
    assert_eq!(tool.path(with_path).unwrap(), "/tmp/test");
    assert!(tool.content(with_path).is_err());
    assert_eq!(tool.content(with_path).unwrap_err().message(), "missing 'content' parameter");
}

#[test]
fn returns_error_on_missing_command() {
    let tool = BashTool::new(None);
    let result = tool.command("{}");
    assert!(result.is_err());
}
