//! The setup wizard's decisions: the summary of an existing configuration, the
//! defaults it offers, what it keeps of earlier answers, and how it writes the
//! answers into the configuration. Asking the questions is left to the caller.
use vstd::prelude::*;
use crate::config::{AppConfig, LlmProviderConfig};
use crate::keyed::{entry_keys, entry_position};
use crate::runtime::first_index;
use crate::text::{decimal, join, join_strings, owned, push_decimal, push_str, str_eq, trim, trimmed, utf8_len, views};
use crate::tools::byte_prefix;

verus! {

broadcast use vstd::string::group_string_axioms;

/// The providers the wizard offers, in order.
pub open spec fn offered_providers() -> Seq<Seq<char>> {
    seq!["anthropic"@, "openai"@, "sansa"@]
}

/// The providers the wizard offers, in order.
pub fn wizard_providers() -> (r: Vec<String>)
    ensures
        views(r@) == offered_providers(),
{
    let mut r: Vec<String> = Vec::new();
    r.push(owned("anthropic"));
    r.push(owned("openai"));
    r.push(owned("sansa"));
    assert(views(r@) =~= offered_providers());
    r
}

/// The provider selected at first: the configured one when it is offered, else the first.
pub fn default_provider_index(existing: Option<&str>) -> (r: usize)
    ensures
        r == match existing {
            Some(p) => match first_index(offered_providers(), p@) {
                Some(i) => i as usize,
                None => 0usize,
            },
            None => 0usize,
        },
        r < 3,
{
    let names = wizard_providers();
    match existing {
        Some(p) => match crate::runtime::position_of(&names, p) {
            Some(i) => {
                proof {
                    let ns = offered_providers();
                    if first_index(ns, p@) is Some {
                        let c = choose|i: int| 0 <= i < ns.len() && ns[i] == p@ && forall|j: int| 0 <= j < i ==> ns[j] != p@;
                    }
                }
                i
            },
            None => 0,
        },
        None => 0,
    }
}

/// The environment variable that holds a provider's API key.
pub open spec fn env_hint_of(provider: Seq<char>) -> Seq<char> {
    if provider == "anthropic"@ {
        "ANTHROPIC_API_KEY"@
    } else if provider == "openai"@ {
        "OPENAI_API_KEY"@
    } else if provider == "sansa"@ {
        "SANSA_API_KEY"@
    } else {
        "API_KEY"@
    }
}

/// The environment variable that holds a provider's API key.
pub fn env_hint(provider: &str) -> (r: String)
    ensures
        r@ == env_hint_of(provider@),
{
    if str_eq(provider, "anthropic") {
        owned("ANTHROPIC_API_KEY")
    } else if str_eq(provider, "openai") {
        owned("OPENAI_API_KEY")
    } else if str_eq(provider, "sansa") {
        owned("SANSA_API_KEY")
    } else {
        owned("API_KEY")
    }
}

/// The question asking for the API key.
pub fn key_prompt(provider: &str, has_existing_key: bool) -> (r: String)
    ensures
        r@ == "Enter your "@ + provider@ + " API key ("@ + (if has_existing_key {
            "Enter to keep existing, or "@
        } else {
            "or "@
        }) + "set "@ + env_hint_of(provider@) + " env var later)"@,
{
    let mut s = owned("Enter your ");
    push_str(&mut s, provider);
    push_str(&mut s, " API key (");
    if has_existing_key {
        push_str(&mut s, "Enter to keep existing, or ");
    } else {
        push_str(&mut s, "or ");
    }
    push_str(&mut s, "set ");
    let hint = env_hint(provider);
    push_str(&mut s, hint.as_str());
    push_str(&mut s, " env var later)");
    s
}

/// The key to use and whether it is the one configured before: the entered key
/// (trimmed), or the configured one when nothing was entered and one exists.
pub fn resolve_api_key(entered: &str, existing_key: Option<&str>) -> (r: (String, bool))
    ensures
        match existing_key {
            Some(k) => if trim(entered@).len() == 0 {
                r.0@ == k@ && r.1
            } else {
                r.0@ == trim(entered@) && !r.1
            },
            None => r.0@ == trim(entered@) && !r.1,
        },
{
    let t = trimmed(entered);
    match existing_key {
        Some(k) => if t.as_str().is_empty() {
            (owned(k), true)
        } else {
            (t, false)
        },
        None => (t, false),
    }
}

/// How the API key is stored.
#[derive(Debug, Clone, Copy, PartialEq, Eq, Structural)]
pub enum KeyStorage {
    /// Ask the user (a new key was entered): vault, plain text, or environment.
    Ask,
    /// Keep it in the configuration file (the earlier key was kept).
    Plaintext,
    /// Store nothing; the environment variable is used.
    Skip,
}

/// How the key is stored: asked for a new key, kept in the file for the earlier
/// key, skipped when there is none.
pub fn key_storage(api_key: &str, kept_existing: bool) -> (r: KeyStorage)
    ensures
        r == (if api_key@.len() > 0 && !kept_existing {
            KeyStorage::Ask
        } else if kept_existing {
            KeyStorage::Plaintext
        } else {
            KeyStorage::Skip
        }),
{
    if !api_key.is_empty() && !kept_existing {
        KeyStorage::Ask
    } else if kept_existing {
        KeyStorage::Plaintext
    } else {
        KeyStorage::Skip
    }
}

/// The system prompt offered as the default answer.
pub fn default_system_prompt(existing: Option<&str>) -> (r: String)
    ensures
        r@ == match existing {
            Some(p) => p@,
            None => "You are a helpful personal AI assistant."@,
        },
{
    match existing {
        Some(p) => owned(p),
        None => owned("You are a helpful personal AI assistant."),
    }
}

/// Write the answers into the configuration: the `main` provider entry is replaced
/// (or added) with the chosen provider and the key to keep in the file, and the
/// system prompt is set (cleared when empty). Everything else stays.
pub fn apply_answers(config: &mut AppConfig, provider: &str, api_key_in_file: Option<String>, system_prompt: String)
    ensures
        final(config).llm@.len() == (match first_index(entry_keys(old(config).llm@), "main"@) {
            Some(_) => old(config).llm@.len(),
            None => old(config).llm@.len() + 1,
        }),
        forall|i: int| 0 <= i < old(config).llm@.len() && Some(i) != first_index(entry_keys(old(config).llm@), "main"@)
            ==> #[trigger] final(config).llm@[i] == old(config).llm@[i],
        match first_index(entry_keys(old(config).llm@), "main"@) {
            Some(i) => final(config).llm@[i].0@ == "main"@ && provider_entry(final(config).llm@[i].1, provider@, api_key_in_file),
            None => final(config).llm@.last().0@ == "main"@ && provider_entry(final(config).llm@.last().1, provider@, api_key_in_file),
        },
        final(config).agent.system_prompt == (if system_prompt@.len() == 0 {
            None
        } else {
            Some(system_prompt)
        }),
        final(config).agent.default_provider == old(config).agent.default_provider,
        final(config).agent.max_tokens == old(config).agent.max_tokens,
        final(config).agent.max_context_tokens == old(config).agent.max_context_tokens,
        final(config).memory == old(config).memory,
        final(config).gateway == old(config).gateway,
        final(config).data_dir == old(config).data_dir,
        final(config).log_level == old(config).log_level,
        final(config).channels@ == old(config).channels@,
        final(config).embeddings@ == old(config).embeddings@,
        final(config).mcp@ == old(config).mcp@,
        final(config).agents@ == old(config).agents@,
{
    let entry = LlmProviderConfig { provider: owned(provider), model: None, api_key: api_key_in_file, base_url: None, extra: Vec::new() };
    match entry_position(&config.llm, "main") {
        Some(i) => {
            config.llm.set(i, (owned("main"), entry));
        },
        None => {
            config.llm.push((owned("main"), entry));
        },
    }
    config.agent.system_prompt = if system_prompt.as_str().is_empty() {
        None
    } else {
        Some(system_prompt)
    };
}

/// Whether `e` is the provider entry the wizard writes.
pub open spec fn provider_entry(e: LlmProviderConfig, provider: Seq<char>, api_key: Option<String>) -> bool {
    &&& e.provider@ == provider
    &&& e.model is None
    &&& e.api_key == api_key
    &&& e.base_url is None
    &&& e.extra@.len() == 0
}

/// A system prompt as the summary shows it: cut after 57 bytes, with `...`, when it
/// is longer than 60 bytes.
pub open spec fn prompt_display(p: Seq<char>) -> Seq<char> {
    if utf8_len(p) > 60 {
        byte_prefix(p, 57) + "..."@
    } else {
        p
    }
}

/// Whether a prompt can be shown: it is short, or byte 57 starts a character.
pub open spec fn displayable(p: Seq<char>) -> bool {
    utf8_len(p) > 60 ==> vstd::utf8::is_char_boundary(vstd::utf8::encode_utf8(p), 57)
}

/// The lines of the summary of a configuration: its main provider and whether it
/// has a key, its system prompt, its channels, how many MCP servers it has, and a
/// blank line.
pub open spec fn summary_lines(c: AppConfig) -> Seq<Seq<char>> {
    let provider = match first_index(entry_keys(c.llm@), "main"@) {
        Some(i) => seq![
            "  Provider:      "@ + c.llm@[i].1.provider@,
            if c.llm@[i].1.api_key is Some {
                "  API key:       configured"@
            } else {
                "  API key:       not set (using env var)"@
            },
        ],
        None => seq!["  Provider:      not configured"@],
    };
    let prompt = match c.agent.system_prompt {
        Some(p) => seq!["  System prompt: "@ + prompt_display(p@)],
        None => Seq::empty(),
    };
    let channels = if c.channels@.len() > 0 {
        seq!["  Channels:      "@ + join(entry_keys(c.channels@), ", "@)]
    } else {
        Seq::empty()
    };
    let mcp = if c.mcp@.len() > 0 {
        seq!["  MCP servers:   "@ + decimal(c.mcp@.len())]
    } else {
        Seq::empty()
    };
    provider + prompt + channels + mcp + seq![Seq::<char>::empty()]
}

fn prompt_display_of(p: &str) -> (r: String)
    requires
        displayable(p@),
    ensures
        r@ == prompt_display(p@),
{
    if crate::text::str_byte_len(p) > 60 {
        let (head, _) = p.split_at(57);
        proof {
            assert(vstd::utf8::encode_utf8(head@) =~= vstd::utf8::encode_utf8(p@).subrange(0, 57));
            vstd::utf8::encode_utf8_decode_utf8(head@);
        }
        let mut s = owned(head);
        push_str(&mut s, "...");
        s
    } else {
        owned(p)
    }
}

/// The summary of an existing configuration, line by line.
pub fn config_summary(config: &AppConfig) -> (r: Vec<String>)
    requires
        config.agent.system_prompt matches Some(p) ==> displayable(p@),
    ensures
        views(r@) == summary_lines(*config),
{
    let mut lines: Vec<String> = Vec::new();
    match entry_position(&config.llm, "main") {
        Some(i) => {
            let e = &config.llm[i].1;
            let mut l = owned("  Provider:      ");
            push_str(&mut l, e.provider.as_str());
            lines.push(l);
            if e.api_key.is_some() {
                lines.push(owned("  API key:       configured"));
            } else {
                lines.push(owned("  API key:       not set (using env var)"));
            }
        },
        None => {
            lines.push(owned("  Provider:      not configured"));
        },
    }
    let ghost a = views(lines@);
    if let Some(p) = &config.agent.system_prompt {
        let mut l = owned("  System prompt: ");
        let d = prompt_display_of(p.as_str());
        push_str(&mut l, d.as_str());
        lines.push(l);
    }
    let ghost b = views(lines@);
    if config.channels.len() > 0 {
        let mut names: Vec<String> = Vec::new();
        let mut k: usize = 0;
        while k < config.channels.len()
            invariant
                k <= config.channels@.len(),
                views(names@) == entry_keys(config.channels@).take(k as int),
            decreases config.channels@.len() - k,
        {
            let ghost before = views(names@);
            names.push(config.channels[k].0.clone());
            assert(views(names@) =~= before.push(config.channels@[k as int].0@));
            assert(entry_keys(config.channels@).take(k + 1) =~= entry_keys(config.channels@).take(k as int).push(
                config.channels@[k as int].0@,
            ));
            k += 1;
        }
        assert(entry_keys(config.channels@).take(k as int) =~= entry_keys(config.channels@));
        let mut l = owned("  Channels:      ");
        let joined = join_strings(&names, ", ");
        push_str(&mut l, joined.as_str());
        lines.push(l);
    }
    let ghost c = views(lines@);
    if config.mcp.len() > 0 {
        let mut l = owned("  MCP servers:   ");
        push_decimal(&mut l, config.mcp.len() as u64);
        lines.push(l);
    }
    let ghost d = views(lines@);
    lines.push(String::new());
    proof {
        let sl = summary_lines(*config);
        assert(views(lines@) =~= d.push(Seq::<char>::empty()));
    }
    assert(views(lines@) =~= summary_lines(*config));
    lines
}

/// What the wizard prints when it cannot ask questions: where to edit the
/// configuration, and a minimal example.
pub fn non_interactive_help(config_dir: &str) -> (r: Vec<String>)
    ensures
        views(r@) == seq![
            "Non-interactive environment detected."@,
            "To configure OpenCrust, edit: "@ + config_dir@ + "/config.yml"@,
            Seq::<char>::empty(),
            "Minimal config.yml example:"@,
            "---"@,
            "llm:"@,
            "  main:"@,
            "    provider: anthropic"@,
            "    api_key: sk-ant-..."@,
            "agent:"@,
            "  system_prompt: \"You are a helpful assistant.\""@,
        ],
{
    let mut r: Vec<String> = Vec::new();
    r.push(owned("Non-interactive environment detected."));
    let mut l = owned("To configure OpenCrust, edit: ");
    push_str(&mut l, config_dir);
    push_str(&mut l, "/config.yml");
    r.push(l);
    r.push(String::new());
    r.push(owned("Minimal config.yml example:"));
    r.push(owned("---"));
    r.push(owned("llm:"));
    r.push(owned("  main:"));
    r.push(owned("    provider: anthropic"));
    r.push(owned("    api_key: sk-ant-..."));
    r.push(owned("agent:"));
    r.push(owned("  system_prompt: \"You are a helpful assistant.\""));
    assert(views(r@) =~= seq![
        "Non-interactive environment detected."@,
        "To configure OpenCrust, edit: "@ + config_dir@ + "/config.yml"@,
        Seq::<char>::empty(),
        "Minimal config.yml example:"@,
        "---"@,
        "llm:"@,
        "  main:"@,
        "    provider: anthropic"@,
        "    api_key: sk-ant-..."@,
        "agent:"@,
        "  system_prompt: \"You are a helpful assistant.\""@,
    ]);
    r
}

} // verus!
