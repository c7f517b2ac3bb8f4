//! Building the layered system prompt and the context strings injected into it.
use vstd::prelude::*;
use crate::providers::{ContentBlock, MessagePart};
use crate::text::{is_blank, join, owned, push_str, trim, trimmed, is_blank_str, views, join_strings};

verus! {

broadcast use vstd::string::group_string_axioms;

/// `base` joined with `name` (what `Path::join` gives on Unix): an absolute `name`
/// replaces `base`.
pub open spec fn path_join(base: Seq<char>, name: Seq<char>) -> Seq<char> {
    if name.len() > 0 && name[0] == '/' {
        name
    } else if base.len() == 0 || base.last() == '/' {
        base + name
    } else {
        base + seq!['/'] + name
    }
}

/// Join a relative path onto a base path.
pub fn join_path(base: &str, name: &str) -> (r: String)
    ensures
        r@ == path_join(base@, name@),
{
    let n = crate::text::chars_of(name);
    if n.len() > 0 && n[0] == '/' {
        return owned(name);
    }
    let v = crate::text::chars_of(base);
    let mut r = owned(base);
    if v.len() > 0 && v[v.len() - 1] != '/' {
        crate::text::push_char(&mut r, '/');
    }
    push_str(&mut r, name);
    r
}

/// The configuration directory: `~/.opencrust`, or `.opencrust` when the home
/// directory is unknown.
pub open spec fn config_dir_for(home: Option<Seq<char>>) -> Seq<char> {
    match home {
        Some(h) => path_join(h, ".opencrust"@),
        None => ".opencrust"@,
    }
}

/// The user's home directory, as text, if it can be determined (`dirs::home_dir`).
/// It depends on the environment, so nothing is claimed of it.
#[verifier::external_body]
pub fn home_dir() -> (r: Option<String>) {
    dirs::home_dir().map(|p| p.to_string_lossy().into_owned())
}

/// The configuration directory for a given home directory.
pub fn config_dir_from(home: &Option<String>) -> (r: String)
    ensures
        r@ == config_dir_for(
            match home {
                Some(h) => Some(h@),
                None => None,
            },
        ),
{
    match home {
        Some(h) => join_path(h.as_str(), ".opencrust"),
        None => owned(".opencrust"),
    }
}

/// The instruction injected when no personality file exists yet, naming where
/// the agent should write it.
pub open spec fn bootstrap_text(dna_path: Seq<char>) -> Seq<char> {
    "IMPORTANT: You have not been personalized yet. Your FIRST priority before doing ANYTHING else is to collect the user's preferences. Do NOT answer their question yet. Instead, introduce yourself briefly and ask:\n1. What should I call you?\n2. What should I call myself?\n3. How do you prefer I communicate - casual, professional, or something else?\n4. Any specific guidelines or things to avoid?\n\nKeep it to 2-3 sentences. Once they answer, use the file_write tool to create "@
        + dna_path
        + " with a markdown document capturing their preferences and your identity, then continue helping with whatever they originally asked.\n\nIf the user explicitly says to skip or ignores the questions twice, write a minimal "@
        + dna_path + " with sensible defaults and move on."@
}

/// The bootstrap instruction for a given configuration directory.
pub fn bootstrap_instruction_for(config_dir: &str) -> (r: String)
    ensures
        r@ == bootstrap_text(path_join(config_dir@, "dna.md"@)),
{
    let dna_path = join_path(config_dir, "dna.md");
    let mut s = owned("IMPORTANT: You have not been personalized yet. Your FIRST priority before doing ANYTHING else is to collect the user's preferences. Do NOT answer their question yet. Instead, introduce yourself briefly and ask:\n1. What should I call you?\n2. What should I call myself?\n3. How do you prefer I communicate - casual, professional, or something else?\n4. Any specific guidelines or things to avoid?\n\nKeep it to 2-3 sentences. Once they answer, use the file_write tool to create ");
    push_str(&mut s, dna_path.as_str());
    push_str(&mut s, " with a markdown document capturing their preferences and your identity, then continue helping with whatever they originally asked.\n\nIf the user explicitly says to skip or ignores the questions twice, write a minimal ");
    push_str(&mut s, dna_path.as_str());
    push_str(&mut s, " with sensible defaults and move on.");
    s
}

/// The bootstrap instruction, naming `dna.md` in the configuration directory under
/// the user's home directory.
pub fn bootstrap_instruction() -> (r: String)
    ensures
        exists|home: Option<Seq<char>>| r@ == bootstrap_text(path_join(config_dir_for(home), "dna.md"@)),
{
    let home = home_dir();
    let dir = config_dir_from(&home);
    bootstrap_instruction_for(dir.as_str())
}

/// An optional string slice by its view.
pub open spec fn opt_view(o: Option<&str>) -> Option<Seq<char>> {
    match o {
        Some(s) => Some(s@),
        None => None,
    }
}

/// The layers of the system prompt, in order: base prompt, personality (or the
/// bootstrap instruction when there is none), document context, memory context and
/// conversation summary.
pub open spec fn prompt_layers(
    effective: Option<Seq<char>>,
    dna: Option<Seq<char>>,
    rag: Option<Seq<char>>,
    memory: Option<Seq<char>>,
    summary: Option<Seq<char>>,
    bootstrap: Seq<char>,
) -> Seq<Seq<char>> {
    let a: Seq<Seq<char>> = match effective {
        Some(p) => seq![p],
        None => Seq::empty(),
    };
    let b = match dna {
        Some(d) => a.push(d),
        None => a.push(bootstrap),
    };
    let c = match rag {
        Some(r) => b.push(r),
        None => b,
    };
    let d = match memory {
        Some(m) => c.push(m),
        None => c,
    };
    match summary {
        Some(s) => d.push("Conversation summary:\n"@ + s),
        None => d,
    }
}

/// The system prompt: its layers separated by blank lines.
pub open spec fn system_prompt_text(
    effective: Option<Seq<char>>,
    dna: Option<Seq<char>>,
    rag: Option<Seq<char>>,
    memory: Option<Seq<char>>,
    summary: Option<Seq<char>>,
    bootstrap: Seq<char>,
) -> Seq<char> {
    join(prompt_layers(effective, dna, rag, memory, summary, bootstrap), "\n\n"@)
}

/// Build the system prompt from its layers with a given bootstrap instruction.
pub fn system_prompt_with(
    effective_prompt: Option<&str>,
    dna_content: Option<&str>,
    rag_context: Option<&str>,
    memory_context: Option<&str>,
    session_summary: Option<&str>,
    bootstrap: &str,
) -> (r: String)
    ensures
        r@ == system_prompt_text(
            opt_view(effective_prompt),
            opt_view(dna_content),
            opt_view(rag_context),
            opt_view(memory_context),
            opt_view(session_summary),
            bootstrap@,
        ),
{
    let mut parts: Vec<String> = Vec::new();
    if let Some(p) = effective_prompt {
        parts.push(owned(p));
    }
    match dna_content {
        Some(d) => parts.push(owned(d)),
        None => parts.push(owned(bootstrap)),
    }
    if let Some(rg) = rag_context {
        parts.push(owned(rg));
    }
    if let Some(m) = memory_context {
        parts.push(owned(m));
    }
    if let Some(s) = session_summary {
        let mut t = owned("Conversation summary:\n");
        push_str(&mut t, s);
        parts.push(t);
    }
    proof {
        assert(views(parts@) =~= prompt_layers(
            opt_view(effective_prompt),
            opt_view(dna_content),
            opt_view(rag_context),
            opt_view(memory_context),
            opt_view(session_summary),
            bootstrap@,
        ));
    }
    join_strings(&parts, "\n\n")
}

/// Build the system prompt by combining all layers: base prompt with tool guidance,
/// personality, document context, memory recall and session summary. Without
/// personality content, the bootstrap instruction takes its place.
pub fn build_system_prompt(
    effective_prompt: Option<&str>,
    dna_content: Option<&str>,
    rag_context: Option<&str>,
    memory_context: Option<&str>,
    session_summary: Option<&str>,
) -> (r: Option<String>)
    ensures
        r matches Some(s) && exists|home: Option<Seq<char>>| s@ == system_prompt_text(
            opt_view(effective_prompt),
            opt_view(dna_content),
            opt_view(rag_context),
            opt_view(memory_context),
            opt_view(session_summary),
            bootstrap_text(path_join(config_dir_for(home), "dna.md"@)),
        ),
{
    let bootstrap = bootstrap_instruction();
    Some(system_prompt_with(effective_prompt, dna_content, rag_context, memory_context, session_summary, bootstrap.as_str()))
}

/// The header put before document context inside the user message.
pub open spec fn rag_preamble() -> Seq<char> {
    "[Retrieved document context \u{2014} answer using this information, do not ask for a file path]:\n"@
}

/// Prepend document context directly into a plain-text user message so the model
/// cannot ignore it. Messages made of blocks are returned unchanged.
pub fn inject_rag_into_content(user_content: MessagePart, rag_context: Option<&str>) -> (r: MessagePart)
    ensures
        match (user_content, rag_context) {
            (MessagePart::Text(t), Some(rag)) => r matches MessagePart::Text(u) && u@ == rag_preamble()
                + rag@ + "\n\n---\n\n"@ + t@,
            _ => r == user_content,
        },
{
    match rag_context {
        None => user_content,
        Some(rag) => match user_content {
            MessagePart::Text(text) => {
                let mut s = owned("[Retrieved document context \u{2014} answer using this information, do not ask for a file path]:\n");
                push_str(&mut s, rag);
                push_str(&mut s, "\n\n---\n\n");
                push_str(&mut s, text.as_str());
                MessagePart::Text(s)
            },
            other => other,
        },
    }
}

/// The texts of the text blocks of `content`, in order.
pub open spec fn text_pieces(content: Seq<ContentBlock>) -> Seq<Seq<char>>
    decreases content.len(),
{
    if content.len() == 0 {
        Seq::empty()
    } else {
        match content.last() {
            ContentBlock::Text { text } => text_pieces(content.drop_last()).push(text@),
            _ => text_pieces(content.drop_last()),
        }
    }
}

/// The text of a response: its text blocks joined by newlines.
pub fn extract_text(content: &Vec<ContentBlock>) -> (r: String)
    ensures
        r@ == join(text_pieces(content@), "\n"@),
{
    let mut pieces: Vec<String> = Vec::new();
    let mut i: usize = 0;
    while i < content.len()
        invariant
            i <= content@.len(),
            views(pieces@) == text_pieces(content@.take(i as int)),
        decreases content@.len() - i,
    {
        proof {
            assert(content@.take(i + 1).drop_last() =~= content@.take(i as int));
        }
        let ghost before = pieces@;
        if let ContentBlock::Text { text } = &content[i] {
            pieces.push(text.clone());
            assert(views(pieces@) =~= views(before).push(text@));
        }
        i += 1;
    }
    assert(content@.take(content@.len() as int) =~= content@);
    join_strings(&pieces, "\n")
}

/// The memory context for recalled entries: `None` when nothing was recalled.
pub open spec fn memory_context_text(contents: Seq<Seq<char>>) -> Option<Seq<char>> {
    if contents.len() == 0 {
        None
    } else {
        Some("Relevant context from memory:\n- "@ + join(contents, "\n- "@))
    }
}

/// Format recalled memory entries as a bulleted context block.
pub fn memory_context(contents: &Vec<String>) -> (r: Option<String>)
    ensures
        match r {
            Some(s) => memory_context_text(views(contents@)) == Some(s@),
            None => memory_context_text(views(contents@)) is None,
        },
{
    if contents.len() == 0 {
        return None;
    }
    let mut s = owned("Relevant context from memory:\n- ");
    let j = join_strings(contents, "\n- ");
    push_str(&mut s, j.as_str());
    Some(s)
}

/// A retrieved document chunk: the document's name and the chunk's text.
#[derive(Debug, Clone, PartialEq, Eq)]
pub struct DocumentChunk {
    pub document_name: String,
    pub text: String,
}

/// The text of one retrieved chunk inside the document context block.
pub open spec fn chunk_layer(c: DocumentChunk) -> Seq<char> {
    "--- "@ + c.document_name@ + " ---\n"@ + c.text@
}

/// The opening lines of the document context block.
pub open spec fn rag_head() -> Seq<Seq<char>> {
    seq![
        "=== DOCUMENT CONTEXT (retrieved) ==="@,
        "The following content has been retrieved from the document store. Use it to answer the user's question. Do NOT ask for a file path. Do NOT say you cannot access files."@,
    ]
}

/// The layers of the document context block for `chunks`.
pub open spec fn rag_layers(chunks: Seq<DocumentChunk>) -> Seq<Seq<char>> {
    rag_head() + chunks.map_values(|c: DocumentChunk| chunk_layer(c)) + seq!["=== END DOCUMENT CONTEXT ==="@]
}

/// The document context block for retrieved chunks: `None` when nothing scored
/// above the threshold.
pub fn rag_context_text(chunks: &Vec<DocumentChunk>) -> (r: Option<String>)
    ensures
        chunks@.len() == 0 ==> r is None,
        chunks@.len() > 0 ==> (r matches Some(s) && s@ == join(rag_layers(chunks@), "\n\n"@)),
{
    if chunks.len() == 0 {
        return None;
    }
    let mut parts: Vec<String> = Vec::new();
    parts.push(owned("=== DOCUMENT CONTEXT (retrieved) ==="));
    parts.push(owned("The following content has been retrieved from the document store. Use it to answer the user's question. Do NOT ask for a file path. Do NOT say you cannot access files."));
    assert(views(parts@) =~= rag_head());
    let mut i: usize = 0;
    while i < chunks.len()
        invariant
            i <= chunks@.len(),
            views(parts@) == rag_head() + chunks@.take(i as int).map_values(|c: DocumentChunk| chunk_layer(c)),
        decreases chunks@.len() - i,
    {
        let ghost before = parts@;
        let mut p = owned("--- ");
        push_str(&mut p, chunks[i].document_name.as_str());
        push_str(&mut p, " ---\n");
        push_str(&mut p, chunks[i].text.as_str());
        assert(p@ == chunk_layer(chunks@[i as int]));
        parts.push(p);
        assert(views(parts@) =~= views(before).push(p@));
        assert(chunks@.take(i + 1).map_values(|c: DocumentChunk| chunk_layer(c)) =~= chunks@.take(
            i as int,
        ).map_values(|c: DocumentChunk| chunk_layer(c)).push(chunk_layer(chunks@[i as int])));
        i += 1;
        assert(views(parts@) =~= rag_head() + chunks@.take(i as int).map_values(|c: DocumentChunk| chunk_layer(c)));
    }
    let ghost mid = parts@;
    parts.push(owned("=== END DOCUMENT CONTEXT ==="));
    assert(views(parts@) =~= views(mid).push("=== END DOCUMENT CONTEXT ==="@));
    assert(chunks@.take(i as int) =~= chunks@);
    assert(views(parts@) =~= rag_layers(chunks@));
    Some(join_strings(&parts, "\n\n"))
}

/// The model used for an agent: the trimmed override when it is not blank, else
/// empty (the provider's own default).
pub open spec fn effective_model_spec(model_override: Option<Seq<char>>) -> Seq<char> {
    match model_override {
        Some(m) => if is_blank(m) { Seq::empty() } else { trim(m) },
        None => Seq::empty(),
    }
}

/// The model used for an agent with an optional override.
pub fn effective_model(model_override: Option<&str>) -> (r: String)
    ensures
        r@ == effective_model_spec(opt_view(model_override)),
{
    match model_override {
        Some(m) => {
            if is_blank_str(m) {
                String::new()
            } else {
                trimmed(m)
            }
        },
        None => String::new(),
    }
}

/// The output token limit: the override, else the configured limit, else 4096.
pub fn effective_max_tokens(max_tokens_override: Option<u32>, configured: Option<u32>) -> (r: u32)
    ensures
        r == match max_tokens_override {
            Some(m) => m,
            None => match configured {
                Some(c) => c,
                None => 4096u32,
            },
        },
{
    match max_tokens_override {
        Some(m) => m,
        None => match configured {
            Some(c) => c,
            None => 4096,
        },
    }
}

} // verus!
