//! Context-window management: token estimates, trimming and the planning of
//! summarization-aware compaction.
use vstd::prelude::*;
use crate::providers::{ChatMessage, ChatRole, ContentBlock, LlmRequest, MessagePart, ToolDefinition};
use crate::text::{utf8_len, owned, push_str, join, views};

verus! {

broadcast use vstd::string::group_string_axioms;

/// Characters an image block is counted as.
pub const IMAGE_CHARS: usize = 1000;

/// The characters counted for one content block.
pub open spec fn block_chars(b: ContentBlock) -> nat {
    match b {
        ContentBlock::Text { text } => utf8_len(text@),
        ContentBlock::ToolUse { input, .. } => utf8_len(input@),
        ContentBlock::ToolResult { content, .. } => utf8_len(content@),
        ContentBlock::Image { .. } => IMAGE_CHARS as nat,
    }
}

pub open spec fn blocks_chars(bs: Seq<ContentBlock>) -> nat
    decreases bs.len(),
{
    if bs.len() == 0 {
        0
    } else {
        blocks_chars(bs.drop_last()) + block_chars(bs.last())
    }
}

/// The characters counted for one message.
pub open spec fn message_chars(m: ChatMessage) -> nat {
    match m.content {
        MessagePart::Text(t) => utf8_len(t@),
        MessagePart::Parts(ps) => blocks_chars(ps@),
    }
}

pub open spec fn messages_chars(ms: Seq<ChatMessage>) -> nat
    decreases ms.len(),
{
    if ms.len() == 0 {
        0
    } else {
        messages_chars(ms.drop_last()) + message_chars(ms.last())
    }
}

pub open spec fn tools_chars(ts: Seq<ToolDefinition>) -> nat
    decreases ts.len(),
{
    if ts.len() == 0 {
        0
    } else {
        tools_chars(ts.drop_last()) + utf8_len(ts.last().description@) + utf8_len(
            ts.last().input_schema@,
        )
    }
}

pub open spec fn system_chars(system: Option<String>) -> nat {
    match system {
        Some(s) => utf8_len(s@),
        None => 0,
    }
}

/// All characters counted: system prompt, message contents, tool descriptions and schemas.
pub open spec fn total_chars(ms: Seq<ChatMessage>, system: Option<String>, ts: Seq<ToolDefinition>) -> nat {
    system_chars(system) + messages_chars(ms) + tools_chars(ts)
}

/// Rough token estimate: about four characters per token.
pub open spec fn estimate(ms: Seq<ChatMessage>, system: Option<String>, ts: Seq<ToolDefinition>) -> nat {
    total_chars(ms, system, ts) / 4
}

/// A prefix of content blocks has no more characters than all of them.
pub proof fn lemma_blocks_chars_take(bs: Seq<ContentBlock>, i: int)
    requires
        0 <= i <= bs.len(),
    ensures
        blocks_chars(bs.take(i)) <= blocks_chars(bs),
    decreases bs.len(),
{
    if i < bs.len() {
        assert(bs.drop_last().take(i) =~= bs.take(i));
        lemma_blocks_chars_take(bs.drop_last(), i);
    } else {
        assert(bs.take(i) =~= bs);
    }
}

/// A prefix of messages has no more characters than all of them.
pub proof fn lemma_messages_chars_take(ms: Seq<ChatMessage>, i: int)
    requires
        0 <= i <= ms.len(),
    ensures
        messages_chars(ms.take(i)) <= messages_chars(ms),
    decreases ms.len(),
{
    if i < ms.len() {
        assert(ms.drop_last().take(i) =~= ms.take(i));
        lemma_messages_chars_take(ms.drop_last(), i);
    } else {
        assert(ms.take(i) =~= ms);
    }
}

/// A prefix of tool definitions has no more characters than all of them.
pub proof fn lemma_tools_chars_take(ts: Seq<ToolDefinition>, i: int)
    requires
        0 <= i <= ts.len(),
    ensures
        tools_chars(ts.take(i)) <= tools_chars(ts),
    decreases ts.len(),
{
    if i < ts.len() {
        assert(ts.drop_last().take(i) =~= ts.take(i));
        lemma_tools_chars_take(ts.drop_last(), i);
    } else {
        assert(ts.take(i) =~= ts);
    }
}

/// Dropping the first message removes exactly its characters.
pub proof fn lemma_messages_chars_drop_first(ms: Seq<ChatMessage>)
    requires
        ms.len() > 0,
    ensures
        messages_chars(ms) == message_chars(ms[0]) + messages_chars(ms.drop_first()),
    decreases ms.len(),
{
    if ms.len() > 1 {
        lemma_messages_chars_drop_first(ms.drop_last());
        assert(ms.drop_last().drop_first() =~= ms.drop_first().drop_last());
    } else {
        assert(ms.drop_first() =~= Seq::<ChatMessage>::empty());
        assert(ms.drop_last() =~= Seq::<ChatMessage>::empty());
    }
}

/// Dropping leading messages never adds characters.
pub proof fn lemma_messages_chars_skip(ms: Seq<ChatMessage>, k: int)
    requires
        0 <= k <= ms.len(),
    ensures
        messages_chars(ms.skip(k)) <= messages_chars(ms),
    decreases k,
{
    if k > 0 {
        lemma_messages_chars_drop_first(ms);
        lemma_messages_chars_skip(ms.drop_first(), k - 1);
        assert(ms.drop_first().skip(k - 1) =~= ms.skip(k));
    } else {
        assert(ms.skip(0) =~= ms);
    }
}

fn str_chars(s: &String) -> (n: usize)
    requires
        utf8_len(s@) <= usize::MAX,
    ensures
        n == utf8_len(s@),
{
    s.as_str().len()
}

fn blocks_chars_exec(bs: &Vec<ContentBlock>) -> (n: usize)
    requires
        blocks_chars(bs@) <= usize::MAX,
    ensures
        n == blocks_chars(bs@),
{
    let mut n: usize = 0;
    let mut i: usize = 0;
    while i < bs.len()
        invariant
            i <= bs@.len(),
            blocks_chars(bs@) <= usize::MAX,
            n == blocks_chars(bs@.take(i as int)),
        decreases bs@.len() - i,
    {
        proof {
            assert(bs@.take(i + 1).drop_last() =~= bs@.take(i as int));
            lemma_blocks_chars_take(bs@, i + 1);
        }
        let c = match &bs[i] {
            ContentBlock::Text { text } => str_chars(text),
            ContentBlock::ToolUse { input, .. } => str_chars(input),
            ContentBlock::ToolResult { content, .. } => str_chars(content),
            ContentBlock::Image { .. } => IMAGE_CHARS,
        };
        n = n + c;
        i += 1;
    }
    assert(bs@.take(bs@.len() as int) =~= bs@);
    n
}

fn message_chars_exec(m: &ChatMessage) -> (n: usize)
    requires
        message_chars(*m) <= usize::MAX,
    ensures
        n == message_chars(*m),
{
    match &m.content {
        MessagePart::Text(t) => str_chars(t),
        MessagePart::Parts(ps) => blocks_chars_exec(ps),
    }
}

/// The characters of `ms[from..]`.
fn messages_chars_from(ms: &Vec<ChatMessage>, from: usize) -> (n: usize)
    requires
        from <= ms@.len(),
        messages_chars(ms@) <= usize::MAX,
    ensures
        n == messages_chars(ms@.skip(from as int)),
{
    let ghost s = ms@.skip(from as int);
    proof {
        lemma_messages_chars_skip(ms@, from as int);
    }
    let mut n: usize = 0;
    let mut i: usize = from;
    while i < ms.len()
        invariant
            from <= i <= ms@.len(),
            s == ms@.skip(from as int),
            messages_chars(s) <= usize::MAX,
            n == messages_chars(s.take(i - from)),
        decreases ms@.len() - i,
    {
        proof {
            assert(s.take(i - from + 1).drop_last() =~= s.take(i - from));
            assert(s.take(i - from + 1).last() == ms@[i as int]);
            lemma_messages_chars_take(s, i - from + 1);
        }
        let c = message_chars_exec(&ms[i]);
        n = n + c;
        i += 1;
    }
    assert(s.take(i - from) =~= s);
    n
}

fn tools_chars_exec(ts: &Vec<ToolDefinition>) -> (n: usize)
    requires
        tools_chars(ts@) <= usize::MAX,
    ensures
        n == tools_chars(ts@),
{
    let mut n: usize = 0;
    let mut i: usize = 0;
    while i < ts.len()
        invariant
            i <= ts@.len(),
            tools_chars(ts@) <= usize::MAX,
            n == tools_chars(ts@.take(i as int)),
        decreases ts@.len() - i,
    {
        proof {
            assert(ts@.take(i + 1).drop_last() =~= ts@.take(i as int));
            lemma_tools_chars_take(ts@, i + 1);
        }
        let a = str_chars(&ts[i].description);
        let b = str_chars(&ts[i].input_schema);
        n = n + a + b;
        i += 1;
    }
    assert(ts@.take(ts@.len() as int) =~= ts@);
    n
}

/// The estimate for `ms[from..]`.
fn estimate_from(
    ms: &Vec<ChatMessage>,
    from: usize,
    system: &Option<String>,
    tools: &Vec<ToolDefinition>,
) -> (r: usize)
    requires
        from <= ms@.len(),
        total_chars(ms@, *system, tools@) <= usize::MAX,
    ensures
        r == estimate(ms@.skip(from as int), *system, tools@),
{
    proof {
        lemma_messages_chars_skip(ms@, from as int);
    }
    let s = match system {
        Some(s) => str_chars(s),
        None => 0,
    };
    let m = messages_chars_from(ms, from);
    let t = tools_chars_exec(tools);
    (s + m + t) / 4
}

/// Rough token estimate: about four characters per token, counting the system
/// prompt, every message's text (an image counts 1000 characters, a tool input its
/// JSON text), and each tool's description and schema.
pub fn estimate_tokens(
    messages: &Vec<ChatMessage>,
    system: &Option<String>,
    tools: &Vec<ToolDefinition>,
) -> (r: usize)
    requires
        total_chars(messages@, *system, tools@) <= usize::MAX,
    ensures
        r == estimate(messages@, *system, tools@),
{
    assert(messages@.skip(0) =~= messages@);
    estimate_from(messages, 0, system, tools)
}

/// How many leading messages trimming drops: the oldest go until the estimate fits
/// `max_tokens` or one message is left.
pub open spec fn trim_point(
    ms: Seq<ChatMessage>,
    system: Option<String>,
    ts: Seq<ToolDefinition>,
    max_tokens: nat,
) -> nat
    decreases ms.len(),
{
    if ms.len() <= 1 || estimate(ms, system, ts) <= max_tokens {
        0
    } else {
        1 + trim_point(ms.drop_first(), system, ts, max_tokens)
    }
}

/// Trimming never drops more messages than there are, and keeps one when there is one.
pub proof fn lemma_trim_point_bound(
    ms: Seq<ChatMessage>,
    system: Option<String>,
    ts: Seq<ToolDefinition>,
    max_tokens: nat,
)
    ensures
        trim_point(ms, system, ts, max_tokens) <= ms.len(),
        ms.len() > 0 ==> trim_point(ms, system, ts, max_tokens) < ms.len(),
    decreases ms.len(),
{
    if ms.len() > 1 && estimate(ms, system, ts) > max_tokens {
        lemma_trim_point_bound(ms.drop_first(), system, ts, max_tokens);
    }
}

/// The trim point of `ms[from..]`, computed.
fn trim_point_from(
    ms: &Vec<ChatMessage>,
    from: usize,
    system: &Option<String>,
    tools: &Vec<ToolDefinition>,
    max_tokens: usize,
) -> (k: usize)
    requires
        from <= ms@.len(),
        total_chars(ms@, *system, tools@) <= usize::MAX,
    ensures
        from + k <= ms@.len(),
        k == trim_point(ms@.skip(from as int), *system, tools@, max_tokens as nat),
    decreases ms@.len() - from,
{
    let ghost s = ms@.skip(from as int);
    if ms.len() - from <= 1 {
        return 0;
    }
    let e = estimate_from(ms, from, system, tools);
    if e <= max_tokens {
        return 0;
    }
    let k = trim_point_from(ms, from + 1, system, tools, max_tokens);
    assert(s.drop_first() =~= ms@.skip(from + 1));
    k + 1
}

/// Drop the oldest messages until the estimated token count fits the budget.
/// Always keeps at least the last message (the current user input).
pub fn trim_messages_to_budget(
    messages: &mut Vec<ChatMessage>,
    system: &Option<String>,
    tools: &Vec<ToolDefinition>,
    max_tokens: usize,
)
    requires
        total_chars(old(messages)@, *system, tools@) <= usize::MAX,
    ensures
        final(messages)@ == old(messages)@.skip(
            trim_point(old(messages)@, *system, tools@, max_tokens as nat) as int,
        ),
{
    let k = trim_point_from(messages, 0, system, tools, max_tokens);
    assert(old(messages)@.skip(0) =~= old(messages)@);
    let ghost orig = messages@;
    let mut i: usize = 0;
    while i < k
        invariant
            i <= k,
            k <= orig.len(),
            messages@ == orig.skip(i as int),
        decreases k - i,
    {
        messages.remove(0);
        i += 1;
        assert(messages@ =~= orig.skip(i as int));
    }
}

/// Trimming keeps the latest message and drops only from the front.
pub proof fn lemma_trim_keeps_last(
    ms: Seq<ChatMessage>,
    system: Option<String>,
    ts: Seq<ToolDefinition>,
    max_tokens: nat,
)
    requires
        ms.len() > 0,
    ensures
        ms.skip(trim_point(ms, system, ts, max_tokens) as int).len() >= 1,
        ms.skip(trim_point(ms, system, ts, max_tokens) as int).last() == ms.last(),
{
    lemma_trim_point_bound(ms, system, ts, max_tokens);
}

/// Trimming drops the fewest messages it can: every shorter cut leaves more than
/// one message over the budget.
pub proof fn lemma_trim_drops_fewest(
    ms: Seq<ChatMessage>,
    system: Option<String>,
    ts: Seq<ToolDefinition>,
    max_tokens: nat,
    j: int,
)
    requires
        0 <= j < trim_point(ms, system, ts, max_tokens),
    ensures
        ms.skip(j).len() > 1,
        estimate(ms.skip(j), system, ts) > max_tokens,
    decreases ms.len(),
{
    lemma_trim_point_bound(ms, system, ts, max_tokens);
    if j == 0 {
        assert(ms.skip(0) =~= ms);
    } else {
        lemma_trim_drops_fewest(ms.drop_first(), system, ts, max_tokens, j - 1);
        assert(ms.drop_first().skip(j - 1) =~= ms.skip(j));
    }
}

/// Trimming only drops when the messages are over budget, and stops as soon as
/// they fit or one is left.
pub proof fn lemma_trim_fits_or_single(
    ms: Seq<ChatMessage>,
    system: Option<String>,
    ts: Seq<ToolDefinition>,
    max_tokens: nat,
)
    ensures
        ({
            let rest = ms.skip(trim_point(ms, system, ts, max_tokens) as int);
            rest.len() <= 1 || estimate(rest, system, ts) <= max_tokens
        }),
    decreases ms.len(),
{
    if ms.len() <= 1 || estimate(ms, system, ts) <= max_tokens {
        assert(ms.skip(0) =~= ms);
    } else {
        lemma_trim_fits_or_single(ms.drop_first(), system, ts, max_tokens);
        let k = trim_point(ms.drop_first(), system, ts, max_tokens);
        lemma_trim_point_bound(ms.drop_first(), system, ts, max_tokens);
        assert(ms.drop_first().skip(k as int) =~= ms.skip((k + 1) as int));
    }
}

/// The plan for compacting a conversation before a request.
#[derive(Debug, Clone, PartialEq, Eq)]
pub enum CompactionPlan {
    /// Under 75% of the budget: nothing to do.
    Keep,
    /// Trim to the budget, without summarizing.
    Trim,
    /// Ask the provider for a summary of the first `drop_count` messages.
    Summarize { drop_count: usize, request: LlmRequest },
}

/// The label of a role in the summary input.
pub open spec fn role_label(r: ChatRole) -> Seq<char> {
    match r {
        ChatRole::User => "User"@,
        ChatRole::Assistant => "Assistant"@,
        ChatRole::System => "System"@,
        ChatRole::Tool => "Tool"@,
    }
}

/// The text pieces of blocks that a summary keeps: text and tool results.
pub open spec fn summary_pieces(bs: Seq<ContentBlock>) -> Seq<Seq<char>>
    decreases bs.len(),
{
    if bs.len() == 0 {
        Seq::empty()
    } else {
        let rest = summary_pieces(bs.drop_last());
        match bs.last() {
            ContentBlock::Text { text } => rest.push(text@),
            ContentBlock::ToolResult { content, .. } => rest.push(content@),
            _ => rest,
        }
    }
}

/// The text of one message in the summary input.
pub open spec fn summary_text(m: ChatMessage) -> Seq<char> {
    match m.content {
        MessagePart::Text(t) => t@,
        MessagePart::Parts(ps) => join(summary_pieces(ps@), seq![' ']),
    }
}

/// The lines `"{role}: {text}\n"` for messages `ms`.
pub open spec fn summary_lines(ms: Seq<ChatMessage>) -> Seq<char>
    decreases ms.len(),
{
    if ms.len() == 0 {
        Seq::empty()
    } else {
        summary_lines(ms.drop_last()) + role_label(ms.last().role) + ": "@ + summary_text(ms.last())
            + seq!['\n']
    }
}

/// The text sent for summarization of `dropped`, after any previous summary.
pub open spec fn summary_input(existing: Option<Seq<char>>, dropped: Seq<ChatMessage>) -> Seq<char> {
    (match existing {
        Some(e) => "Previous summary:\n"@ + e + "\n\n"@,
        None => Seq::empty(),
    }) + "Recent conversation to incorporate:\n"@ + summary_lines(dropped)
}

/// A summarization keeps what was summarized before: with an earlier summary the
/// input is `Previous summary:`, that summary and a blank line, followed by exactly
/// the input that would be sent without it.
pub proof fn lemma_summary_input_keeps_previous(existing: Seq<char>, dropped: Seq<ChatMessage>)
    ensures
        summary_input(Some(existing), dropped) == "Previous summary:\n"@ + existing + "\n\n"@ + summary_input(
            None,
            dropped,
        ),
        crate::text::is_prefix("Previous summary:\n"@ + existing + "\n\n"@, summary_input(Some(existing), dropped)),
        summary_input(Some(existing), dropped).len() == summary_input(None, dropped).len() + existing.len() + 20,
{
    reveal_strlit("Previous summary:\n");
    reveal_strlit("\n\n");
    let p = "Previous summary:\n"@ + existing + "\n\n"@;
    assert(summary_input(Some(existing), dropped) =~= p + summary_input(None, dropped));
    assert(summary_input(Some(existing), dropped).subrange(0, p.len() as int) =~= p);
}

/// The recent conversation is introduced once and then lists each dropped message
/// as a line of its own, in order: one more message adds exactly its line.
pub proof fn lemma_summary_input_lines(existing: Option<Seq<char>>, dropped: Seq<ChatMessage>, m: ChatMessage)
    ensures
        crate::text::is_prefix("Recent conversation to incorporate:\n"@, summary_input(None, dropped)),
        summary_input(existing, dropped.push(m)) == summary_input(existing, dropped) + role_label(m.role) + ": "@
            + summary_text(m) + seq!['\n'],
{
    let h = "Recent conversation to incorporate:\n"@;
    assert(summary_input(None, dropped) =~= h + summary_lines(dropped));
    assert(summary_input(None, dropped).subrange(0, h.len() as int) =~= h);
    assert(dropped.push(m).drop_last() =~= dropped);
    assert(summary_input(existing, dropped.push(m)) =~= summary_input(existing, dropped) + role_label(m.role) + ": "@
        + summary_text(m) + seq!['\n']);
}

/// The instruction given to the provider for a summary.
pub open spec fn summarize_instruction() -> Seq<char> {
    "Summarize this conversation concisely. Preserve key facts, user identity, decisions, and ongoing topics. Be brief."@
}

/// Whether `req` is the summarization request for `input`.
pub open spec fn is_summarize_request(req: LlmRequest, input: Seq<char>) -> bool {
    &&& req.model@ == Seq::<char>::empty()
    &&& req.messages@.len() == 1
    &&& req.messages@[0].role == ChatRole::User
    &&& req.messages@[0].content matches MessagePart::Text(t) && t@ == input
    &&& req.system matches Some(s) && s@ == summarize_instruction()
    &&& req.max_tokens == Some(500u32)
    &&& req.temperature_milli == Some(0u32)
    &&& req.tools@.len() == 0
}

fn push_role_label(out: &mut String, r: ChatRole)
    ensures
        final(out)@ == old(out)@ + role_label(r),
{
    match r {
        ChatRole::User => push_str(out, "User"),
        ChatRole::Assistant => push_str(out, "Assistant"),
        ChatRole::System => push_str(out, "System"),
        ChatRole::Tool => push_str(out, "Tool"),
    }
}

fn push_summary_text(out: &mut String, m: &ChatMessage)
    ensures
        final(out)@ == old(out)@ + summary_text(*m),
{
    match &m.content {
        MessagePart::Text(t) => push_str(out, t.as_str()),
        MessagePart::Parts(ps) => {
            let mut pieces: Vec<String> = Vec::new();
            let mut i: usize = 0;
            while i < ps.len()
                invariant
                    i <= ps@.len(),
                    views(pieces@) == summary_pieces(ps@.take(i as int)),
                decreases ps@.len() - i,
            {
                proof {
                    assert(ps@.take(i + 1).drop_last() =~= ps@.take(i as int));
                }
                let ghost before = pieces@;
                match &ps[i] {
                    ContentBlock::Text { text } => {
                        pieces.push(text.clone());
                        assert(views(pieces@) =~= views(before).push(text@));
                    },
                    ContentBlock::ToolResult { content, .. } => {
                        pieces.push(content.clone());
                        assert(views(pieces@) =~= views(before).push(content@));
                    },
                    _ => {},
                }
                i += 1;
            }
            assert(ps@.take(ps@.len() as int) =~= ps@);
            let joined = crate::text::join_strings(&pieces, " ");
            proof {
                reveal_strlit(" ");
                assert(" "@ =~= seq![' ']);
            }
            push_str(out, joined.as_str());
        },
    }
}

/// The summarization input for the first `drop_count` messages.
pub fn build_summary_input(existing: Option<&str>, messages: &Vec<ChatMessage>, drop_count: usize) -> (r: String)
    requires
        drop_count <= messages@.len(),
    ensures
        r@ == summary_input(
            match existing {
                Some(e) => Some(e@),
                None => None,
            },
            messages@.take(drop_count as int),
        ),
{
    let mut s = String::new();
    if let Some(e) = existing {
        push_str(&mut s, "Previous summary:\n");
        push_str(&mut s, e);
        push_str(&mut s, "\n\n");
    }
    let ghost head = s@;
    push_str(&mut s, "Recent conversation to incorporate:\n");
    let ghost start = s@;
    let mut i: usize = 0;
    while i < drop_count
        invariant
            i <= drop_count <= messages@.len(),
            s@ == start + summary_lines(messages@.take(i as int)),
        decreases drop_count - i,
    {
        proof {
            assert(messages@.take(i + 1).drop_last() =~= messages@.take(i as int));
        }
        push_role_label(&mut s, messages[i].role);
        push_str(&mut s, ": ");
        push_summary_text(&mut s, &messages[i]);
        crate::text::push_char(&mut s, '\n');
        i += 1;
        assert(s@ =~= start + summary_lines(messages@.take(i as int)));
    }
    proof {
        assert(head =~= match existing {
            Some(e) => "Previous summary:\n"@ + e@ + "\n\n"@,
            None => Seq::<char>::empty(),
        });
        assert(s@ =~= summary_input(
            match existing {
                Some(e) => Some(e@),
                None => None,
            },
            messages@.take(drop_count as int),
        ));
    }
    s
}

/// Whether `plan` is the compaction plan for the conversation: keep when the estimate is
/// within 75% of `max_tokens`; trim when summarization is off, there is a single
/// message, or no message needs dropping to reach 70%; otherwise summarize the
/// messages that must go to reach 70%.
pub open spec fn planned(
    ms: Seq<ChatMessage>,
    system: Option<String>,
    ts: Seq<ToolDefinition>,
    max_tokens: nat,
    existing: Option<Seq<char>>,
    enabled: bool,
    plan: CompactionPlan,
) -> bool {
    let current = estimate(ms, system, ts);
    let drop = trim_point(ms, system, ts, max_tokens * 7 / 10);
    if current <= max_tokens * 3 / 4 {
        plan == CompactionPlan::Keep
    } else if !enabled || ms.len() <= 1 || drop == 0 {
        plan == CompactionPlan::Trim
    } else {
        plan matches CompactionPlan::Summarize { drop_count, request } && drop_count == drop
            && is_summarize_request(request, summary_input(existing, ms.take(drop as int)))
    }
}

/// A conversation within 75% of the budget is kept as it is: no summary is asked
/// for and no message is dropped.
pub proof fn lemma_under_threshold_keeps(
    ms: Seq<ChatMessage>,
    system: Option<String>,
    ts: Seq<ToolDefinition>,
    max_tokens: nat,
    existing: Option<Seq<char>>,
    enabled: bool,
    plan: CompactionPlan,
)
    requires
        planned(ms, system, ts, max_tokens, existing, enabled, plan),
        estimate(ms, system, ts) <= max_tokens * 3 / 4,
    ensures
        plan == CompactionPlan::Keep,
{
}

/// Decide how to compact the conversation before a request (the decisions of the
/// summarization-aware compaction; the summary itself comes from the provider).
pub fn plan_compaction(
    messages: &Vec<ChatMessage>,
    system: &Option<String>,
    tools: &Vec<ToolDefinition>,
    max_tokens: usize,
    existing_summary: Option<&str>,
    summarization_enabled: bool,
) -> (plan: CompactionPlan)
    requires
        total_chars(messages@, *system, tools@) <= usize::MAX,
        max_tokens * 3 <= usize::MAX,
        estimate(messages@, *system, tools@) > max_tokens * 3 / 4 && summarization_enabled && messages@.len() > 1
            ==> max_tokens * 7 <= usize::MAX,
    ensures
        planned(
            messages@,
            *system,
            tools@,
            max_tokens as nat,
            match existing_summary {
                Some(e) => Some(e@),
                None => None,
            },
            summarization_enabled,
            plan,
        ),
{
    let current = estimate_tokens(messages, system, tools);
    let threshold = max_tokens * 3 / 4;
    if current <= threshold {
        return CompactionPlan::Keep;
    }
    if !summarization_enabled || messages.len() <= 1 {
        return CompactionPlan::Trim;
    }
    let target = max_tokens * 7 / 10;
    let drop_count = trim_point_from(messages, 0, system, tools, target);
    assert(messages@.skip(0) =~= messages@);
    if drop_count == 0 {
        return CompactionPlan::Trim;
    }
    let input = build_summary_input(existing_summary, messages, drop_count);
    let mut msgs = Vec::new();
    msgs.push(ChatMessage { role: ChatRole::User, content: MessagePart::Text(input) });
    let request = LlmRequest {
        model: String::new(),
        messages: msgs,
        system: Some(owned("Summarize this conversation concisely. Preserve key facts, user identity, decisions, and ongoing topics. Be brief.")),
        max_tokens: Some(500),
        temperature_milli: Some(0),
        tools: Vec::new(),
    };
    CompactionPlan::Summarize { drop_count, request }
}

/// Finish a summarizing compaction with the provider's reply (`None` when the call
/// failed): a non-empty summary drops the first `drop_count` messages and is
/// returned; otherwise the messages are trimmed to the budget and `None` returned.
pub fn finish_compaction(
    messages: &mut Vec<ChatMessage>,
    system: &Option<String>,
    tools: &Vec<ToolDefinition>,
    max_tokens: usize,
    drop_count: usize,
    summary: Option<String>,
) -> (r: Option<String>)
    requires
        drop_count <= old(messages)@.len(),
        total_chars(old(messages)@, *system, tools@) <= usize::MAX,
    ensures
        match summary {
            Some(s) if s@.len() > 0 => r == Some(s) && final(messages)@ == old(messages)@.skip(
                drop_count as int,
            ),
            _ => r is None && final(messages)@ == old(messages)@.skip(
                trim_point(old(messages)@, *system, tools@, max_tokens as nat) as int,
            ),
        },
{
    match summary {
        Some(s) => {
            if s.as_str().is_empty() {
                trim_messages_to_budget(messages, system, tools, max_tokens);
                None
            } else {
                let ghost orig = messages@;
                let mut i: usize = 0;
                while i < drop_count
                    invariant
                        i <= drop_count <= orig.len(),
                        messages@ == orig.skip(i as int),
                    decreases drop_count - i,
                {
                    messages.remove(0);
                    i += 1;
                    assert(messages@ =~= orig.skip(i as int));
                }
                assert(orig.skip(0) =~= orig);
                Some(s)
            }
        },
        None => {
            trim_messages_to_budget(messages, system, tools, max_tokens);
            None
        },
    }
}

} // verus!
