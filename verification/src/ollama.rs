//! The Ollama chat provider: the request it sends and the answers it reads.
use vstd::prelude::*;
use crate::openai::role_name;
use crate::tools::utf8_lossy;
use crate::providers::{ChatMessage, ChatRole, ContentBlock, LlmRequest, LlmResponse, MessagePart, Usage};
use crate::text::{chars_of, find_after, find_seq, is_prefix, join, join_strings, owned, push_str, starts_with_str,
    string_of, views};

verus! {

broadcast use vstd::string::group_string_axioms;

/// An Ollama server's settings.
#[derive(Debug, Clone, PartialEq, Eq)]
pub struct OllamaProvider {
    pub base_url: String,
    pub model: String,
}

/// A message on the wire: role, text, and base64 images.
#[derive(Debug, Clone, PartialEq, Eq)]
pub struct OllamaMessage {
    pub role: String,
    pub content: String,
    pub images: Vec<String>,
}

/// A chat request on the wire. The options object is sent only when the
/// temperature (in thousandths) or the output limit (`num_predict`) is set.
#[derive(Debug, Clone, PartialEq, Eq)]
pub struct OllamaChatRequest {
    pub model: String,
    pub messages: Vec<OllamaMessage>,
    pub stream: bool,
    pub temperature_milli: Option<u32>,
    pub num_predict: Option<u32>,
}

/// A chat answer (or streamed piece) on the wire; missing counts read as 0.
#[derive(Debug, Clone, PartialEq, Eq)]
pub struct OllamaResponse {
    pub model: String,
    pub message: Option<String>,
    pub done: bool,
    pub eval_count: u32,
    pub prompt_eval_count: u32,
}

/// The base64 data Ollama wants for an image: the payload of a `data:image/...;base64,`
/// URL, or the URL itself.
pub open spec fn image_data(url: Seq<char>) -> Seq<char> {
    if is_prefix("data:image/"@, url) {
        match find_seq(url.skip(11), ";base64,"@) {
            Some(i) => url.skip(11).skip(i + 8),
            None => url,
        }
    } else {
        url
    }
}

/// The text pieces of blocks.
pub open spec fn block_texts(bs: Seq<ContentBlock>) -> Seq<Seq<char>>
    decreases bs.len(),
{
    if bs.len() == 0 {
        Seq::empty()
    } else {
        match bs.last() {
            ContentBlock::Text { text } => block_texts(bs.drop_last()).push(text@),
            _ => block_texts(bs.drop_last()),
        }
    }
}

/// The images of blocks, as Ollama wants them.
pub open spec fn block_images(bs: Seq<ContentBlock>) -> Seq<Seq<char>>
    decreases bs.len(),
{
    if bs.len() == 0 {
        Seq::empty()
    } else {
        match bs.last() {
            ContentBlock::Image { url } => block_images(bs.drop_last()).push(image_data(url@)),
            _ => block_images(bs.drop_last()),
        }
    }
}

/// Whether `w` is the wire message for `m`: its role, its text (text blocks joined by
/// newlines) and its images; other blocks are dropped.
pub open spec fn ollama_message(w: OllamaMessage, m: ChatMessage) -> bool {
    &&& w.role@ == role_name(m.role)
    &&& match m.content {
        MessagePart::Text(t) => w.content@ == t@ && w.images@.len() == 0,
        MessagePart::Parts(bs) => w.content@ == join(block_texts(bs@), "\n"@) && views(w.images@) == block_images(bs@),
    }
}

/// The image data for an image URL.
pub fn image_data_of(url: &str) -> (r: String)
    ensures
        r@ == image_data(url@),
{
    proof {
        reveal_strlit("data:image/");
        reveal_strlit(";base64,");
    }
    if !starts_with_str(url, "data:image/") {
        return owned(url);
    }
    let v = chars_of(url);
    let p = chars_of(";base64,");
    let n = v.len();
    assert(n == v@.len());
    match find_after(&v, &p, 11) {
        Some(k) => {
            assert(v@.subrange(11, v@.len() as int) =~= url@.skip(11));
            assert(v@.subrange(11 + k + 8, v@.len() as int) =~= url@.skip(11).skip(k + 8));
            string_of(&v, 11 + k + 8, v.len())
        },
        None => {
            assert(v@.subrange(11, v@.len() as int) =~= url@.skip(11));
            owned(url)
        },
    }
}

fn role_text(role: ChatRole) -> (r: String)
    ensures
        r@ == role_name(role),
{
    match role {
        ChatRole::System => owned("system"),
        ChatRole::User => owned("user"),
        ChatRole::Assistant => owned("assistant"),
        ChatRole::Tool => owned("tool"),
    }
}

/// The wire message for a chat message.
pub fn to_ollama_message(m: &ChatMessage) -> (r: OllamaMessage)
    ensures
        ollama_message(r, *m),
{
    let role = role_text(m.role);
    match &m.content {
        MessagePart::Text(t) => OllamaMessage { role, content: t.clone(), images: Vec::new() },
        MessagePart::Parts(bs) => {
            let mut texts: Vec<String> = Vec::new();
            let mut images: Vec<String> = Vec::new();
            let mut i: usize = 0;
            while i < bs.len()
                invariant
                    i <= bs@.len(),
                    views(texts@) == block_texts(bs@.take(i as int)),
                    views(images@) == block_images(bs@.take(i as int)),
                decreases bs@.len() - i,
            {
                proof {
                    assert(bs@.take(i + 1).drop_last() =~= bs@.take(i as int));
                }
                let ghost t0 = views(texts@);
                let ghost i0 = views(images@);
                match &bs[i] {
                    ContentBlock::Text { text } => {
                        texts.push(text.clone());
                        assert(views(texts@) =~= t0.push(text@));
                    },
                    ContentBlock::Image { url } => {
                        let d = image_data_of(url.as_str());
                        images.push(d);
                        assert(views(images@) =~= i0.push(image_data(url@)));
                    },
                    _ => {},
                }
                i += 1;
            }
            assert(bs@.take(i as int) =~= bs@);
            OllamaMessage { role, content: join_strings(&texts, "\n"), images }
        },
    }
}

impl OllamaProvider {
    /// A provider for the given model and server (`llama3.1` on the local server by
    /// default).
    pub fn new(model: Option<String>, base_url: Option<String>) -> (r: Self)
        ensures
            r.model@ == match model {
                Some(m) => m@,
                None => "llama3.1"@,
            },
            r.base_url@ == match base_url {
                Some(b) => b@,
                None => "http://localhost:11434"@,
            },
    {
        OllamaProvider {
            base_url: match base_url {
                Some(b) => b,
                None => owned("http://localhost:11434"),
            },
            model: match model {
                Some(m) => m,
                None => owned("llama3.1"),
            },
        }
    }

    /// The chat endpoint, `/api/chat` after the server address.
    pub fn chat_endpoint(&self) -> (r: String)
        ensures
            r@ == self.base_url@ + "/api/chat"@,
    {
        let mut s = self.base_url.clone();
        push_str(&mut s, "/api/chat");
        s
    }

    /// The model list endpoint, `/api/tags` after the server address.
    pub fn tags_endpoint(&self) -> (r: String)
        ensures
            r@ == self.base_url@ + "/api/tags"@,
    {
        let mut s = self.base_url.clone();
        push_str(&mut s, "/api/tags");
        s
    }

    /// The chat request: the request's model (this provider's when empty), every
    /// message converted, streaming as asked, and the temperature and output limit.
    pub fn build_request_body(&self, request: &LlmRequest, stream: bool) -> (r: OllamaChatRequest)
        ensures
            r.model@ == (if request.model@.len() == 0 {
                self.model@
            } else {
                request.model@
            }),
            r.messages@.len() == request.messages@.len(),
            forall|i: int| 0 <= i < r.messages@.len() ==> ollama_message(#[trigger] r.messages@[i], request.messages@[i]),
            r.stream == stream,
            r.temperature_milli == request.temperature_milli,
            r.num_predict == request.max_tokens,
    {
        let model = if request.model.as_str().is_empty() {
            self.model.clone()
        } else {
            request.model.clone()
        };
        let mut messages: Vec<OllamaMessage> = Vec::new();
        let mut i: usize = 0;
        while i < request.messages.len()
            invariant
                i <= request.messages@.len(),
                messages@.len() == i,
                forall|k: int| 0 <= k < i ==> ollama_message(#[trigger] messages@[k], request.messages@[k]),
            decreases request.messages@.len() - i,
        {
            messages.push(to_ollama_message(&request.messages[i]));
            i += 1;
        }
        OllamaChatRequest {
            model,
            messages,
            stream,
            temperature_milli: request.temperature_milli,
            num_predict: request.max_tokens,
        }
    }
}

/// The answer of a complete (non-streamed) chat: its text as one block, its model,
/// its token counts, and `stop` once done.
pub fn ollama_response(resp: OllamaResponse) -> (r: LlmResponse)
    ensures
        match resp.message {
            Some(t) => r.content@ == seq![ContentBlock::Text { text: t }],
            None => r.content@.len() == 0,
        },
        r.model == resp.model,
        r.usage == Some(Usage { input_tokens: resp.prompt_eval_count, output_tokens: resp.eval_count }),
        resp.done ==> (r.stop_reason matches Some(s) && s@ == "stop"@),
        !resp.done ==> r.stop_reason is None,
{
    let mut content: Vec<ContentBlock> = Vec::new();
    if let Some(t) = resp.message {
        content.push(ContentBlock::Text { text: t });
    }
    LlmResponse {
        content,
        model: resp.model,
        usage: Some(Usage { input_tokens: resp.prompt_eval_count, output_tokens: resp.eval_count }),
        stop_reason: if resp.done {
            Some(owned("stop"))
        } else {
            None
        },
    }
}

/// One streamed piece of a chat: its text as one block, its model, and, once done,
/// the token counts and `stop`.
pub fn ollama_stream_response(resp: OllamaResponse) -> (r: LlmResponse)
    ensures
        match resp.message {
            Some(t) => r.content@ == seq![ContentBlock::Text { text: t }],
            None => r.content@.len() == 0,
        },
        r.model == resp.model,
        resp.done ==> r.usage == Some(Usage { input_tokens: resp.prompt_eval_count, output_tokens: resp.eval_count }),
        resp.done ==> (r.stop_reason matches Some(s) && s@ == "stop"@),
        !resp.done ==> r.usage is None && r.stop_reason is None,
{
    let done = resp.done;
    let mut r = ollama_response(resp);
    if !done {
        r.usage = None;
    }
    r
}

/// The position of the first newline byte of `b`, if any.
pub open spec fn newline_in(b: Seq<u8>) -> Option<int> {
    if exists|k: int| 0 <= k < b.len() && b[k] == 10u8 {
        Some(choose|k: int| 0 <= k < b.len() && b[k] == 10u8 && forall|j: int| 0 <= j < k ==> b[j] != 10u8)
    } else {
        None
    }
}

/// The first non-empty complete line of a stream buffer (decoded with invalid
/// UTF-8 replaced) and what stays buffered after it; `None` when every complete
/// line is empty, leaving only the unfinished tail.
pub open spec fn first_line(b: Seq<u8>) -> (Option<Seq<char>>, Seq<u8>)
    decreases b.len(),
{
    match newline_in(b) {
        None => (None, b),
        Some(k) => if 0 <= k < b.len() {
            if utf8_lossy(b.take(k)).len() > 0 {
                (Some(utf8_lossy(b.take(k))), b.skip(k + 1))
            } else {
                first_line(b.skip(k + 1))
            }
        } else {
            (None, b)
        },
    }
}

fn newline_index(b: &Vec<u8>) -> (r: Option<usize>)
    ensures
        match r {
            Some(k) => newline_in(b@) == Some(k as int) && k < b@.len(),
            None => newline_in(b@) is None,
        },
{
    let mut k: usize = 0;
    while k < b.len() && b[k] != 10u8
        invariant
            k <= b@.len(),
            forall|j: int| 0 <= j < k ==> #[trigger] b@[j] != 10u8,
        decreases b@.len() - k,
    {
        k += 1;
    }
    if k == b.len() {
        return None;
    }
    proof {
        let c = choose|c: int| 0 <= c < b@.len() && b@[c] == 10u8 && forall|j: int| 0 <= j < c ==> b@[j] != 10u8;
        if c < k {
        } else if c > k {
        }
    }
    Some(k)
}

fn split_line(b: &Vec<u8>, k: usize) -> (r: (Vec<u8>, Vec<u8>))
    requires
        k < b@.len(),
    ensures
        r.0@ == b@.take(k as int),
        r.1@ == b@.skip(k + 1),
{
    let mut line: Vec<u8> = Vec::new();
    let mut i: usize = 0;
    while i < k
        invariant
            k < b@.len(),
            i <= k,
            line@ == b@.take(i as int),
        decreases k - i,
    {
        line.push(b[i]);
        assert(b@.take(i + 1) =~= b@.take(i as int).push(b@[i as int]));
        i += 1;
    }
    let mut rest: Vec<u8> = Vec::new();
    let blen = b.len();
    assert(blen == b@.len());
    let mut j: usize = k + 1;
    while j < b.len()
        invariant
            k + 1 <= j <= b@.len(),
            rest@ == b@.subrange(k + 1, j as int),
        decreases b@.len() - j,
    {
        rest.push(b[j]);
        assert(b@.subrange(k + 1, j + 1) =~= b@.subrange(k + 1, j as int).push(b@[j as int]));
        j += 1;
    }
    assert(b@.subrange(k + 1, b@.len() as int) =~= b@.skip(k + 1));
    (line, rest)
}

/// Take the first non-empty complete line out of a stream buffer; empty lines are
/// dropped on the way.
pub fn next_line(buffer: &mut Vec<u8>) -> (r: Option<String>)
    ensures
        (match r {
            Some(l) => Some(l@),
            None => None,
        }, final(buffer)@) == first_line(old(buffer)@),
    decreases old(buffer)@.len(),
{
    let ghost before = buffer@;
    let k = match newline_index(buffer) {
        Some(k) => k,
        None => return None,
    };
    let (line, rest) = split_line(buffer, k);
    *buffer = rest;
    let text = crate::tools::lossy_utf8(line.as_slice());
    assert(first_line(before) == if utf8_lossy(before.take(k as int)).len() > 0 {
        (Some(utf8_lossy(before.take(k as int))), before.skip(k + 1))
    } else {
        first_line(before.skip(k + 1))
    });
    if text.as_str().is_empty() {
        next_line(buffer)
    } else {
        Some(text)
    }
}

/// What is left in the buffer when the stream ends, as a last line: its text
/// (invalid UTF-8 replaced) unless it is empty.
pub fn remaining_line(buffer: Vec<u8>) -> (r: Option<String>)
    ensures
        match r {
            Some(l) => utf8_lossy(buffer@).len() > 0 && l@ == utf8_lossy(buffer@),
            None => utf8_lossy(buffer@).len() == 0,
        },
{
    let text = crate::tools::lossy_utf8(buffer.as_slice());
    if text.as_str().is_empty() {
        None
    } else {
        Some(text)
    }
}

} // verus!
