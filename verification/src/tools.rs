//! The built-in tools' decisions: parameters, path and domain checks, limits, and
//! the texts they report. Running commands, touching files and the network is left
//! to the caller, which hands the results back.
use vstd::prelude::*;
use crate::error::Error;
use crate::json::{str_param, json_str_field, json_object_u64_field, json_u64_field, json_object_bool_field,
    json_bool_field, json_object_str_array_field, json_str_array_field};
use crate::runtime::ToolInfo;
use crate::text::{owned, push_str, push_char, push_decimal, decimal, utf8_len, trim, trimmed, str_byte_len,
    contains_str, contains_seq, views, signed_decimal, push_signed, trim_end};

verus! {

broadcast use vstd::string::group_string_axioms;

/// The result of running a tool: its text and whether it reports a failure.
#[derive(Debug, Clone, PartialEq, Eq)]
pub struct ToolOutput {
    pub content: String,
    pub is_error: bool,
}

impl ToolOutput {
    /// A successful result with the given text.
    pub fn success<S: Into<String>>(content: S) -> (r: Self)
        ensures
            !r.is_error,
            call_ensures(<S as Into<String>>::into, (content,), r.content),
    {
        ToolOutput { content: content.into(), is_error: false }
    }

    /// A failed result with the given text.
    pub fn error<S: Into<String>>(content: S) -> (r: Self)
        ensures
            r.is_error,
            call_ensures(<S as Into<String>>::into, (content,), r.content),
    {
        ToolOutput { content: content.into(), is_error: true }
    }
}

/// A result with the given text and error flag.
pub fn output(content: String, is_error: bool) -> (r: ToolOutput)
    ensures
        r.content == content,
        r.is_error == is_error,
{
    ToolOutput { content, is_error }
}

/// The message of the error for a missing string parameter.
pub open spec fn missing_param_message(key: Seq<char>) -> Seq<char> {
    "missing '"@ + key + "' parameter"@
}

/// The string parameter `key` of a tool input, or the missing-parameter error.
pub fn required_param(input: &str, key: &str) -> (r: Result<String, Error>)
    ensures
        match json_str_field(input@, key@) {
            Some(Some(v)) => r matches Ok(s) && s@ == v,
            _ => r matches Err(Error::Agent(m)) && m@ == missing_param_message(key@),
        },
{
    match str_param(input, key) {
        Some(v) => Ok(v),
        None => {
            let mut m = owned("missing '");
            push_str(&mut m, key);
            push_str(&mut m, "' parameter");
            Err(Error::Agent(m))
        },
    }
}

/// The text std's `String::from_utf8_lossy` makes of `bytes`.
pub uninterp spec fn utf8_lossy(bytes: Seq<u8>) -> Seq<char>;

/// `String::from_utf8_lossy`: the text of `bytes`, with each invalid sequence
/// replaced by U+FFFD. The contract claims that the result is the named function of
/// the bytes, and, as std documents, that valid UTF-8 is decoded as it is.
#[verifier::external_body]
pub fn lossy_utf8(bytes: &[u8]) -> (r: String)
    ensures
        r@ == utf8_lossy(bytes@),
        vstd::utf8::valid_utf8(bytes@) ==> r@ == vstd::utf8::decode_utf8(bytes@),
{
    String::from_utf8_lossy(bytes).into_owned()
}

/// Default time limit of a shell command, in seconds.
pub const BASH_DEFAULT_TIMEOUT_SECS: u64 = 30;

/// Largest shell output kept, in bytes.
pub const MAX_OUTPUT_BYTES: usize = 32768;

/// Runs shell commands with a time limit.
#[derive(Debug, Clone, PartialEq, Eq)]
pub struct BashTool {
    pub timeout_secs: u64,
}

/// The standard output and error of a command, the error part marked.
pub open spec fn combined_output(stdout: Seq<char>, stderr: Seq<char>) -> Seq<char> {
    if stderr.len() == 0 {
        stdout
    } else {
        (if stdout.len() == 0 {
            Seq::empty()
        } else {
            stdout + "\n"@
        }) + "STDERR:\n"@ + stderr
    }
}

/// The first `n` bytes of `s`, as characters.
pub open spec fn byte_prefix(s: Seq<char>, n: nat) -> Seq<char> {
    vstd::utf8::decode_utf8(vstd::utf8::encode_utf8(s).subrange(0, n as int))
}

/// Output over 32 KiB is cut there and marked as truncated.
pub open spec fn capped_output(c: Seq<char>) -> Seq<char> {
    if utf8_len(c) > MAX_OUTPUT_BYTES {
        byte_prefix(c, MAX_OUTPUT_BYTES as nat) + "\n... (output truncated)"@
    } else {
        c
    }
}

/// Whether `c` can be cut at 32 KiB (byte 32768 starts a character when it is longer).
pub open spec fn output_cuttable(c: Seq<char>) -> bool {
    utf8_len(c) > MAX_OUTPUT_BYTES ==> vstd::utf8::is_char_boundary(vstd::utf8::encode_utf8(c), MAX_OUTPUT_BYTES as int)
}

/// The exit code shown for a command (`-1` when it was ended by a signal).
pub open spec fn shown_code(code: Option<i32>) -> int {
    match code {
        Some(c) => c as int,
        None => -1,
    }
}

/// The text reported for a finished command with combined output `c`, and whether
/// it reports a failure.
pub open spec fn command_report(c: Seq<char>, success: bool, code: Option<i32>) -> (Seq<char>, bool) {
    let capped = capped_output(c);
    let text = if capped.len() == 0 {
        "(exit code: "@ + signed_decimal(shown_code(code)) + ")"@
    } else {
        capped
    };
    if success {
        (text, false)
    } else {
        ("exit code "@ + signed_decimal(shown_code(code)) + ": "@ + text, true)
    }
}

/// The standard output and error of a command as text (invalid UTF-8 replaced),
/// the error part marked.
pub fn combined_output_of(stdout: &[u8], stderr: &[u8]) -> (r: String)
    ensures
        r@ == combined_output(utf8_lossy(stdout@), utf8_lossy(stderr@)),
{
    let out = lossy_utf8(stdout);
    let err = lossy_utf8(stderr);
    let combined = if err.as_str().is_empty() {
        out
    } else {
        let mut c = if out.as_str().is_empty() {
            String::new()
        } else {
            let mut c = out.clone();
            push_char(&mut c, '\n');
            proof {
                reveal_strlit("\n");
                assert(c@ =~= out@ + "\n"@);
            }
            c
        };
        push_str(&mut c, "STDERR:\n");
        push_str(&mut c, err.as_str());
        c
    };
    proof {
        if out@.len() == 0 {
            assert(out@ =~= Seq::<char>::empty());
        }
    }
    assert(combined@ =~= combined_output(out@, err@));
    combined
}

/// Whether combined output can be cut at 32 KiB: it is no longer, or byte 32768
/// starts a character (cutting elsewhere would split one).
pub fn output_fits_cut(combined: &str) -> (r: bool)
    ensures
        r == output_cuttable(combined@),
{
    str_byte_len(combined) <= MAX_OUTPUT_BYTES || combined.is_char_boundary(MAX_OUTPUT_BYTES)
}

fn push_code(s: &mut String, code: Option<i32>)
    ensures
        final(s)@ == old(s)@ + signed_decimal(shown_code(code)),
{
    match code {
        Some(c) => push_signed(s, c as i64),
        None => push_signed(s, -1),
    }
}

impl BashTool {
    /// A shell tool with the given time limit, 30 seconds by default.
    pub fn new(timeout_secs: Option<u64>) -> (r: Self)
        ensures
            r.timeout_secs == match timeout_secs {
                Some(t) => t,
                None => BASH_DEFAULT_TIMEOUT_SECS,
            },
    {
        BashTool {
            timeout_secs: match timeout_secs {
                Some(t) => t,
                None => BASH_DEFAULT_TIMEOUT_SECS,
            },
        }
    }

    /// The tool as the runtime registers it.
    pub fn info(&self) -> (r: ToolInfo)
        ensures
            r.name@ == "bash"@,
            r.system_hint is None,
    {
        ToolInfo {
            name: owned("bash"),
            description: owned("Execute a bash command and return its output. Use this for running shell commands, scripts, and system operations."),
            system_hint: None,
            input_schema: owned("{\"properties\":{\"command\":{\"description\":\"The bash command to execute\",\"type\":\"string\"}},\"required\":[\"command\"],\"type\":\"object\"}"),
        }
    }

    /// The command to run, from the tool input.
    pub fn command(&self, input: &str) -> (r: Result<String, Error>)
        ensures
            match json_str_field(input@, "command"@) {
                Some(Some(v)) => r matches Ok(s) && s@ == v,
                _ => r matches Err(Error::Agent(m)) && m@ == missing_param_message("command"@),
            },
    {
        required_param(input, "command")
    }

    /// The result for a finished command, given its combined output (see
    /// `combined_output_of`): the output cut at 32 KiB, or the exit code when there
    /// was none; a failing command's result is an error prefixed with its exit code.
    pub fn finished(&self, combined: &str, success: bool, code: Option<i32>) -> (r: ToolOutput)
        requires
            output_cuttable(combined@),
        ensures
            (r.content@, r.is_error) == command_report(combined@, success, code),
    {
        let ghost c = combined@;
        let mut text = if str_byte_len(combined) > MAX_OUTPUT_BYTES {
            let (head, _) = combined.split_at(MAX_OUTPUT_BYTES);
            proof {
                assert(vstd::utf8::encode_utf8(head@) =~= vstd::utf8::encode_utf8(c).subrange(
                    0,
                    MAX_OUTPUT_BYTES as int,
                ));
                vstd::utf8::encode_utf8_decode_utf8(head@);
            }
            let mut t = owned(head);
            push_str(&mut t, "\n... (output truncated)");
            t
        } else {
            owned(combined)
        };
        assert(text@ =~= capped_output(c));
        if text.as_str().is_empty() {
            let mut t = owned("(exit code: ");
            push_code(&mut t, code);
            push_str(&mut t, ")");
            text = t;
        }
        if success {
            ToolOutput { content: text, is_error: false }
        } else {
            let mut m = owned("exit code ");
            push_code(&mut m, code);
            push_str(&mut m, ": ");
            push_str(&mut m, text.as_str());
            ToolOutput { content: m, is_error: true }
        }
    }

    /// The result for a command that could not be started.
    pub fn spawn_failed(&self, reason: &str) -> (r: ToolOutput)
        ensures
            r.is_error,
            r.content@ == "failed to execute command: "@ + reason@,
    {
        let mut m = owned("failed to execute command: ");
        push_str(&mut m, reason);
        ToolOutput { content: m, is_error: true }
    }

    /// The result for a command that ran out of time.
    pub fn timed_out(&self) -> (r: ToolOutput)
        ensures
            r.is_error,
            r.content@ == "command timed out after "@ + decimal(self.timeout_secs as nat) + "s"@,
    {
        let mut m = owned("command timed out after ");
        push_decimal(&mut m, self.timeout_secs);
        push_str(&mut m, "s");
        ToolOutput { content: m, is_error: true }
    }
}

/// Whether the segment `s[i..j]` is a whole path component.
pub open spec fn is_component(s: Seq<char>, i: int, j: int) -> bool {
    &&& 0 <= i <= j <= s.len()
    &&& i == 0 || s[i - 1] == '/'
    &&& j == s.len() || s[j] == '/'
    &&& forall|k: int| i <= k < j ==> s[k] != '/'
}

/// Whether a path has a `..` component.
pub open spec fn has_parent_dir(p: Seq<char>) -> bool {
    exists|i: int| #[trigger] is_component(p, i, i + 2) && p[i] == '.' && p[i + 1] == '.'
}

/// Whether `path` has a `..` component (std's `Component::ParentDir`).
pub fn path_has_parent_dir(path: &str) -> (r: bool)
    ensures
        r == has_parent_dir(path@),
{
    let v = crate::text::chars_of(path);
    let n = v.len();
    let mut start: usize = 0;
    let mut i: usize = 0;
    while i < n
        invariant
            v@ == path@,
            n == v@.len(),
            start <= i <= n,
            start == 0 || v@[start - 1] == '/',
            forall|k: int| start <= k < i ==> v@[k] != '/',
            forall|a: int| 0 <= a && a + 2 < i && #[trigger] is_component(path@, a, a + 2)
                ==> !(path@[a] == '.' && path@[a + 1] == '.'),
        decreases n - i,
    {
        if v[i] == '/' {
            if i - start == 2 && v[start] == '.' && v[start + 1] == '.' {
                assert(is_component(path@, start as int, start + 2));
                return true;
            }
            proof {
                assert forall|a: int| 0 <= a && a + 2 < i + 1 && #[trigger] is_component(path@, a, a + 2)
                    implies !(path@[a] == '.' && path@[a + 1] == '.') by {
                    if a + 2 == i && a != start {
                        if a < start {
                            assert(path@[start - 1] == '/');
                        } else {
                            assert(path@[a - 1] != '/');
                        }
                    }
                }
            }
            start = i + 1;
        } else {
            proof {
                assert forall|a: int| 0 <= a && a + 2 < i + 1 && #[trigger] is_component(path@, a, a + 2)
                    implies !(path@[a] == '.' && path@[a + 1] == '.') by {
                    if a + 2 == i {
                        assert(path@[i as int] != '/');
                    }
                }
            }
        }
        i += 1;
    }
    if n - start == 2 && v[start] == '.' && v[start + 1] == '.' {
        assert(is_component(path@, start as int, start + 2));
        return true;
    }
    assert forall|a: int| #[trigger] is_component(path@, a, a + 2) implies !(path@[a] == '.' && path@[a + 1] == '.') by {
        if a + 2 == n && a != start {
            if a < start {
                assert(path@[start - 1] == '/');
            } else {
                assert(path@[a - 1] != '/');
            }
        }
    }
    false
}

/// Whether std's `Path::starts_with` holds for `path` and `base` (component-wise prefix).
pub uninterp spec fn path_prefix(path: Seq<char>, base: Seq<char>) -> bool;

/// `Path::new(path).starts_with(base)`. The contract claims only that the result is
/// the named function of the two paths.
#[verifier::external_body]
pub fn path_starts_with(path: &str, base: &str) -> (r: bool)
    ensures
        r == path_prefix(path@, base@),
{
    std::path::Path::new(path).starts_with(base)
}

/// What std's `Path::parent` gives for `path`.
pub uninterp spec fn parent_of(path: Seq<char>) -> Option<Seq<char>>;

/// `Path::new(path).parent()`, as text. The contract claims only that the result is
/// the named function of the path.
#[verifier::external_body]
pub fn path_parent(path: &str) -> (r: Option<String>)
    ensures
        match r {
            Some(p) => parent_of(path@) == Some(p@),
            None => parent_of(path@) is None,
        },
{
    std::path::Path::new(path).parent().map(|p| p.to_string_lossy().into_owned())
}

/// Whether a resolved path lies under one of the allowed directories.
pub open spec fn under_any(canonical: Seq<char>, dirs: Seq<Seq<char>>) -> bool {
    exists|i: int| 0 <= i < dirs.len() && path_prefix(canonical, #[trigger] dirs[i])
}

fn under_allowed(canonical: &str, dirs: &Vec<String>) -> (r: bool)
    ensures
        r == under_any(canonical@, views(dirs@)),
{
    let mut i: usize = 0;
    while i < dirs.len()
        invariant
            i <= dirs@.len(),
            forall|j: int| 0 <= j < i ==> !path_prefix(canonical@, #[trigger] views(dirs@)[j]),
        decreases dirs@.len() - i,
    {
        if path_starts_with(canonical, dirs[i].as_str()) {
            assert(path_prefix(canonical@, views(dirs@)[i as int]));
            return true;
        }
        i += 1;
    }
    false
}

/// Whether `r` is the outcome of checking `path` against `allowed` directories, the
/// path having resolved to `resolved` (`Err` with the reason when it did not); the
/// resolution failure is reported after `resolve_prefix`.
pub open spec fn path_checked(
    r: Result<(), Error>,
    path: Seq<char>,
    allowed: Option<Vec<String>>,
    resolved: Result<String, String>,
    resolve_prefix: Seq<char>,
) -> bool {
    if has_parent_dir(path) {
        r matches Err(Error::Security(m)) && m@ == "path traversal not allowed"@
    } else {
        match allowed {
            None => r is Ok,
            Some(dirs) => match resolved {
                Err(e) => r matches Err(Error::Agent(m)) && m@ == resolve_prefix + e@,
                Ok(c) => if under_any(c@, views(dirs@)) {
                    r is Ok
                } else {
                    r matches Err(Error::Security(m)) && m@ == "path outside allowed directories"@
                },
            },
        }
    }
}

fn check_path(path: &str, allowed: &Option<Vec<String>>, resolved: &Result<String, String>, resolve_prefix: &str) -> (r: Result<(), Error>)
    ensures
        path_checked(r, path@, *allowed, *resolved, resolve_prefix@),
{
    if path_has_parent_dir(path) {
        return Err(Error::Security(owned("path traversal not allowed")));
    }
    match allowed {
        None => Ok(()),
        Some(dirs) => match resolved {
            Err(e) => {
                let mut m = owned(resolve_prefix);
                push_str(&mut m, e.as_str());
                Err(Error::Agent(m))
            },
            Ok(c) => if under_allowed(c.as_str(), dirs) {
                Ok(())
            } else {
                Err(Error::Security(owned("path outside allowed directories")))
            },
        },
    }
}

/// Largest file read, in bytes.
pub const MAX_READ_BYTES: u64 = 1048576;

/// Largest content written, in bytes.
pub const MAX_WRITE_BYTES: usize = 1048576;

/// Reads files, optionally only under allowed directories.
#[derive(Debug, Clone, PartialEq, Eq)]
pub struct FileReadTool {
    pub allowed_directories: Option<Vec<String>>,
}

impl FileReadTool {
    /// A file reader limited to `allowed_directories` when given.
    pub fn new(allowed_directories: Option<Vec<String>>) -> (r: Self)
        ensures
            r.allowed_directories == allowed_directories,
    {
        FileReadTool { allowed_directories }
    }

    /// The tool as the runtime registers it.
    pub fn info(&self) -> (r: ToolInfo)
        ensures
            r.name@ == "file_read"@,
            r.system_hint is None,
    {
        ToolInfo {
            name: owned("file_read"),
            description: owned("Read the contents of a file at the given path."),
            system_hint: None,
            input_schema: owned("{\"properties\":{\"path\":{\"description\":\"The file path to read\",\"type\":\"string\"}},\"required\":[\"path\"],\"type\":\"object\"}"),
        }
    }

    /// Check a path before reading: no `..` component, and, with allowed
    /// directories, the resolved path (`canonical`, or why it could not be
    /// The `path` parameter, from the tool input.
    pub fn path(&self, input: &str) -> (r: Result<String, Error>)
        ensures
            match json_str_field(input@, "path"@) {
                Some(Some(v)) => r matches Ok(s) && s@ == v,
                _ => r matches Err(Error::Agent(m)) && m@ == missing_param_message("path"@),
            },
    {
        required_param(input, "path")
    }

    /// resolved) under one of them.
    pub fn validate_path(&self, path: &str, canonical: &Result<String, String>) -> (r: Result<(), Error>)
        ensures
            path_checked(r, path@, self.allowed_directories, *canonical, "cannot resolve path: "@),
    {
        check_path(path, &self.allowed_directories, canonical, "cannot resolve path: ")
    }

    /// The error result for a file over the size limit, if it is.
    pub fn size_check(&self, len: u64) -> (r: Option<ToolOutput>)
        ensures
            len <= MAX_READ_BYTES ==> r is None,
            len > MAX_READ_BYTES ==> (r matches Some(o) && o.is_error && o.content@ == "file too large: "@
                + decimal(len as nat) + " bytes (limit: 1048576 bytes)"@),
    {
        if len > MAX_READ_BYTES {
            let mut m = owned("file too large: ");
            push_decimal(&mut m, len);
            push_str(&mut m, " bytes (limit: 1048576 bytes)");
            Some(ToolOutput { content: m, is_error: true })
        } else {
            None
        }
    }
}

/// Writes files, optionally only under allowed directories.
#[derive(Debug, Clone, PartialEq, Eq)]
pub struct FileWriteTool {
    pub allowed_directories: Option<Vec<String>>,
}

impl FileWriteTool {
    /// A file writer limited to `allowed_directories` when given.
    pub fn new(allowed_directories: Option<Vec<String>>) -> (r: Self)
        ensures
            r.allowed_directories == allowed_directories,
    {
        FileWriteTool { allowed_directories }
    }

    /// The tool as the runtime registers it.
    pub fn info(&self) -> (r: ToolInfo)
        ensures
            r.name@ == "file_write"@,
            r.system_hint is None,
    {
        ToolInfo {
            name: owned("file_write"),
            description: owned("Write content to a file at the given path. Creates the file if it doesn't exist, overwrites if it does."),
            system_hint: None,
            input_schema: owned("{\"properties\":{\"content\":{\"description\":\"The content to write\",\"type\":\"string\"},\"path\":{\"description\":\"The file path to write to\",\"type\":\"string\"}},\"required\":[\"path\",\"content\"],\"type\":\"object\"}"),
        }
    }

    /// The progress line shown for a call: the path it writes to.
    pub fn hint(&self, input: &str) -> (r: String)
        ensures
            r@ == "\n\u{1F527} file_write: "@ + match json_str_field(input@, "path"@) {
                Some(Some(p)) => p,
                _ => Seq::empty(),
            } + "\n"@,
    {
        let mut s = owned("\n\u{1F527} file_write: ");
        if let Some(p) = str_param(input, "path") {
            push_str(&mut s, p.as_str());
        }
        push_str(&mut s, "\n");
        s
    }

    /// Check a path before writing: no `..` component, and, with allowed directories,
    /// a parent directory whose resolved path (`canonical_parent`, or why it could
    /// The `path` parameter, from the tool input.
    pub fn path(&self, input: &str) -> (r: Result<String, Error>)
        ensures
            match json_str_field(input@, "path"@) {
                Some(Some(v)) => r matches Ok(s) && s@ == v,
                _ => r matches Err(Error::Agent(m)) && m@ == missing_param_message("path"@),
            },
    {
        required_param(input, "path")
    }

    /// The `content` parameter, from the tool input.
    pub fn content(&self, input: &str) -> (r: Result<String, Error>)
        ensures
            match json_str_field(input@, "content"@) {
                Some(Some(v)) => r matches Ok(s) && s@ == v,
                _ => r matches Err(Error::Agent(m)) && m@ == missing_param_message("content"@),
            },
    {
        required_param(input, "content")
    }

    /// not be resolved) lies under one of them.
    pub fn validate_path(&self, path: &str, canonical_parent: &Result<String, String>) -> (r: Result<(), Error>)
        ensures
            (!has_parent_dir(path@) && self.allowed_directories is Some && parent_of(path@) is None) ==> (
            r matches Err(Error::Agent(m)) && m@ == "invalid path"@),
            (has_parent_dir(path@) || self.allowed_directories is None || parent_of(path@) is Some) ==> path_checked(
                r,
                path@,
                self.allowed_directories,
                *canonical_parent,
                "cannot resolve parent path: "@,
            ),
    {
        if !path_has_parent_dir(path) && self.allowed_directories.is_some() {
            if path_parent(path).is_none() {
                return Err(Error::Agent(owned("invalid path")));
            }
        }
        check_path(path, &self.allowed_directories, canonical_parent, "cannot resolve parent path: ")
    }

    /// The error result for content over the size limit, if it is.
    pub fn size_check(&self, content: &str) -> (r: Option<ToolOutput>)
        ensures
            utf8_len(content@) <= MAX_WRITE_BYTES ==> r is None,
            utf8_len(content@) > MAX_WRITE_BYTES ==> (r matches Some(o) && o.is_error && o.content@
                == "content too large: "@ + decimal(utf8_len(content@)) + " bytes (limit: 1048576 bytes)"@),
    {
        let n = str_byte_len(content);
        if n > MAX_WRITE_BYTES {
            let mut m = owned("content too large: ");
            push_decimal(&mut m, n as u64);
            push_str(&mut m, " bytes (limit: 1048576 bytes)");
            Some(ToolOutput { content: m, is_error: true })
        } else {
            None
        }
    }

    /// The result reported after writing `content` to `path`.
    pub fn written(&self, content: &str, path: &str) -> (r: ToolOutput)
        ensures
            !r.is_error,
            r.content@ == "wrote "@ + decimal(utf8_len(content@)) + " bytes to "@ + path@,
    {
        let n = str_byte_len(content);
        let mut m = owned("wrote ");
        push_decimal(&mut m, n as u64);
        push_str(&mut m, " bytes to ");
        push_str(&mut m, path);
        ToolOutput { content: m, is_error: false }
    }
}

/// Largest web response kept, in bytes.
pub const MAX_RESPONSE_BYTES: usize = 1048576;

/// Fetches web pages, refusing URLs that mention a blocked domain.
#[derive(Debug, Clone, PartialEq, Eq)]
pub struct WebFetchTool {
    pub blocked_domains: Vec<String>,
}

/// Whether `url` mentions one of the blocked domains.
pub open spec fn mentions_any(url: Seq<char>, domains: Seq<Seq<char>>) -> bool {
    exists|i: int| 0 <= i < domains.len() && contains_seq(url, #[trigger] domains[i])
}

/// The text kept of a web response: all of it, or its first megabyte marked as cut.
pub open spec fn fetched_text(body: Seq<u8>) -> Seq<char> {
    if body.len() > MAX_RESPONSE_BYTES {
        utf8_lossy(body.subrange(0, MAX_RESPONSE_BYTES as int)) + "\n... (response truncated at 1048576 bytes)"@
    } else {
        utf8_lossy(body)
    }
}

impl WebFetchTool {
    /// A fetcher refusing the given domains (none by default).
    pub fn new(blocked_domains: Option<Vec<String>>) -> (r: Self)
        ensures
            r.blocked_domains@ == match blocked_domains {
                Some(d) => d@,
                None => Seq::<String>::empty(),
            },
    {
        WebFetchTool {
            blocked_domains: match blocked_domains {
                Some(d) => d,
                None => Vec::new(),
            },
        }
    }

    /// The tool as the runtime registers it.
    pub fn info(&self) -> (r: ToolInfo)
        ensures
            r.name@ == "web_fetch"@,
            r.system_hint is None,
    {
        ToolInfo {
            name: owned("web_fetch"),
            description: owned("Fetch the content of a web page at the given URL. Returns the response body as text."),
            system_hint: None,
            input_schema: owned("{\"properties\":{\"url\":{\"description\":\"The URL to fetch\",\"type\":\"string\"}},\"required\":[\"url\"],\"type\":\"object\"}"),
        }
    }

    /// The URL to fetch, from the tool input.
    pub fn url(&self, input: &str) -> (r: Result<String, Error>)
        ensures
            match json_str_field(input@, "url"@) {
                Some(Some(v)) => r matches Ok(s) && s@ == v,
                _ => r matches Err(Error::Agent(m)) && m@ == missing_param_message("url"@),
            },
    {
        required_param(input, "url")
    }

    /// Whether `url` mentions a blocked domain.
    pub fn is_blocked(&self, url: &str) -> (r: bool)
        ensures
            r == mentions_any(url@, views(self.blocked_domains@)),
    {
        let mut i: usize = 0;
        while i < self.blocked_domains.len()
            invariant
                i <= self.blocked_domains@.len(),
                forall|j: int| 0 <= j < i ==> !contains_seq(url@, #[trigger] views(self.blocked_domains@)[j]),
            decreases self.blocked_domains@.len() - i,
        {
            if contains_str(url, self.blocked_domains[i].as_str()) {
                assert(contains_seq(url@, views(self.blocked_domains@)[i as int]));
                return true;
            }
            i += 1;
        }
        false
    }

    /// The result for a refused URL.
    pub fn blocked(&self) -> (r: ToolOutput)
        ensures
            r.is_error,
            r.content@ == "domain is blocked"@,
    {
        ToolOutput { content: owned("domain is blocked"), is_error: true }
    }

    /// The result for an unsuccessful HTTP status, given as text.
    pub fn http_error(&self, status: &str) -> (r: ToolOutput)
        ensures
            r.is_error,
            r.content@ == "HTTP "@ + status@,
    {
        let mut m = owned("HTTP ");
        push_str(&mut m, status);
        ToolOutput { content: m, is_error: true }
    }

    /// The result for a response body: its text, cut after a megabyte.
    pub fn fetched(&self, body: &[u8]) -> (r: ToolOutput)
        ensures
            !r.is_error,
            r.content@ == fetched_text(body@),
    {
        if body.len() > MAX_RESPONSE_BYTES {
            let (head, _) = body.split_at(MAX_RESPONSE_BYTES);
            assert(head@ =~= body@.subrange(0, MAX_RESPONSE_BYTES as int));
            let mut t = lossy_utf8(head);
            push_str(&mut t, "\n... (response truncated at 1048576 bytes)");
            ToolOutput { content: t, is_error: false }
        } else {
            ToolOutput { content: lossy_utf8(body), is_error: false }
        }
    }
}

/// Results asked of the search service by default.
pub const DEFAULT_COUNT: u64 = 5;

/// Most results asked of the search service.
pub const MAX_COUNT: u64 = 10;

/// Searches the web through the Brave Search API.
#[derive(Debug, Clone, PartialEq, Eq)]
pub struct WebSearchTool {
    pub api_key: String,
}

/// One search result.
#[derive(Debug, Clone, PartialEq, Eq)]
pub struct SearchResult {
    pub title: String,
    pub url: String,
    pub description: String,
}

/// `count` limited to `1..=10`.
pub open spec fn clamped_count(count: u64) -> u64 {
    if count < 1 {
        1
    } else if count > MAX_COUNT {
        MAX_COUNT
    } else {
        count
    }
}

/// The listing of search results `rs`, numbered from `first`.
pub open spec fn result_lines(rs: Seq<SearchResult>) -> Seq<char>
    decreases rs.len(),
{
    if rs.len() == 0 {
        Seq::empty()
    } else {
        result_lines(rs.drop_last()) + decimal(rs.len()) + ". **"@ + rs.last().title@ + "** \u{2014} "@
            + rs.last().url@ + "\n   "@ + rs.last().description@ + "\n\n"@
    }
}

impl WebSearchTool {
    /// A search tool using the given API key.
    pub fn new(api_key: String) -> (r: Self)
        ensures
            r.api_key == api_key,
    {
        WebSearchTool { api_key }
    }

    /// The tool as the runtime registers it.
    pub fn info(&self) -> (r: ToolInfo)
        ensures
            r.name@ == "web_search"@,
            r.system_hint is None,
    {
        ToolInfo {
            name: owned("web_search"),
            description: owned("Search the web for a query and return top results with title, snippet, and URL."),
            system_hint: None,
            input_schema: owned("{\"properties\":{\"count\":{\"description\":\"Number of results to return (1-10, default 5)\",\"type\":\"number\"},\"query\":{\"description\":\"The search query\",\"type\":\"string\"}},\"required\":[\"query\"],\"type\":\"object\"}"),
        }
    }

    /// The query, from the tool input.
    pub fn query(&self, input: &str) -> (r: Result<String, Error>)
        ensures
            match json_str_field(input@, "query"@) {
                Some(Some(v)) => r matches Ok(s) && s@ == v,
                _ => r matches Err(Error::Agent(m)) && m@ == missing_param_message("query"@),
            },
    {
        required_param(input, "query")
    }

    /// How many results to ask for: the input's `count` (5 by default), kept within 1 to 10.
    pub fn result_count(&self, input: &str) -> (r: u64)
        ensures
            r == clamped_count(
                match json_u64_field(input@, "count"@) {
                    Some(Some(c)) => c,
                    _ => DEFAULT_COUNT,
                },
            ),
    {
        let c = match json_object_u64_field(input, "count") {
            Some(Some(c)) => c,
            _ => DEFAULT_COUNT,
        };
        clamp_count(c)
    }

    /// The result for an unsuccessful HTTP status, given as text.
    pub fn api_error(&self, status: &str) -> (r: ToolOutput)
        ensures
            r.is_error,
            r.content@ == "Brave Search API error: HTTP "@ + status@,
    {
        let mut m = owned("Brave Search API error: HTTP ");
        push_str(&mut m, status);
        ToolOutput { content: m, is_error: true }
    }
}

/// `count` limited to `1..=10`.
pub fn clamp_count(count: u64) -> (r: u64)
    ensures
        r == clamped_count(count),
{
    if count < 1 {
        1
    } else if count > MAX_COUNT {
        MAX_COUNT
    } else {
        count
    }
}

/// The result listing search results, numbered from 1, with the trailing blank
/// lines removed; an error when there are none.
pub fn format_search_results(results: &Vec<SearchResult>) -> (r: ToolOutput)
    ensures
        results@.len() == 0 ==> r.is_error && r.content@ == "No search results found."@,
        results@.len() > 0 ==> !r.is_error && r.content@ == trim_end(result_lines(results@)),
{
    if results.len() == 0 {
        return ToolOutput { content: owned("No search results found."), is_error: true };
    }
    let mut out = String::new();
    let mut i: usize = 0;
    while i < results.len()
        invariant
            i <= results@.len(),
            out@ == result_lines(results@.take(i as int)),
        decreases results@.len() - i,
    {
        let r = &results[i];
        push_decimal(&mut out, (i + 1) as u64);
        push_str(&mut out, ". **");
        push_str(&mut out, r.title.as_str());
        push_str(&mut out, "** \u{2014} ");
        push_str(&mut out, r.url.as_str());
        push_str(&mut out, "\n   ");
        push_str(&mut out, r.description.as_str());
        push_str(&mut out, "\n\n");
        proof {
            assert(results@.take(i + 1).drop_last() =~= results@.take(i as int));
        }
        i += 1;
    }
    assert(results@.take(i as int) =~= results@);
    ToolOutput { content: crate::text::trimmed_end(out.as_str()), is_error: false }
}

/// Most skills kept in the skills directory.
pub const MAX_SKILLS: usize = 30;

/// Fewest bytes of a skill's (trimmed) body.
pub const MIN_BODY_LEN: usize = 80;

/// Fewest bytes of a skill's (trimmed) rationale.
pub const MIN_RATIONALE_LEN: usize = 40;

/// Saves reusable skills into a directory.
#[derive(Debug, Clone, PartialEq, Eq)]
pub struct CreateSkillTool {
    pub skills_dir: String,
}

/// A request to save a skill.
#[derive(Debug, Clone, PartialEq, Eq)]
pub struct SkillRequest {
    pub name: String,
    pub description: String,
    pub body: String,
    pub rationale: String,
    pub triggers: Vec<String>,
    pub overwrite: bool,
}

/// The strings among array elements, in order.
pub open spec fn present(elems: Seq<Option<Seq<char>>>) -> Seq<Seq<char>>
    decreases elems.len(),
{
    if elems.len() == 0 {
        Seq::empty()
    } else {
        match elems.last() {
            Some(s) => present(elems.drop_last()).push(s),
            None => present(elems.drop_last()),
        }
    }
}

/// The error text for a missing required skill parameter.
pub open spec fn missing_skill_param(key: Seq<char>) -> Seq<char> {
    "missing required parameter: '"@ + key + "'"@
}

/// The error text for a missing rationale.
pub open spec fn missing_rationale() -> Seq<char> {
    "missing required parameter: 'rationale' \u{2014} explain why this skill is worth persisting before saving"@
}

/// Whether `r` is the parse of a skill request from tool input `input`.
pub open spec fn skill_parsed(input: Seq<char>, r: Result<SkillRequest, ToolOutput>) -> bool {
    match (json_str_field(input, "name"@), json_str_field(input, "description"@), json_str_field(input, "body"@), json_str_field(input, "rationale"@)) {
        (Some(Some(n)), Some(Some(d)), Some(Some(b)), Some(Some(ra))) => r matches Ok(q) && q.name@ == n
            && q.description@ == d && q.body@ == b && q.rationale@ == ra && views(q.triggers@) == match json_str_array_field(
            input,
            "triggers"@,
        ) {
            Some(Some(es)) => present(es),
            _ => Seq::empty(),
        } && q.overwrite == match json_bool_field(input, "overwrite"@) {
            Some(Some(o)) => o,
            _ => false,
        },
        (Some(Some(n)), Some(Some(d)), Some(Some(b)), _) => r matches Err(o) && o.is_error && o.content@
            == missing_rationale(),
        (Some(Some(n)), Some(Some(d)), _, _) => r matches Err(o) && o.is_error && o.content@ == missing_skill_param(
            "body"@,
        ),
        (Some(Some(n)), _, _, _) => r matches Err(o) && o.is_error && o.content@ == missing_skill_param(
            "description"@,
        ),
        _ => r matches Err(o) && o.is_error && o.content@ == missing_skill_param("name"@),
    }
}

/// The refusal text for a vague rationale of `n` bytes.
pub open spec fn vague_rationale_message(n: nat) -> Seq<char> {
    "rationale too vague ("@ + decimal(n) + " chars, need \u{2265}40). Explain specifically: would you need to figure this out from scratch next time? If the answer isn't clearly yes, don't save this skill."@
}

/// The refusal text for a body of `n` bytes.
pub open spec fn short_body_message(n: nat) -> Seq<char> {
    "skill body too short ("@ + decimal(n) + " chars, need \u{2265}80). A useful skill needs enough detail to be actionable \u{2014} single commands or one-liners don't qualify."@
}

/// The refusal text for a full library of `n` skills.
pub open spec fn library_full_message(n: nat) -> Seq<char> {
    "skill library full ("@ + decimal(n) + "/30). Remove an outdated skill with `opencrust skill remove <name>` before adding new ones."@
}

/// The refusal text for an existing skill `name`.
pub open spec fn duplicate_message(name: Seq<char>) -> Seq<char> {
    "skill '"@ + name + "' already exists. If you want to update it, call create_skill again with `overwrite: true`. If this is a different skill, choose a different name."@
}

/// Why a skill request is refused, given how many skills exist and whether one of
/// that name does: a vague rationale, a short body, a full library, or a duplicate
/// without `overwrite`, in that order.
pub open spec fn skill_refusal(q: SkillRequest, existing: nat, exists: bool) -> Option<Seq<char>> {
    if utf8_len(trim(q.rationale@)) < MIN_RATIONALE_LEN {
        Some(vague_rationale_message(utf8_len(trim(q.rationale@))))
    } else if utf8_len(trim(q.body@)) < MIN_BODY_LEN {
        Some(short_body_message(utf8_len(trim(q.body@))))
    } else if existing >= MAX_SKILLS {
        Some(library_full_message(existing))
    } else if exists && !q.overwrite {
        Some(duplicate_message(q.name@))
    } else {
        None
    }
}

/// `s` with each double quote escaped by a backslash.
pub open spec fn escape_quotes(s: Seq<char>) -> Seq<char>
    decreases s.len(),
{
    if s.len() == 0 {
        Seq::empty()
    } else {
        escape_quotes(s.drop_last()) + if s.last() == '"' {
            seq!['\\', '"']
        } else {
            seq![s.last()]
        }
    }
}

/// The trigger lines of a skill file.
pub open spec fn trigger_lines(ts: Seq<Seq<char>>) -> Seq<char>
    decreases ts.len(),
{
    if ts.len() == 0 {
        Seq::empty()
    } else {
        trigger_lines(ts.drop_last()) + "  - "@ + ts.last() + "\n"@
    }
}

/// The text of a skill file: front matter with name, description, quoted rationale
/// and any triggers, then the body.
pub open spec fn skill_file(q: SkillRequest) -> Seq<char> {
    "---\nname: "@ + q.name@ + "\ndescription: "@ + q.description@ + "\n"@ + "rationale: \""@ + escape_quotes(
        q.rationale@,
    ) + "\"\n"@ + (if q.triggers@.len() > 0 {
        "triggers:\n"@ + trigger_lines(views(q.triggers@))
    } else {
        Seq::empty()
    }) + "---\n\n"@ + q.body@ + "\n"@
}

fn skill_field(input: &str, key: &str) -> (r: Result<String, ToolOutput>)
    ensures
        match json_str_field(input@, key@) {
            Some(Some(v)) => r matches Ok(s) && s@ == v,
            _ => r matches Err(o) && o.is_error && o.content@ == missing_skill_param(key@),
        },
{
    match str_param(input, key) {
        Some(v) => Ok(v),
        None => {
            let mut m = owned("missing required parameter: '");
            push_str(&mut m, key);
            push_str(&mut m, "'");
            Err(ToolOutput { content: m, is_error: true })
        },
    }
}

impl CreateSkillTool {
    /// A skill saver for the given directory.
    pub fn new(skills_dir: String) -> (r: Self)
        ensures
            r.skills_dir == skills_dir,
    {
        CreateSkillTool { skills_dir }
    }

    /// The tool as the runtime registers it.
    pub fn info(&self) -> (r: ToolInfo)
        ensures
            r.name@ == "create_skill"@,
            r.system_hint is Some,
    {
        ToolInfo {
            name: owned("create_skill"),
            description: owned("Save a reusable skill to the skills directory. Active immediately in future conversations without restarting."),
            system_hint: Some(owned("Persist a reusable multi-step workflow you had to reason through. See '## Self-Learning' in the system prompt for full guidance. Always provide a specific `rationale`.")),
            input_schema: owned("{\"properties\":{\"body\":{\"description\":\"Markdown step-by-step instructions (minimum 80 characters).\",\"type\":\"string\"},\"description\":{\"description\":\"One-line description of what this skill does.\",\"type\":\"string\"},\"name\":{\"description\":\"Unique skill name in hyphen-case (e.g. 'disk-cleanup'). Only alphanumeric and hyphens.\",\"type\":\"string\"},\"overwrite\":{\"description\":\"Set to true to explicitly replace an existing skill with the same name.\",\"type\":\"boolean\"},\"rationale\":{\"description\":\"Why is this skill worth saving? Would you need to figure this out again from scratch? (minimum 40 characters \u{2014} be specific)\",\"type\":\"string\"},\"triggers\":{\"description\":\"Keywords that suggest using this skill (e.g. ['disk full', 'free space']).\",\"items\":{\"type\":\"string\"},\"type\":\"array\"}},\"required\":[\"name\",\"description\",\"body\",\"rationale\"],\"type\":\"object\"}"),
        }
    }

    /// Read a skill request from the tool input, or the error result for the first
    /// missing parameter.
    pub fn parse_request(&self, input: &str) -> (r: Result<SkillRequest, ToolOutput>)
        ensures
            skill_parsed(input@, r),
    {
        let name = match skill_field(input, "name") {
            Ok(v) => v,
            Err(o) => return Err(o),
        };
        let description = match skill_field(input, "description") {
            Ok(v) => v,
            Err(o) => return Err(o),
        };
        let body = match skill_field(input, "body") {
            Ok(v) => v,
            Err(o) => return Err(o),
        };
        let rationale = match str_param(input, "rationale") {
            Some(v) => v,
            None => return Err(ToolOutput { content: owned("missing required parameter: 'rationale' \u{2014} explain why this skill is worth persisting before saving"), is_error: true }),
        };
        let mut triggers: Vec<String> = Vec::new();
        if let Some(Some(elems)) = json_object_str_array_field(input, "triggers") {
            let ghost es = crate::json::opt_views(elems@);
            let mut i: usize = 0;
            while i < elems.len()
                invariant
                    i <= elems@.len(),
                    es == crate::json::opt_views(elems@),
                    views(triggers@) == present(es.take(i as int)),
                decreases elems@.len() - i,
            {
                proof {
                    assert(es.take(i + 1).drop_last() =~= es.take(i as int));
                }
                if let Some(t) = &elems[i] {
                    let ghost before = triggers@;
                    triggers.push(t.clone());
                    assert(views(triggers@) =~= views(before).push(t@));
                }
                i += 1;
            }
            assert(es.take(i as int) =~= es);
        }
        assert(views(triggers@) =~= match json_str_array_field(input@, "triggers"@) {
            Some(Some(es)) => present(es),
            _ => Seq::<Seq<char>>::empty(),
        });
        let overwrite = match json_object_bool_field(input, "overwrite") {
            Some(Some(o)) => o,
            _ => false,
        };
        Ok(SkillRequest { name, description, body, rationale, triggers, overwrite })
    }

    /// The error result refusing a request, if it is refused, given how many skill
    /// files exist and whether the skill's file exists.
    pub fn check_request(&self, q: &SkillRequest, existing: usize, exists: bool) -> (r: Option<ToolOutput>)
        ensures
            match skill_refusal(*q, existing as nat, exists) {
                Some(m) => r matches Some(o) && o.is_error && o.content@ == m,
                None => r is None,
            },
    {
        let rt = trimmed(q.rationale.as_str());
        let rl = str_byte_len(rt.as_str());
        if rl < MIN_RATIONALE_LEN {
            let mut m = owned("rationale too vague (");
            push_decimal(&mut m, rl as u64);
            push_str(&mut m, " chars, need \u{2265}40). Explain specifically: would you need to figure this out from scratch next time? If the answer isn't clearly yes, don't save this skill.");
            return Some(ToolOutput { content: m, is_error: true });
        }
        let bt = trimmed(q.body.as_str());
        let bl = str_byte_len(bt.as_str());
        if bl < MIN_BODY_LEN {
            let mut m = owned("skill body too short (");
            push_decimal(&mut m, bl as u64);
            push_str(&mut m, " chars, need \u{2265}80). A useful skill needs enough detail to be actionable \u{2014} single commands or one-liners don't qualify.");
            return Some(ToolOutput { content: m, is_error: true });
        }
        if existing >= MAX_SKILLS {
            let mut m = owned("skill library full (");
            push_decimal(&mut m, existing as u64);
            push_str(&mut m, "/30). Remove an outdated skill with `opencrust skill remove <name>` before adding new ones.");
            return Some(ToolOutput { content: m, is_error: true });
        }
        if exists && !q.overwrite {
            let mut m = owned("skill '");
            push_str(&mut m, q.name.as_str());
            push_str(&mut m, "' already exists. If you want to update it, call create_skill again with `overwrite: true`. If this is a different skill, choose a different name.");
            return Some(ToolOutput { content: m, is_error: true });
        }
        None
    }

    /// The path of a skill's file in the skills directory.
    pub fn skill_path(&self, name: &str) -> (r: String)
        ensures
            r@ == crate::prompt::path_join(self.skills_dir@, name@ + ".md"@),
    {
        let mut file = owned(name);
        push_str(&mut file, ".md");
        crate::prompt::join_path(self.skills_dir.as_str(), file.as_str())
    }

    /// The text of the skill file for a request.
    pub fn skill_content(&self, q: &SkillRequest) -> (r: String)
        ensures
            r@ == skill_file(*q),
    {
        let mut c = owned("---\nname: ");
        push_str(&mut c, q.name.as_str());
        push_str(&mut c, "\ndescription: ");
        push_str(&mut c, q.description.as_str());
        push_str(&mut c, "\n");
        push_str(&mut c, "rationale: \"");
        let ra = crate::text::chars_of(q.rationale.as_str());
        let ghost head = c@;
        let mut i: usize = 0;
        while i < ra.len()
            invariant
                i <= ra@.len(),
                ra@ == q.rationale@,
                c@ == head + escape_quotes(ra@.take(i as int)),
            decreases ra@.len() - i,
        {
            proof {
                assert(ra@.take(i + 1).drop_last() =~= ra@.take(i as int));
            }
            if ra[i] == '"' {
                push_char(&mut c, '\\');
                push_char(&mut c, '"');
            } else {
                push_char(&mut c, ra[i]);
            }
            i += 1;
            assert(c@ =~= head + escape_quotes(ra@.take(i as int)));
        }
        assert(ra@.take(i as int) =~= ra@);
        push_str(&mut c, "\"\n");
        if q.triggers.len() > 0 {
            push_str(&mut c, "triggers:\n");
            let ghost mid = c@;
            let mut j: usize = 0;
            while j < q.triggers.len()
                invariant
                    j <= q.triggers@.len(),
                    c@ == mid + trigger_lines(views(q.triggers@).take(j as int)),
                decreases q.triggers@.len() - j,
            {
                proof {
                    assert(views(q.triggers@).take(j + 1).drop_last() =~= views(q.triggers@).take(j as int));
                }
                push_str(&mut c, "  - ");
                push_str(&mut c, q.triggers[j].as_str());
                push_str(&mut c, "\n");
                j += 1;
                assert(c@ =~= mid + trigger_lines(views(q.triggers@).take(j as int)));
            }
            assert(views(q.triggers@).take(j as int) =~= views(q.triggers@));
        }
        push_str(&mut c, "---\n\n");
        push_str(&mut c, q.body.as_str());
        push_str(&mut c, "\n");
        assert(c@ =~= skill_file(*q));
        c
    }

    /// The result after saving a skill named `saved_name`, `existing` skills having
    /// been there before.
    pub fn saved(&self, saved_name: &str, updated: bool, existing: usize) -> (r: ToolOutput)
        requires
            existing < MAX_SKILLS,
        ensures
            !r.is_error,
            r.content@ == "skill '"@ + saved_name@ + "' "@ + (if updated {
                "updated"@
            } else {
                "saved"@
            }) + " ("@ + decimal((existing + 1) as nat) + "/30 skills used) \u{2014} active immediately"@,
    {
        let mut m = owned("skill '");
        push_str(&mut m, saved_name);
        push_str(&mut m, "' ");
        if updated {
            push_str(&mut m, "updated");
        } else {
            push_str(&mut m, "saved");
        }
        push_str(&mut m, " (");
        push_decimal(&mut m, (existing + 1) as u64);
        push_str(&mut m, "/30 skills used) \u{2014} active immediately");
        ToolOutput { content: m, is_error: false }
    }

    /// The result when the skill file could not be staged.
    pub fn stage_failed(&self, reason: &str) -> (r: ToolOutput)
        ensures
            r.is_error,
            r.content@ == "failed to stage skill file: "@ + reason@,
    {
        let mut m = owned("failed to stage skill file: ");
        push_str(&mut m, reason);
        ToolOutput { content: m, is_error: true }
    }

    /// The result when the skill installer refused the file.
    pub fn invalid_skill(&self, reason: &str) -> (r: ToolOutput)
        ensures
            r.is_error,
            r.content@ == "invalid skill: "@ + reason@,
    {
        let mut m = owned("invalid skill: ");
        push_str(&mut m, reason);
        ToolOutput { content: m, is_error: true }
    }
}

/// Deepest chain of handoffs between agents.
pub const MAX_HANDOFF_DEPTH: u8 = 3;

/// A request to hand the task to another agent.
#[derive(Debug, Clone, PartialEq, Eq)]
pub struct HandoffRequest {
    pub agent_id: String,
    pub message: String,
}

/// Read a handoff request from the tool input, or the error result for the first
/// missing parameter.
pub fn handoff_request(input: &str) -> (r: Result<HandoffRequest, ToolOutput>)
    ensures
        match (json_str_field(input@, "agent_id"@), json_str_field(input@, "message"@)) {
            (Some(Some(a)), Some(Some(m))) => r matches Ok(q) && q.agent_id@ == a && q.message@ == m,
            (Some(Some(a)), _) => r matches Err(o) && o.is_error && o.content@ == missing_skill_param("message"@),
            _ => r matches Err(o) && o.is_error && o.content@ == missing_skill_param("agent_id"@),
        },
{
    let agent_id = match skill_field(input, "agent_id") {
        Ok(v) => v,
        Err(o) => return Err(o),
    };
    let message = match skill_field(input, "message") {
        Ok(v) => v,
        Err(o) => return Err(o),
    };
    Ok(HandoffRequest { agent_id, message })
}

/// The error result refusing a handoff at nesting depth `depth`, if it is too deep.
pub fn handoff_depth_check(depth: u8) -> (r: Option<ToolOutput>)
    ensures
        depth < MAX_HANDOFF_DEPTH ==> r is None,
        depth >= MAX_HANDOFF_DEPTH ==> (r matches Some(o) && o.is_error && o.content@
            == "handoff depth limit (3) reached: refusing to delegate further to prevent infinite agent loops"@),
{
    if depth >= MAX_HANDOFF_DEPTH {
        Some(ToolOutput { content: owned("handoff depth limit (3) reached: refusing to delegate further to prevent infinite agent loops"), is_error: true })
    } else {
        None
    }
}

/// The error result for a handoff tool not yet wired to a runtime.
pub fn handoff_not_wired() -> (r: ToolOutput)
    ensures
        r.is_error,
        r.content@ == "handoff tool is not wired to a runtime \u{2014} call HandoffHandle::wire() after Arc::new(runtime)"@,
{
    ToolOutput { content: owned("handoff tool is not wired to a runtime \u{2014} call HandoffHandle::wire() after Arc::new(runtime)"), is_error: true }
}

/// The error result for an agent missing from the configuration.
pub fn handoff_unknown_agent(agent_id: &str) -> (r: ToolOutput)
    ensures
        r.is_error,
        r.content@ == "unknown agent '"@ + agent_id@ + "' \u{2014} check the `agents:` section in config"@,
{
    let mut m = owned("unknown agent '");
    push_str(&mut m, agent_id);
    push_str(&mut m, "' \u{2014} check the `agents:` section in config");
    ToolOutput { content: m, is_error: true }
}

/// The session a handoff runs in: its own, so that histories stay apart.
pub fn handoff_session(session_id: &str, agent_id: &str) -> (r: String)
    ensures
        r@ == session_id@ + "-handoff-"@ + agent_id@,
{
    let mut s = owned(session_id);
    push_str(&mut s, "-handoff-");
    push_str(&mut s, agent_id);
    s
}

/// The result of a handoff: the agent's reply marked with its id, or its failure.
pub fn handoff_result(agent_id: &str, outcome: Result<String, String>) -> (r: ToolOutput)
    ensures
        match outcome {
            Ok(reply) => !r.is_error && r.content@ == "["@ + agent_id@ + "]: "@ + reply@,
            Err(e) => r.is_error && r.content@ == "agent '"@ + agent_id@ + "' failed: "@ + e@,
        },
{
    match outcome {
        Ok(reply) => {
            let mut m = owned("[");
            push_str(&mut m, agent_id);
            push_str(&mut m, "]: ");
            push_str(&mut m, reply.as_str());
            ToolOutput { content: m, is_error: false }
        },
        Err(e) => {
            let mut m = owned("agent '");
            push_str(&mut m, agent_id);
            push_str(&mut m, "' failed: ");
            push_str(&mut m, e.as_str());
            ToolOutput { content: m, is_error: true }
        },
    }
}

} // verus!
