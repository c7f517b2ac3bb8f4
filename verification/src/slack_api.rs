//! Reading the Slack Web API's answers: the value a call returns or its error,
//! and the size limit on downloaded files.
use vstd::prelude::*;
use crate::text::{owned, push_str, push_decimal, decimal};

verus! {

broadcast use vstd::string::group_string_axioms;

/// Largest file accepted for document ingestion: 10 MiB.
pub const SLACK_MAX_FILE_BYTES: u64 = 10485760;

/// The fields of a Web API answer that the calls read.
#[derive(Debug, Clone, PartialEq, Eq)]
pub struct SlackApiResponse {
    pub ok: bool,
    pub error: Option<String>,
    pub url: Option<String>,
    pub ts: Option<String>,
}

/// The value a call returns: for a refused call `"<method> error: <error>"` (the
/// error `unknown` when none is given); for a missing value
/// `"<method>: no <field> in response"`.
pub open spec fn api_value(ok: bool, error: Option<String>, value: Option<String>, method: Seq<char>, field: Seq<char>) -> Result<
    Seq<char>,
    Seq<char>,
> {
    if !ok {
        Err(method + " error: "@ + match error {
            Some(e) => e@,
            None => "unknown"@,
        })
    } else {
        match value {
            Some(v) => Ok(v@),
            None => Err(method + ": no "@ + field + " in response"@),
        }
    }
}

fn value_of(ok: bool, error: &Option<String>, value: &Option<String>, method: &str, field: &str) -> (r: Result<String, String>)
    ensures
        match api_value(ok, *error, *value, method@, field@) {
            Ok(v) => r matches Ok(x) && x@ == v,
            Err(m) => r matches Err(x) && x@ == m,
        },
{
    if !ok {
        let mut m = owned(method);
        push_str(&mut m, " error: ");
        match error {
            Some(e) => push_str(&mut m, e.as_str()),
            None => push_str(&mut m, "unknown"),
        }
        return Err(m);
    }
    match value {
        Some(v) => Ok(owned(v.as_str())),
        None => {
            let mut m = owned(method);
            push_str(&mut m, ": no ");
            push_str(&mut m, field);
            push_str(&mut m, " in response");
            Err(m)
        },
    }
}

impl SlackApiResponse {
    /// The WebSocket URL that `apps.connections.open` returns, or its error.
    pub fn connection_url(&self) -> (r: Result<String, String>)
        ensures
            match api_value(self.ok, self.error, self.url, "apps.connections.open"@, "url"@) {
                Ok(v) => r matches Ok(x) && x@ == v,
                Err(m) => r matches Err(x) && x@ == m,
            },
    {
        value_of(self.ok, &self.error, &self.url, "apps.connections.open", "url")
    }

    /// The timestamp of the message that `chat.postMessage` posted, or its error.
    pub fn posted_ts(&self) -> (r: Result<String, String>)
        ensures
            match api_value(self.ok, self.error, self.ts, "chat.postMessage"@, "ts"@) {
                Ok(v) => r matches Ok(x) && x@ == v,
                Err(m) => r matches Err(x) && x@ == m,
            },
    {
        value_of(self.ok, &self.error, &self.ts, "chat.postMessage", "ts")
    }
}

/// The refusal of a download of `len` bytes, when it is over the limit.
pub fn download_size_check(len: u64) -> (r: Result<(), String>)
    ensures
        len <= SLACK_MAX_FILE_BYTES ==> r is Ok,
        len > SLACK_MAX_FILE_BYTES ==> (r matches Err(m) && m@ == "file too large: "@ + decimal(len as nat)
            + " bytes exceeds 10485760 byte limit"@),
{
    if len > SLACK_MAX_FILE_BYTES {
        let mut m = owned("file too large: ");
        push_decimal(&mut m, len);
        push_str(&mut m, " bytes exceeds 10485760 byte limit");
        Err(m)
    } else {
        Ok(())
    }
}

} // verus!
