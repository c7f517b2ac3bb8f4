//! Configuration and payload detection for the MQTT channel.
use vstd::prelude::*;
use crate::error::Error;
use crate::json::{json_object_str_field, json_str_field, utf8_decode, str_param};
use crate::text::{
    chars_of, decimal, is_blank, is_blank_str, is_prefix, owned, push_decimal, push_str, str_eq,
    string_of, starts_with_str,
};

verus! {

broadcast use vstd::string::group_string_axioms;

/// Payload interpretation mode for the MQTT channel.
#[derive(Debug, Clone, Copy, PartialEq, Eq, Structural)]
pub enum MqttMode {
    /// Every payload is plain text. One session per channel.
    Simple,
    /// Payload must be JSON `{"user_id":"...","text":"..."}`. One session per user_id.
    Multi,
    /// JSON with both `user_id` and `text` is Multi, anything else Simple.
    Auto,
}

/// MQTT delivery guarantee.
#[derive(Debug, Clone, Copy, PartialEq, Eq, Structural)]
pub enum QoS {
    AtMostOnce,
    AtLeastOnce,
    ExactlyOnce,
}

/// The QoS level used when none is configured.
pub fn default_qos() -> (r: u8)
    ensures
        r == 1,
{
    1
}

/// The settings of one MQTT channel as they were written, before validation.
#[derive(Debug, Clone, PartialEq, Eq)]
pub struct RawMqttConfig {
    pub broker_url: Option<String>,
    pub port: Option<u16>,
    pub subscribe_topic: Option<String>,
    pub publish_topic: Option<String>,
    pub client_id: Option<String>,
    pub qos: u8,
    pub username: Option<String>,
    pub password: Option<String>,
    pub mode: String,
}

/// Typed configuration for one MQTT channel.
#[derive(Debug, Clone, PartialEq, Eq)]
pub struct MqttConfig {
    /// Config key name. Used as fallback `client_id` and session prefix.
    pub channel_name: String,
    /// e.g. `"mqtt://localhost"` or `"mqtts://broker.example.com"`.
    pub broker_url: String,
    pub port: u16,
    pub subscribe_topic: String,
    pub publish_topic: String,
    pub client_id: String,
    pub qos: QoS,
    pub username: Option<String>,
    pub password: Option<String>,
    pub mode: MqttMode,
}

/// The lowercase form of `s` (what `str::to_lowercase` returns).
pub uninterp spec fn lowercase(s: Seq<char>) -> Seq<char>;

/// The lowercase form of an ASCII character: `A`..`Z` become `a`..`z`.
pub open spec fn ascii_lower(c: char) -> char {
    if 'A' <= c && c <= 'Z' {
        ((c as u32) + 32) as char
    } else {
        c
    }
}

/// Whether every character of `s` is ASCII.
pub open spec fn all_ascii(s: Seq<char>) -> bool {
    forall|i: int| 0 <= i < s.len() ==> (#[trigger] s[i] as u32) < 128
}

/// `str::to_lowercase`; the contract names its result, and for ASCII text states
/// it: each letter `A`..`Z` lowered, every other character kept (the Unicode case
/// table beyond ASCII is not stated).
#[verifier::external_body]
pub fn to_lowercase(s: &str) -> (r: String)
    ensures
        r@ == lowercase(s@),
        all_ascii(s@) ==> r@ == s@.map_values(|c: char| ascii_lower(c)),
{
    s.to_lowercase()
}

/// Whether an optional setting is present and not blank.
pub open spec fn filled(o: Option<String>) -> bool {
    o matches Some(s) && !is_blank(s@)
}

/// The QoS for a configured level, if it is one of 0, 1, 2.
pub open spec fn qos_of(n: u8) -> Option<QoS> {
    if n == 0 {
        Some(QoS::AtMostOnce)
    } else if n == 1 {
        Some(QoS::AtLeastOnce)
    } else if n == 2 {
        Some(QoS::ExactlyOnce)
    } else {
        None
    }
}

/// The mode for a configured mode name (already lowercased).
pub open spec fn mode_of(lower: Seq<char>) -> MqttMode {
    if lower == "simple"@ {
        MqttMode::Simple
    } else if lower == "multi"@ {
        MqttMode::Multi
    } else {
        MqttMode::Auto
    }
}

/// The message of the error for `raw`, by the first missing or bad setting.
pub open spec fn mqtt_error(raw: RawMqttConfig) -> Option<Seq<char>> {
    if !filled(raw.broker_url) {
        Some("mqtt broker_url is required"@)
    } else if raw.port is None {
        Some("mqtt port is required"@)
    } else if !filled(raw.subscribe_topic) {
        Some("mqtt subscribe_topic is required"@)
    } else if !filled(raw.publish_topic) {
        Some("mqtt publish_topic is required"@)
    } else if qos_of(raw.qos) is None {
        Some("mqtt qos must be 0, 1, or 2 \u{2014} got "@ + decimal(raw.qos as nat))
    } else {
        None
    }
}

/// An optional setting kept only when it is not empty.
pub open spec fn non_empty(o: Option<String>) -> Option<Seq<char>> {
    match o {
        Some(s) => if s@.len() > 0 { Some(s@) } else { None },
        None => None,
    }
}

/// Whether `cfg` is what `raw` validates to for channel `name`.
pub open spec fn mqtt_config_of(name: Seq<char>, raw: RawMqttConfig, cfg: MqttConfig) -> bool {
    &&& cfg.channel_name@ == name
    &&& cfg.broker_url@ == raw.broker_url.unwrap()@
    &&& cfg.port == raw.port.unwrap()
    &&& cfg.subscribe_topic@ == raw.subscribe_topic.unwrap()@
    &&& cfg.publish_topic@ == raw.publish_topic.unwrap()@
    &&& Some(cfg.qos) == qos_of(raw.qos)
    &&& cfg.mode == mode_of(lowercase(raw.mode@))
    &&& cfg.client_id@ == (if filled(raw.client_id) { raw.client_id.unwrap()@ } else { name })
    &&& match cfg.username {
        Some(u) => non_empty(raw.username) == Some(u@),
        None => non_empty(raw.username) is None,
    }
    &&& match cfg.password {
        Some(p) => non_empty(raw.password) == Some(p@),
        None => non_empty(raw.password) is None,
    }
}

fn filled_exec(o: &Option<String>) -> (r: bool)
    ensures
        r == filled(*o),
{
    match o {
        Some(s) => !is_blank_str(s.as_str()),
        None => false,
    }
}

fn non_empty_exec(o: &Option<String>) -> (r: Option<String>)
    ensures
        match r {
            Some(s) => non_empty(*o) == Some(s@),
            None => non_empty(*o) is None,
        },
{
    match o {
        Some(s) => if !s.as_str().is_empty() {
            Some(s.clone())
        } else {
            None
        },
        None => None,
    }
}

impl MqttConfig {
    /// Validates the settings of channel `channel_name`: broker URL, port and both
    /// topics are required, QoS must be 0, 1 or 2; the client ID falls back to the
    /// channel name, and empty credentials are dropped.
    pub fn from_raw(channel_name: &str, raw: &RawMqttConfig) -> (r: Result<MqttConfig, Error>)
        ensures
            r is Ok <==> mqtt_error(*raw) is None,
            r matches Ok(cfg) ==> mqtt_config_of(channel_name@, *raw, cfg),
            r matches Err(e) ==> e is Config && mqtt_error(*raw) == Some(e->Config_0@),
    {
        proof {
            reveal_strlit("");
        }
        if !filled_exec(&raw.broker_url) {
            return Err(Error::Config(owned("mqtt broker_url is required")));
        }
        let port = match raw.port {
            Some(p) => p,
            None => {
                return Err(Error::Config(owned("mqtt port is required")));
            },
        };
        if !filled_exec(&raw.subscribe_topic) {
            return Err(Error::Config(owned("mqtt subscribe_topic is required")));
        }
        if !filled_exec(&raw.publish_topic) {
            return Err(Error::Config(owned("mqtt publish_topic is required")));
        }
        let qos = if raw.qos == 0 {
            QoS::AtMostOnce
        } else if raw.qos == 1 {
            QoS::AtLeastOnce
        } else if raw.qos == 2 {
            QoS::ExactlyOnce
        } else {
            let mut m = owned("mqtt qos must be 0, 1, or 2 \u{2014} got ");
            push_decimal(&mut m, raw.qos as u64);
            return Err(Error::Config(m));
        };
        let lower = to_lowercase(raw.mode.as_str());
        let mode = if str_eq(lower.as_str(), "simple") {
            MqttMode::Simple
        } else if str_eq(lower.as_str(), "multi") {
            MqttMode::Multi
        } else {
            MqttMode::Auto
        };
        let client_id = if filled_exec(&raw.client_id) {
            match &raw.client_id {
                Some(c) => c.clone(),
                None => owned(channel_name),
            }
        } else {
            owned(channel_name)
        };
        let broker_url = match &raw.broker_url {
            Some(b) => b.clone(),
            None => String::new(),
        };
        let subscribe_topic = match &raw.subscribe_topic {
            Some(b) => b.clone(),
            None => String::new(),
        };
        let publish_topic = match &raw.publish_topic {
            Some(b) => b.clone(),
            None => String::new(),
        };
        Ok(MqttConfig {
            channel_name: owned(channel_name),
            broker_url,
            port,
            subscribe_topic,
            publish_topic,
            client_id,
            qos,
            username: non_empty_exec(&raw.username),
            password: non_empty_exec(&raw.password),
            mode,
        })
    }
}

/// `s` with every leading repetition of the non-empty prefix `p` removed
/// (what `str::trim_start_matches` does).
pub open spec fn strip_all(s: Seq<char>, p: Seq<char>) -> Seq<char>
    decreases s.len(),
{
    if p.len() > 0 && is_prefix(p, s) {
        strip_all(s.skip(p.len() as int), p)
    } else {
        s
    }
}

/// The part of `s` before its first `':'` (all of `s` when it has none).
pub open spec fn before_colon(s: Seq<char>) -> Seq<char>
    decreases s.len(),
{
    if s.len() == 0 || s[0] == ':' {
        Seq::empty()
    } else {
        seq![s[0]] + before_colon(s.drop_first())
    }
}

/// The host of a broker URL: the scheme prefixes stripped, then up to the port.
pub open spec fn broker_host(url: Seq<char>) -> Seq<char> {
    before_colon(strip_all(strip_all(url, "mqtts://"@), "mqtt://"@))
}

fn strip_all_exec(v: &Vec<char>, from: usize, p: &Vec<char>) -> (r: usize)
    requires
        from <= v@.len(),
        p@.len() > 0,
    ensures
        from <= r <= v@.len(),
        v@.subrange(r as int, v@.len() as int) == strip_all(v@.subrange(from as int, v@.len() as int), p@),
    decreases v@.len() - from,
{
    let ghost s = v@.subrange(from as int, v@.len() as int);
    let vl = v.len();
    if crate::text::occurs_at_exec(v, p, from) {
        assert(from + p@.len() <= vl);
        proof {
            assert(s.subrange(0, p@.len() as int) =~= v@.subrange(from as int, from + p@.len()));
            assert(s.skip(p@.len() as int) =~= v@.subrange(from + p@.len(), v@.len() as int));
        }
        strip_all_exec(v, from + p.len(), p)
    } else {
        proof {
            if p@.len() <= s.len() {
                assert(s.subrange(0, p@.len() as int) =~= v@.subrange(from as int, from + p@.len()));
            }
        }
        from
    }
}

proof fn lemma_before_colon(s: Seq<char>, k: int)
    requires
        0 <= k <= s.len(),
        forall|j: int| 0 <= j < k ==> #[trigger] s[j] != ':',
        k < s.len() ==> s[k] == ':',
    ensures
        before_colon(s) == s.take(k),
    decreases k,
{
    if k > 0 {
        let t = s.drop_first();
        assert forall|j: int| 0 <= j < k - 1 implies #[trigger] t[j] != ':' by {
            assert(t[j] == s[j + 1]);
        }
        lemma_before_colon(t, k - 1);
        assert(seq![s[0]] + t.take(k - 1) =~= s.take(k));
    } else {
        assert(s.take(0) =~= Seq::<char>::empty());
    }
}

impl MqttConfig {
    /// The host part of `broker_url` (strips `mqtt://` / `mqtts://` and the port).
    pub fn host(&self) -> (r: String)
        ensures
            r@ == broker_host(self.broker_url@),
    {
        proof {
            reveal_strlit("mqtts://");
            reveal_strlit("mqtt://");
        }
        let v = chars_of(self.broker_url.as_str());
        let p1 = chars_of("mqtts://");
        let p2 = chars_of("mqtt://");
        assert(v@.subrange(0, v@.len() as int) =~= v@);
        let a = strip_all_exec(&v, 0, &p1);
        let b = strip_all_exec(&v, a, &p2);
        let mut e = b;
        while e < v.len() && v[e] != ':'
            invariant
                b <= e <= v@.len(),
                forall|j: int| b <= j < e ==> v@[j] != ':',
            decreases v@.len() - e,
        {
            e += 1;
        }
        proof {
            let s = v@.subrange(b as int, v@.len() as int);
            assert forall|j: int| 0 <= j < e - b implies #[trigger] s[j] != ':' by {
                assert(s[j] == v@[b + j]);
            }
            lemma_before_colon(s, e - b);
            assert(s.take(e - b) =~= v@.subrange(b as int, e as int));
        }
        string_of(&v, b, e)
    }

    /// Whether TLS is used: the broker URL starts with `mqtts://`.
    pub fn use_tls(&self) -> (r: bool)
        ensures
            r == is_prefix("mqtts://"@, self.broker_url@),
    {
        starts_with_str(self.broker_url.as_str(), "mqtts://")
    }
}

/// Structured payload for multi-user mode.
#[derive(Debug, Clone, PartialEq, Eq)]
pub struct MultiUserPayload {
    /// Device / user identifier from the JSON `user_id` field.
    pub user_id: String,
    /// Message text from the JSON `text` field.
    pub text: String,
    /// Optional session override from the JSON `session_id` field.
    pub session_id: Option<String>,
}

/// Result of inspecting a raw MQTT payload.
#[derive(Debug, Clone, PartialEq, Eq)]
pub enum DetectedMessage {
    /// Plain text payload: one session per channel.
    Simple { text: String },
    /// JSON payload with `user_id` and `text`: one session per user.
    Multi(MultiUserPayload),
}

/// "<binary payload, {n} bytes>"
pub open spec fn binary_note(n: nat) -> Seq<char> {
    "<binary payload, "@ + decimal(n) + " bytes>"@
}

/// Whether `r` is what `detect` makes of `payload`.
pub open spec fn detected(payload: Seq<u8>, r: DetectedMessage) -> bool {
    if !vstd::utf8::valid_utf8(payload) {
        r == DetectedMessage::Simple { text: r->Simple_text } && r->Simple_text@ == binary_note(payload.len())
    } else {
        let t = vstd::utf8::decode_utf8(payload);
        match (json_str_field(t, "text"@), json_str_field(t, "user_id"@)) {
            (Some(Some(msg)), Some(Some(uid))) => match r {
                DetectedMessage::Multi(m) => {
                    &&& m.user_id@ == uid
                    &&& m.text@ == msg
                    &&& match m.session_id {
                        Some(sid) => json_str_field(t, "session_id"@) == Some(Some(sid@)),
                        None => !(json_str_field(t, "session_id"@) matches Some(Some(_))),
                    }
                },
                _ => false,
            },
            _ => r == DetectedMessage::Simple { text: r->Simple_text } && r->Simple_text@ == t,
        }
    }
}

/// What a text payload is, from its fields as read: multi-user when it has both a
/// string `text` and a string `user_id` (with the optional `session_id`), else
/// simple with the whole text.
pub fn detect_fields(
    payload_text: String,
    text: Option<String>,
    user_id: Option<String>,
    session_id: Option<String>,
) -> (r: DetectedMessage)
    ensures
        match (text, user_id) {
            (Some(msg), Some(uid)) => r == DetectedMessage::Multi(
                MultiUserPayload { user_id: uid, text: msg, session_id },
            ),
            _ => r == DetectedMessage::Simple { text: payload_text },
        },
{
    match (text, user_id) {
        (Some(msg), Some(uid)) => DetectedMessage::Multi(MultiUserPayload { user_id: uid, text: msg, session_id }),
        _ => DetectedMessage::Simple { text: payload_text },
    }
}

/// Inspect raw MQTT payload bytes and decide whether this is a simple or a
/// multi-user message: invalid UTF-8, non-JSON, non-objects and objects lacking a
/// string `text` or `user_id` are simple; objects with both are multi-user.
pub fn detect(payload: &[u8]) -> (r: DetectedMessage)
    ensures
        detected(payload@, r),
{
    let text = match utf8_decode(payload) {
        Ok(t) => t,
        Err(_) => {
            let mut m = owned("<binary payload, ");
            push_decimal(&mut m, payload.len() as u64);
            push_str(&mut m, " bytes>");
            return DetectedMessage::Simple { text: m };
        },
    };
    let msg_text = str_param(text.as_str(), "text");
    let user_id = str_param(text.as_str(), "user_id");
    let session_id = str_param(text.as_str(), "session_id");
    detect_fields(text, msg_text, user_id, session_id)
}

} // verus!
