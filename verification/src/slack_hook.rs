//! Slack Socket Mode decisions: what an envelope asks for, when a streamed answer
//! is first posted and then updated, and what is finally shown.
use vstd::prelude::*;
use crate::json::{JsonValue, member, as_text, text_or_empty, field_text, field_str, str_or_empty, member_text, str_member_or_empty, str_param};
use crate::slack_fmt::{mrkdwn, to_slack_mrkdwn};
use crate::text::{is_blank, is_blank_str, owned, push_str, str_eq};

verus! {

broadcast use vstd::string::group_string_axioms;

/// A user message from Slack: its channel, sender and text.
#[derive(Debug, Clone, PartialEq, Eq)]
pub struct SlackMessage {
    pub channel_id: String,
    pub user_id: String,
    pub text: String,
}

/// What to do with a Socket Mode envelope.
#[derive(Debug, Clone, PartialEq, Eq)]
pub enum SlackAction {
    /// Nothing to do.
    Ignore,
    /// Slack asks the client to reconnect.
    Reconnect,
    /// An Events API envelope: acknowledge it with this id (when it has one) and hand
    /// the message (when there is one) to the agent.
    Event { ack: Option<String>, message: Option<SlackMessage> },
}

/// The user message of an Events API envelope: a `message` event that is not from
/// a bot, has no subtype, and has non-blank text.
pub open spec fn event_message(envelope: JsonValue) -> Option<(Seq<char>, Seq<char>, Seq<char>)> {
    match member(envelope, "payload"@) {
        None => None,
        Some(payload) => match member(payload, "event"@) {
            None => None,
            Some(event) => if as_text(member(event, "type"@)) != Some("message"@) || member(event, "bot_id"@)
                is Some || member(event, "subtype"@) is Some || is_blank(text_or_empty(event, "text"@)) {
                None
            } else {
                Some((text_or_empty(event, "channel"@), text_or_empty(event, "user"@), text_or_empty(event, "text"@)))
            },
        },
    }
}

/// What an envelope asks for (`None` when it could not be parsed): `hello` and
/// unknown types are ignored, `disconnect` asks to reconnect, `events_api`
/// envelopes are acknowledged and may carry a message.
pub open spec fn envelope_action(envelope: Option<JsonValue>, r: SlackAction) -> bool {
    match envelope {
        None => r == SlackAction::Ignore,
        Some(env) => {
            let t = as_text(member(env, "type"@));
            if t == Some("disconnect"@) {
                r == SlackAction::Reconnect
            } else if t == Some("events_api"@) {
                r matches SlackAction::Event { ack, message } && (match as_text(member(env, "envelope_id"@)) {
                    Some(id) => ack matches Some(a) && a@ == id,
                    None => ack is None,
                }) && match event_message(env) {
                    Some((c, u, x)) => message matches Some(m) && m.channel_id@ == c && m.user_id@ == u && m.text@ == x,
                    None => message is None,
                }
            } else {
                r == SlackAction::Ignore
            }
        },
    }
}

fn message_of(envelope: &JsonValue) -> (r: Option<SlackMessage>)
    ensures
        match event_message(*envelope) {
            Some((c, u, x)) => r matches Some(m) && m.channel_id@ == c && m.user_id@ == u && m.text@ == x,
            None => r is None,
        },
{
    let payload = match envelope.get("payload") {
        Some(p) => p,
        None => return None,
    };
    let event = match payload.get("event") {
        Some(e) => e,
        None => return None,
    };
    match event.str_member("type") {
        Some(t) => if !str_eq(t, "message") {
            return None;
        },
        None => return None,
    }
    if event.get("bot_id").is_some() || event.get("subtype").is_some() {
        return None;
    }
    let text = event.text_member("text");
    if is_blank_str(text.as_str()) {
        return None;
    }
    Some(SlackMessage { channel_id: event.text_member("channel"), user_id: event.text_member("user"), text })
}

/// Decide what a Socket Mode envelope asks for.
pub fn socket_event(envelope: Option<&JsonValue>) -> (r: SlackAction)
    ensures
        envelope_action(
            match envelope {
                Some(e) => Some(*e),
                None => None,
            },
            r,
        ),
{
    let env = match envelope {
        Some(e) => e,
        None => return SlackAction::Ignore,
    };
    match env.str_member("type") {
        Some(t) => {
            if str_eq(t, "disconnect") {
                SlackAction::Reconnect
            } else if str_eq(t, "events_api") {
                let ack = match env.str_member("envelope_id") {
                    Some(id) => Some(owned(id)),
                    None => None,
                };
                SlackAction::Event { ack, message: message_of(env) }
            } else {
                SlackAction::Ignore
            }
        },
        None => SlackAction::Ignore,
    }
}

/// The user message of a raw Events API frame, read member by member: a `message`
/// event that is not from a bot, has no subtype, and has non-blank text.
pub open spec fn frame_message(raw: Seq<char>) -> Option<(Seq<char>, Seq<char>, Seq<char>)> {
    match field_text(raw, "payload"@) {
        None => None,
        Some(payload) => match field_text(payload, "event"@) {
            None => None,
            Some(event) => if field_str(event, "type"@) != Some("message"@) || field_text(event, "bot_id"@) is Some
                || field_text(event, "subtype"@) is Some || is_blank(str_or_empty(event, "text"@)) {
                None
            } else {
                Some((str_or_empty(event, "channel"@), str_or_empty(event, "user"@), str_or_empty(event, "text"@)))
            },
        },
    }
}

/// What a raw Socket Mode frame asks for: text that is not a JSON object, `hello`
/// and unknown types are ignored, `disconnect` asks to reconnect, `events_api`
/// frames are acknowledged and may carry a message.
pub open spec fn frame_action(raw: Seq<char>, r: SlackAction) -> bool {
    let t = field_str(raw, "type"@);
    if t == Some("disconnect"@) {
        r == SlackAction::Reconnect
    } else if t == Some("events_api"@) {
        r matches SlackAction::Event { ack, message } && (match field_str(raw, "envelope_id"@) {
            Some(id) => ack matches Some(a) && a@ == id,
            None => ack is None,
        }) && match frame_message(raw) {
            Some((c, u, x)) => message matches Some(m) && m.channel_id@ == c && m.user_id@ == u && m.text@ == x,
            None => message is None,
        }
    } else {
        r == SlackAction::Ignore
    }
}

fn frame_message_of(raw: &str) -> (r: Option<SlackMessage>)
    ensures
        match frame_message(raw@) {
            Some((c, u, x)) => r matches Some(m) && m.channel_id@ == c && m.user_id@ == u && m.text@ == x,
            None => r is None,
        },
{
    let payload = match member_text(raw, "payload") {
        Some(p) => p,
        None => return None,
    };
    let event = match member_text(payload.as_str(), "event") {
        Some(e) => e,
        None => return None,
    };
    let e = event.as_str();
    match str_param(e, "type") {
        Some(t) => if !str_eq(t.as_str(), "message") {
            return None;
        },
        None => return None,
    }
    if member_text(e, "bot_id").is_some() || member_text(e, "subtype").is_some() {
        return None;
    }
    let text = str_member_or_empty(e, "text");
    if is_blank_str(text.as_str()) {
        return None;
    }
    Some(SlackMessage {
        channel_id: str_member_or_empty(e, "channel"),
        user_id: str_member_or_empty(e, "user"),
        text,
    })
}

/// Decide what a raw Socket Mode frame asks for, reading it with serde_json.
pub fn socket_frame(raw: &str) -> (r: SlackAction)
    ensures
        frame_action(raw@, r),
{
    match str_param(raw, "type") {
        Some(t) => {
            if str_eq(t.as_str(), "disconnect") {
                SlackAction::Reconnect
            } else if str_eq(t.as_str(), "events_api") {
                let ack = str_param(raw, "envelope_id");
                SlackAction::Event { ack, message: frame_message_of(raw) }
            } else {
                SlackAction::Ignore
            }
        },
        None => SlackAction::Ignore,
    }
}

/// Milliseconds an answer is buffered before it is first posted, and between updates.
pub const STREAM_INTERVAL_MS: u64 = 1000;

/// A streamed answer being shown: the text so far and the timestamp of the posted
/// message, once posted.
pub struct SlackStream {
    pub accumulated: String,
    pub msg_ts: Option<String>,
}

/// What to do after a chunk of streamed text.
#[derive(Debug, Clone, PartialEq, Eq)]
pub enum StreamStep {
    /// Keep collecting.
    Wait,
    /// Post this text as a new message (then report its timestamp).
    Post(String),
    /// Replace the posted message with this text.
    Update { ts: String, text: String },
}

impl SlackStream {
    /// Nothing streamed yet.
    pub fn new() -> (r: Self)
        ensures
            r.accumulated@.len() == 0,
            r.msg_ts is None,
    {
        SlackStream { accumulated: String::new(), msg_ts: None }
    }

    /// Take a chunk, given the milliseconds since the first chunk and since the
    /// last post or update: the text is posted once a second has passed since the
    /// first chunk, then updated at most once a second.
    pub fn on_delta(&mut self, delta: &str, since_first_ms: u64, since_update_ms: u64) -> (r: StreamStep)
        ensures
            final(self).accumulated@ == old(self).accumulated@ + delta@,
            final(self).msg_ts == old(self).msg_ts,
            match old(self).msg_ts {
                None => if since_first_ms >= STREAM_INTERVAL_MS {
                    r matches StreamStep::Post(t) && t@ == final(self).accumulated@
                } else {
                    r == StreamStep::Wait
                },
                Some(ts) => if since_update_ms >= STREAM_INTERVAL_MS {
                    r matches StreamStep::Update { ts: u, text } && u == ts && text@ == final(self).accumulated@
                } else {
                    r == StreamStep::Wait
                },
            },
    {
        push_str(&mut self.accumulated, delta);
        match &self.msg_ts {
            None => if since_first_ms >= STREAM_INTERVAL_MS {
                StreamStep::Post(self.accumulated.clone())
            } else {
                StreamStep::Wait
            },
            Some(ts) => if since_update_ms >= STREAM_INTERVAL_MS {
                StreamStep::Update { ts: ts.clone(), text: self.accumulated.clone() }
            } else {
                StreamStep::Wait
            },
        }
    }

    /// Record the timestamp of the posted message.
    pub fn posted(&mut self, ts: String)
        ensures
            final(self).msg_ts == Some(ts),
            final(self).accumulated == old(self).accumulated,
    {
        self.msg_ts = Some(ts);
    }

    /// The final message for the agent's answer, as `(timestamp to update or None to
    /// post, text)`: the answer in Slack markup, nothing for a blocked sender, the
    /// error otherwise.
    pub fn finish(&self, result: Result<String, String>) -> (r: Option<(Option<String>, String)>)
        ensures
            match result {
                Ok(t) => r matches Some((ts, text)) && ts == self.msg_ts && text@ == mrkdwn(t@),
                Err(e) => if e@ == "__blocked__"@ {
                    r is None
                } else {
                    r matches Some((ts, text)) && ts == self.msg_ts && text@ == "Sorry, an error occurred: "@ + e@
                },
            },
    {
        let ts = match &self.msg_ts {
            Some(t) => Some(t.clone()),
            None => None,
        };
        match result {
            Ok(t) => Some((ts, to_slack_mrkdwn(t.as_str()))),
            Err(e) => if str_eq(e.as_str(), "__blocked__") {
                None
            } else {
                let mut m = owned("Sorry, an error occurred: ");
                push_str(&mut m, e.as_str());
                Some((ts, m))
            },
        }
    }
}

} // verus!
