//! WhatsApp webhook decisions: the subscription handshake, which messages of a
//! notification reach the agent, which channel answers, and what is sent back.
use vstd::prelude::*;
use crate::json::{JsonValue, member, as_text, as_items, text_or_empty};
use crate::text::{is_blank, is_blank_str, owned, str_eq, views};
use crate::runtime::first_index;

verus! {

broadcast use vstd::string::group_string_axioms;

/// The query of a subscription handshake.
#[derive(Debug, Clone, PartialEq, Eq)]
pub struct VerifyParams {
    pub mode: Option<String>,
    pub verify_token: Option<String>,
    pub challenge: Option<String>,
}

/// An optional string's text, empty when absent.
pub open spec fn or_empty(o: Option<String>) -> Seq<char> {
    match o {
        Some(s) => s@,
        None => Seq::empty(),
    }
}

fn text_of(o: &Option<String>) -> (r: &str)
    ensures
        r@ == or_empty(*o),
{
    match o {
        Some(s) => s.as_str(),
        None => {
            proof {
                reveal_strlit("");
            }
            assert(""@ =~= Seq::<char>::empty());
            ""
        },
    }
}

/// The answer to a subscription handshake: the challenge when the mode is
/// `subscribe` and the token is some channel's verify token, else a refusal.
pub fn verify_response(verify_tokens: &Vec<String>, params: &VerifyParams) -> (r: (u16, String))
    ensures
        or_empty(params.mode) != "subscribe"@ ==> r.0 == 403 && r.1@ == "invalid mode"@,
        or_empty(params.mode) == "subscribe"@ && views(verify_tokens@).contains(or_empty(params.verify_token)) ==> r.0
            == 200 && r.1@ == or_empty(params.challenge),
        or_empty(params.mode) == "subscribe"@ && !views(verify_tokens@).contains(or_empty(params.verify_token)) ==> r.0
            == 403 && r.1@ == "invalid verify token"@,
{
    let mode = text_of(&params.mode);
    let token = text_of(&params.verify_token);
    let challenge = text_of(&params.challenge);
    if !str_eq(mode, "subscribe") {
        return (403, owned("invalid mode"));
    }
    match crate::runtime::position_of(verify_tokens, token) {
        Some(_) => (200, owned(challenge)),
        None => (403, owned("invalid verify token")),
    }
}

/// A text message that reaches the agent: the business number it was sent to, the
/// sender, the message id, the text and the sender's display name.
#[derive(Debug, Clone, PartialEq, Eq)]
pub struct WhatsAppMessage {
    pub phone_number_id: String,
    pub from: String,
    pub message_id: String,
    pub text: String,
    pub user_name: String,
}

/// A message by its views: number, sender, id, text, display name.
pub type WaView = (Seq<char>, Seq<char>, Seq<char>, Seq<char>, Seq<char>);

/// The view of a message.
pub open spec fn wa_view(m: WhatsAppMessage) -> WaView {
    (m.phone_number_id@, m.from@, m.message_id@, m.text@, m.user_name@)
}

/// The views of messages.
pub open spec fn wa_views(ms: Seq<WhatsAppMessage>) -> Seq<WaView> {
    ms.map_values(|m: WhatsAppMessage| wa_view(m))
}

/// The profile name of a contact whose `wa_id` is `from`.
pub open spec fn contact_name_of(c: JsonValue, from: Seq<char>) -> Option<Seq<char>> {
    if as_text(member(c, "wa_id"@)) == Some(from) {
        match member(c, "profile"@) {
            Some(p) => as_text(member(p, "name"@)),
            None => None,
        }
    } else {
        None
    }
}

/// The first profile name among contacts with `wa_id` equal to `from`.
pub open spec fn contact_name(cs: Seq<JsonValue>, from: Seq<char>) -> Option<Seq<char>>
    decreases cs.len(),
{
    if cs.len() == 0 {
        None
    } else {
        match contact_name_of(cs[0], from) {
            Some(n) => Some(n),
            None => contact_name(cs.drop_first(), from),
        }
    }
}

/// The body text of a message (empty when it has none).
pub open spec fn body_text(msg: JsonValue) -> Seq<char> {
    match member(msg, "text"@) {
        Some(t) => text_or_empty(t, "body"@),
        None => Seq::empty(),
    }
}

/// What a message hands the agent: text messages with a non-blank body, named
/// after the sender's contact profile (the sender's number when there is none).
pub open spec fn message_view(msg: JsonValue, phone: Seq<char>, contacts: Option<Seq<JsonValue>>) -> Option<WaView> {
    if as_text(member(msg, "type"@)) != Some("text"@) || is_blank(body_text(msg)) {
        None
    } else {
        let from = text_or_empty(msg, "from"@);
        let name = match contacts {
            Some(cs) => match contact_name(cs, from) {
                Some(n) => n,
                None => from,
            },
            None => from,
        };
        Some((phone, from, text_or_empty(msg, "id"@), body_text(msg), name))
    }
}

/// The messages handed to the agent among `msgs`.
pub open spec fn messages_view(msgs: Seq<JsonValue>, phone: Seq<char>, contacts: Option<Seq<JsonValue>>) -> Seq<WaView>
    decreases msgs.len(),
{
    if msgs.len() == 0 {
        Seq::empty()
    } else {
        let rest = messages_view(msgs.drop_last(), phone, contacts);
        match message_view(msgs.last(), phone, contacts) {
            Some(v) => rest.push(v),
            None => rest,
        }
    }
}

/// The business number a change was sent to (empty when unknown).
pub open spec fn change_phone(value: JsonValue) -> Seq<char> {
    match member(value, "metadata"@) {
        Some(m) => text_or_empty(m, "phone_number_id"@),
        None => Seq::empty(),
    }
}

/// The messages of one change handed to the agent.
pub open spec fn change_view(change: JsonValue) -> Seq<WaView> {
    match member(change, "value"@) {
        None => Seq::empty(),
        Some(value) => match as_items(member(value, "messages"@)) {
            None => Seq::empty(),
            Some(msgs) => messages_view(msgs, change_phone(value), as_items(member(value, "contacts"@))),
        },
    }
}

/// The messages of changes handed to the agent, in order.
pub open spec fn changes_view(cs: Seq<JsonValue>) -> Seq<WaView>
    decreases cs.len(),
{
    if cs.len() == 0 {
        Seq::empty()
    } else {
        changes_view(cs.drop_last()) + change_view(cs.last())
    }
}

/// The messages of one entry handed to the agent.
pub open spec fn entry_view(entry: JsonValue) -> Seq<WaView> {
    match as_items(member(entry, "changes"@)) {
        Some(cs) => changes_view(cs),
        None => Seq::empty(),
    }
}

/// The messages of entries handed to the agent, in order.
pub open spec fn entries_view(es: Seq<JsonValue>) -> Seq<WaView>
    decreases es.len(),
{
    if es.len() == 0 {
        Seq::empty()
    } else {
        entries_view(es.drop_last()) + entry_view(es.last())
    }
}

/// The messages of a notification handed to the agent, in order.
pub open spec fn notification_view(body: JsonValue) -> Seq<WaView> {
    match as_items(member(body, "entry"@)) {
        Some(es) => entries_view(es),
        None => Seq::empty(),
    }
}

fn find_contact_name(cs: &Vec<JsonValue>, from: &str) -> (r: Option<String>)
    ensures
        match r {
            Some(n) => contact_name(cs@, from@) == Some(n@),
            None => contact_name(cs@, from@) is None,
        },
{
    let mut i: usize = 0;
    assert(cs@.skip(0) =~= cs@);
    while i < cs.len()
        invariant
            i <= cs@.len(),
            contact_name(cs@, from@) == contact_name(cs@.skip(i as int), from@),
        decreases cs@.len() - i,
    {
        assert(cs@.skip(i as int).drop_first() =~= cs@.skip(i + 1));
        assert(cs@.skip(i as int)[0] == cs@[i as int]);
        let c = &cs[i];
        let wa = c.str_member("wa_id");
        if let Some(w) = wa {
            if str_eq(w, from) {
                if let Some(p) = c.get("profile") {
                    if let Some(n) = p.str_member("name") {
                        return Some(owned(n));
                    }
                }
            }
        }
        i += 1;
    }
    None
}

fn message_of(msg: &JsonValue, phone: &str, contacts: Option<&Vec<JsonValue>>) -> (r: Option<WhatsAppMessage>)
    ensures
        match r {
            Some(m) => message_view(
                *msg,
                phone@,
                match contacts {
                    Some(cs) => Some(cs@),
                    None => None,
                },
            ) == Some(wa_view(m)),
            None => message_view(
                *msg,
                phone@,
                match contacts {
                    Some(cs) => Some(cs@),
                    None => None,
                },
            ) is None,
        },
{
    match msg.str_member("type") {
        Some(t) => if !str_eq(t, "text") {
            return None;
        },
        None => return None,
    }
    let text = match msg.get("text") {
        Some(t) => t.text_member("body"),
        None => String::new(),
    };
    if is_blank_str(text.as_str()) {
        return None;
    }
    let from = msg.text_member("from");
    let message_id = msg.text_member("id");
    let user_name = match contacts {
        Some(cs) => match find_contact_name(cs, from.as_str()) {
            Some(n) => n,
            None => from.clone(),
        },
        None => from.clone(),
    };
    Some(WhatsAppMessage { phone_number_id: owned(phone), from, message_id, text, user_name })
}

fn push_change(change: &JsonValue, out: &mut Vec<WhatsAppMessage>)
    ensures
        wa_views(final(out)@) == wa_views(old(out)@) + change_view(*change),
{
    let value = match change.get("value") {
        Some(v) => v,
        None => {
            assert(wa_views(out@) =~= wa_views(out@) + Seq::<WaView>::empty());
            return;
        },
    };
    let msgs = match value.get("messages") {
        Some(m) => match m.as_array() {
            Some(items) => items,
            None => {
                assert(wa_views(out@) =~= wa_views(out@) + Seq::<WaView>::empty());
                return;
            },
        },
        None => {
            assert(wa_views(out@) =~= wa_views(out@) + Seq::<WaView>::empty());
            return;
        },
    };
    let phone = match value.get("metadata") {
        Some(m) => m.text_member("phone_number_id"),
        None => String::new(),
    };
    let contacts: Option<&Vec<JsonValue>> = match value.get("contacts") {
        Some(c) => c.as_array(),
        None => None,
    };
    let ghost start = wa_views(out@);
    let ghost cs = match contacts {
        Some(c) => Some(c@),
        None => None::<Seq<JsonValue>>,
    };
    let mut i: usize = 0;
    assert(wa_views(out@) =~= start + messages_view(msgs@.take(0), phone@, cs));
    while i < msgs.len()
        invariant
            i <= msgs@.len(),
            cs == match contacts {
                Some(c) => Some(c@),
                None => None::<Seq<JsonValue>>,
            },
            wa_views(out@) == start + messages_view(msgs@.take(i as int), phone@, cs),
        decreases msgs@.len() - i,
    {
        proof {
            assert(msgs@.take(i + 1).drop_last() =~= msgs@.take(i as int));
        }
        let ghost before = out@;
        if let Some(m) = message_of(&msgs[i], phone.as_str(), contacts) {
            out.push(m);
            assert(wa_views(out@) =~= wa_views(before).push(wa_view(m)));
        }
        i += 1;
        assert(wa_views(out@) =~= start + messages_view(msgs@.take(i as int), phone@, cs));
    }
    assert(msgs@.take(i as int) =~= msgs@);
}

fn push_entry(entry: &JsonValue, out: &mut Vec<WhatsAppMessage>)
    ensures
        wa_views(final(out)@) == wa_views(old(out)@) + entry_view(*entry),
{
    let changes = match entry.get("changes") {
        Some(c) => match c.as_array() {
            Some(items) => items,
            None => {
                assert(wa_views(out@) =~= wa_views(out@) + Seq::<WaView>::empty());
                return;
            },
        },
        None => {
            assert(wa_views(out@) =~= wa_views(out@) + Seq::<WaView>::empty());
            return;
        },
    };
    let ghost start = wa_views(out@);
    let mut i: usize = 0;
    assert(wa_views(out@) =~= start + changes_view(changes@.take(0)));
    while i < changes.len()
        invariant
            i <= changes@.len(),
            wa_views(out@) == start + changes_view(changes@.take(i as int)),
        decreases changes@.len() - i,
    {
        proof {
            assert(changes@.take(i + 1).drop_last() =~= changes@.take(i as int));
        }
        push_change(&changes[i], out);
        i += 1;
        assert(wa_views(out@) =~= start + changes_view(changes@.take(i as int)));
    }
    assert(changes@.take(i as int) =~= changes@);
}

/// The text messages of a notification handed to the agent, in order: every
/// change of every entry, each message with a non-blank text body.
pub fn whatsapp_messages(body: &JsonValue) -> (r: Vec<WhatsAppMessage>)
    ensures
        wa_views(r@) == notification_view(*body),
{
    let mut r: Vec<WhatsAppMessage> = Vec::new();
    let entries = match body.get("entry") {
        Some(e) => match e.as_array() {
            Some(items) => items,
            None => {
                assert(wa_views(r@) =~= Seq::<WaView>::empty());
                return r;
            },
        },
        None => {
            assert(wa_views(r@) =~= Seq::<WaView>::empty());
            return r;
        },
    };
    let mut i: usize = 0;
    assert(wa_views(r@) =~= entries_view(entries@.take(0)));
    while i < entries.len()
        invariant
            i <= entries@.len(),
            wa_views(r@) == entries_view(entries@.take(i as int)),
        decreases entries@.len() - i,
    {
        proof {
            assert(entries@.take(i + 1).drop_last() =~= entries@.take(i as int));
        }
        push_entry(&entries[i], &mut r);
        i += 1;
    }
    assert(entries@.take(i as int) =~= entries@);
    r
}

/// The channel answering a message sent to `phone_number_id`: the channel with that
/// number, else the first channel.
pub fn channel_for(phone_number_ids: &Vec<String>, phone_number_id: &str) -> (r: Option<usize>)
    ensures
        match first_index(views(phone_number_ids@), phone_number_id@) {
            Some(i) => r == Some(i as usize),
            None => if phone_number_ids@.len() > 0 {
                r == Some(0usize)
            } else {
                r is None
            },
        },
{
    match crate::runtime::position_of(phone_number_ids, phone_number_id) {
        Some(i) => Some(i),
        None => if phone_number_ids.len() > 0 {
            Some(0)
        } else {
            None
        },
    }
}

/// The text sent back for the agent's answer: the answer itself, nothing for a
/// blocked sender, an apology for a failure.
pub fn reply_text(result: Result<String, String>) -> (r: Option<String>)
    ensures
        match result {
            Ok(resp) => r == Some(resp),
            Err(e) => if e@ == "__blocked__"@ {
                r is None
            } else {
                r matches Some(t) && t@ == "Sorry, an error occurred processing your message."@
            },
        },
{
    match result {
        Ok(resp) => Some(resp),
        Err(e) => if str_eq(e.as_str(), "__blocked__") {
            None
        } else {
            Some(owned("Sorry, an error occurred processing your message."))
        },
    }
}

} // verus!
