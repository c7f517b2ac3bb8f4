//! LINE webhook decisions: which channel's secret signs a request, which events
//! reach the agent, and how a reply is delivered.
use vstd::prelude::*;
use crate::crypto::{base64, hmac_sha256, hmac_sha256_tag, base64_encode};
use crate::json::{JsonValue, member, as_text, as_items, text_or_empty, field_text, field_str, str_or_empty, member_text,
    str_member_or_empty, str_param, json_items, json_slice, json_text_from_slice, json_array_items};
use crate::text::{is_blank, is_blank_str, owned, str_eq, views};
use crate::line_fmt::{truncate_chars, LINE_TEXT_MAX};
use crate::runtime::first_index;

verus! {

broadcast use vstd::string::group_string_axioms;

/// The `X-Line-Signature` of `body` under a channel secret: base64 of its
/// HMAC-SHA256.
pub open spec fn line_signature(secret: Seq<char>, body: Seq<u8>) -> Seq<char> {
    base64(hmac_sha256(vstd::utf8::encode_utf8(secret), body))
}

/// Whether `signature` is the signature of `body` under `secret`.
pub fn verify_signature(secret: &str, body: &[u8], signature: &str) -> (r: bool)
    ensures
        r == (line_signature(secret@, body@) == signature@),
{
    let tag = hmac_sha256_tag(secret.as_bytes(), body);
    let expected = base64_encode(tag.as_slice());
    str_eq(expected.as_str(), signature)
}

/// Whether some secret signs `body` as `signature`, and the first that does.
pub open spec fn signing_secret(secrets: Seq<Seq<char>>, body: Seq<u8>, signature: Seq<char>) -> Option<int> {
    if exists|i: int| 0 <= i < secrets.len() && line_signature(#[trigger] secrets[i], body) == signature {
        Some(choose|i: int| 0 <= i < secrets.len() && line_signature(secrets[i], body) == signature && forall|j: int|
            0 <= j < i ==> line_signature(#[trigger] secrets[j], body) != signature)
    } else {
        None
    }
}

/// A request signed with some channel's secret is matched: to that channel, or to
/// an earlier one whose secret gives the same signature.
pub proof fn lemma_signed_request_matches(secrets: Seq<Seq<char>>, body: Seq<u8>, i: int)
    requires
        0 <= i < secrets.len(),
    ensures
        signing_secret(secrets, body, line_signature(secrets[i], body)) matches Some(j) && 0 <= j <= i
            && line_signature(secrets[j], body) == line_signature(secrets[i], body),
{
    let sig = line_signature(secrets[i], body);
    let sigs = Seq::new(secrets.len(), |k: int| line_signature(secrets[k], body));
    lemma_first_signer(sigs, sig, i);
    let j = choose|j: int| 0 <= j <= i && sigs[j] == sig && forall|m: int| 0 <= m < j ==> #[trigger] sigs[m] != sig;
    assert(forall|m: int| 0 <= m < j ==> line_signature(#[trigger] secrets[m], body) != sig) by {
        assert forall|m: int| 0 <= m < j implies line_signature(#[trigger] secrets[m], body) != sig by {
            assert(sigs[m] != sig);
        }
    }
    assert(exists|k: int| 0 <= k < secrets.len() && line_signature(#[trigger] secrets[k], body) == sig) by {
        assert(line_signature(secrets[j], body) == sig);
    }
    let c = choose|k: int| 0 <= k < secrets.len() && line_signature(secrets[k], body) == sig && forall|m: int|
        0 <= m < k ==> line_signature(#[trigger] secrets[m], body) != sig;
    if c < j {
        assert(sigs[c] != sig);
    } else if c > j {
        assert(line_signature(secrets[j], body) != sig);
    }
}

/// In a sequence that holds `x` at `i`, the first position holding `x` is at most `i`.
proof fn lemma_first_signer(sigs: Seq<Seq<char>>, x: Seq<char>, i: int)
    requires
        0 <= i < sigs.len(),
        sigs[i] == x,
    ensures
        exists|j: int| 0 <= j <= i && sigs[j] == x && forall|m: int| 0 <= m < j ==> #[trigger] sigs[m] != x,
    decreases i,
{
    if exists|m: int| 0 <= m < i && sigs[m] == x {
        let m = choose|m: int| 0 <= m < i && sigs[m] == x;
        lemma_first_signer(sigs, x, m);
    } else {
        assert(forall|m: int| 0 <= m < i ==> #[trigger] sigs[m] != x);
    }
}

/// The position of the first channel whose secret signs the request.
pub fn matching_channel(secrets: &Vec<String>, body: &[u8], signature: &str) -> (r: Option<usize>)
    ensures
        match r {
            Some(i) => signing_secret(views(secrets@), body@, signature@) == Some(i as int),
            None => signing_secret(views(secrets@), body@, signature@) is None,
        },
{
    let ghost ss = views(secrets@);
    let mut i: usize = 0;
    while i < secrets.len()
        invariant
            i <= secrets@.len(),
            ss == views(secrets@),
            forall|j: int| 0 <= j < i ==> line_signature(#[trigger] ss[j], body@) != signature@,
        decreases secrets@.len() - i,
    {
        if verify_signature(secrets[i].as_str(), body, signature) {
            assert(line_signature(ss[i as int], body@) == signature@);
            let ghost c = choose|c: int| 0 <= c < ss.len() && line_signature(ss[c], body@) == signature@ && forall|j: int|
                0 <= j < c ==> line_signature(#[trigger] ss[j], body@) != signature@;
            assert(c == i as int) by {
                if c < i {
                } else if c > i {
                    assert(line_signature(ss[i as int], body@) != signature@);
                }
            }
            return Some(i);
        }
        i += 1;
    }
    None
}

/// The first check of a webhook POST: 401 when no channel's secret signs the
/// body, 400 when the body is not JSON; otherwise the signing channel.
pub fn post_check(secrets: &Vec<String>, body: &[u8], signature: &str) -> (r: Result<usize, u16>)
    ensures
        match signing_secret(views(secrets@), body@, signature@) {
            None => r == Err::<usize, u16>(401),
            Some(i) => if crate::json::json_slice(body@) is Ok {
                r == Ok::<usize, u16>(i as usize)
            } else {
                r == Err::<usize, u16>(400)
            },
        },
{
    let c = match matching_channel(secrets, body, signature) {
        Some(c) => c,
        None => return Err(401),
    };
    match crate::json::json_text_from_slice(body) {
        Ok(_) => Ok(c),
        Err(_) => Err(400),
    }
}

/// A text message that reaches the agent: who sent it, the conversation it belongs
/// to (the group or room for group chats), its text, the token to reply with, and
/// whether it came from a group.
#[derive(Debug, Clone, PartialEq, Eq)]
pub struct LineEvent {
    pub user_id: String,
    pub context_id: String,
    pub text: String,
    pub reply_token: String,
    pub is_group: bool,
}

/// A dispatched event by its views: user, context, text, reply token, group flag.
pub type LineEventView = (Seq<char>, Seq<char>, Seq<char>, Seq<char>, bool);

/// The view of a dispatched event.
pub open spec fn event_view(e: LineEvent) -> LineEventView {
    (e.user_id@, e.context_id@, e.text@, e.reply_token@, e.is_group)
}

/// The views of dispatched events.
pub open spec fn event_views(es: Seq<LineEvent>) -> Seq<LineEventView> {
    es.map_values(|e: LineEvent| event_view(e))
}

/// The kind of an event's source (`user` when it has none).
pub open spec fn source_type(ev: JsonValue) -> Seq<char> {
    match member(ev, "source"@) {
        Some(src) => match as_text(member(src, "type"@)) {
            Some(t) => t,
            None => "user"@,
        },
        None => "user"@,
    }
}

/// The sending user of an event (empty when unknown).
pub open spec fn source_user(ev: JsonValue) -> Seq<char> {
    match member(ev, "source"@) {
        Some(src) => text_or_empty(src, "userId"@),
        None => Seq::empty(),
    }
}

/// The conversation of a group event: its group id, else its room id, else the user.
pub open spec fn group_context(ev: JsonValue) -> Seq<char> {
    let id = match member(ev, "source"@) {
        Some(src) => match member(src, "groupId"@) {
            Some(g) => as_text(Some(g)),
            None => as_text(member(src, "roomId"@)),
        },
        None => None,
    };
    match id {
        Some(c) => c,
        None => source_user(ev),
    }
}

/// The text of a text-message event, when it is one and its text is not blank.
pub open spec fn message_text(ev: JsonValue) -> Option<Seq<char>> {
    if as_text(member(ev, "type"@)) != Some("message"@) {
        None
    } else {
        match member(ev, "message"@) {
            None => None,
            Some(msg) => if as_text(member(msg, "type"@)) != Some("text"@) {
                None
            } else {
                match as_text(member(msg, "text"@)) {
                    Some(t) => if is_blank(t) {
                        None
                    } else {
                        Some(t)
                    },
                    None => None,
                }
            },
        }
    }
}

/// What an event hands the agent, if anything: text messages, except group
/// messages that the channel's group filter refuses.
pub open spec fn dispatched(ev: JsonValue, group_ok: bool) -> Option<LineEventView> {
    match message_text(ev) {
        None => None,
        Some(t) => {
            let st = source_type(ev);
            let is_group = st == "group"@ || st == "room"@;
            if is_group && !group_ok {
                None
            } else {
                Some(
                    (
                        source_user(ev),
                        if is_group {
                            group_context(ev)
                        } else {
                            source_user(ev)
                        },
                        t,
                        text_or_empty(ev, "replyToken"@),
                        is_group,
                    ),
                )
            }
        },
    }
}

/// The events of a webhook body handed to the agent, in order.
pub open spec fn dispatched_all(evs: Seq<JsonValue>, group_ok: bool) -> Seq<LineEventView>
    decreases evs.len(),
{
    if evs.len() == 0 {
        Seq::empty()
    } else {
        let rest = dispatched_all(evs.drop_last(), group_ok);
        match dispatched(evs.last(), group_ok) {
            Some(v) => rest.push(v),
            None => rest,
        }
    }
}

fn event_of(ev: &JsonValue, group_ok: bool) -> (r: Option<LineEvent>)
    ensures
        match r {
            Some(e) => dispatched(*ev, group_ok) == Some(event_view(e)),
            None => dispatched(*ev, group_ok) is None,
        },
{
    match ev.str_member("type") {
        Some(t) => if !str_eq(t, "message") {
            return None;
        },
        None => return None,
    }
    let msg = match ev.get("message") {
        Some(m) => m,
        None => return None,
    };
    match msg.str_member("type") {
        Some(t) => if !str_eq(t, "text") {
            return None;
        },
        None => return None,
    }
    let text = match msg.str_member("text") {
        Some(t) => if is_blank_str(t) {
            return None;
        } else {
            owned(t)
        },
        None => return None,
    };
    let reply_token = ev.text_member("replyToken");
    let source = ev.get("source");
    let st: &str = match source {
        Some(src) => match src.str_member("type") {
            Some(t) => t,
            None => "user",
        },
        None => "user",
    };
    let is_group = str_eq(st, "group") || str_eq(st, "room");
    if is_group && !group_ok {
        return None;
    }
    let user_id = match source {
        Some(src) => src.text_member("userId"),
        None => String::new(),
    };
    let context_id = if is_group {
        let id: Option<&str> = match source {
            Some(src) => match src.get("groupId") {
                Some(g) => g.as_str(),
                None => src.str_member("roomId"),
            },
            None => None,
        };
        match id {
            Some(c) => owned(c),
            None => user_id.clone(),
        }
    } else {
        user_id.clone()
    };
    proof {
        reveal_strlit("user");
        reveal_strlit("group");
        reveal_strlit("room");
    }
    Some(LineEvent { user_id, context_id, text, reply_token, is_group })
}

/// The text-message events of a webhook body handed to the agent, in order; none
/// when the body has no `events` array. `group_ok` is what the channel's group
/// filter answers for a message without a mention.
pub fn line_events(body: &JsonValue, group_ok: bool) -> (r: Vec<LineEvent>)
    ensures
        event_views(r@) == match as_items(member(*body, "events"@)) {
            Some(evs) => dispatched_all(evs, group_ok),
            None => Seq::empty(),
        },
{
    let mut r: Vec<LineEvent> = Vec::new();
    let events = match body.get("events") {
        Some(v) => match v.as_array() {
            Some(items) => items,
            None => {
                assert(event_views(r@) =~= Seq::<LineEventView>::empty());
                return r;
            },
        },
        None => {
            assert(event_views(r@) =~= Seq::<LineEventView>::empty());
            return r;
        },
    };
    let mut i: usize = 0;
    assert(event_views(r@) =~= dispatched_all(events@.take(0), group_ok));
    while i < events.len()
        invariant
            i <= events@.len(),
            event_views(r@) == dispatched_all(events@.take(i as int), group_ok),
        decreases events@.len() - i,
    {
        proof {
            assert(events@.take(i + 1).drop_last() =~= events@.take(i as int));
        }
        let ghost before = r@;
        if let Some(e) = event_of(&events[i], group_ok) {
            r.push(e);
            assert(event_views(r@) =~= event_views(before).push(event_view(e)));
        }
        i += 1;
    }
    assert(events@.take(i as int) =~= events@);
    r
}

/// The text sent when the agent failed.
pub open spec fn line_error_text() -> Seq<char> {
    "Sorry, an error occurred."@
}

/// How to deliver a reply: its text, whether to use the reply token first, whether
/// to push to the user when the reply call fails, and whether to push directly.
#[derive(Debug, Clone, PartialEq, Eq)]
pub struct LineDelivery {
    pub text: String,
    pub reply: bool,
    pub push_on_reply_failure: bool,
    pub push: bool,
}

/// The delivery of the agent's answer (`Err("__blocked__")` sends nothing): an answer
/// goes by the reply token when there is one, falling back to a push to the user;
/// an error message goes by the reply token, else by a push, without fallback.
pub fn line_delivery(result: Result<String, String>, reply_token: &str, user_id: &str) -> (r: Option<LineDelivery>)
    ensures
        match result {
            Ok(resp) => r matches Some(d) && d.text@ == truncate_chars(resp@, LINE_TEXT_MAX as nat) && d.reply
                == (reply_token@.len() > 0) && d.push_on_reply_failure == (user_id@.len() > 0) && d.push == (
            reply_token@.len() == 0 && user_id@.len() > 0),
            Err(e) => if e@ == "__blocked__"@ {
                r is None
            } else {
                r matches Some(d) && d.text@ == line_error_text() && d.reply == (reply_token@.len() > 0)
                    && !d.push_on_reply_failure && d.push == (reply_token@.len() == 0 && user_id@.len() > 0)
            },
        },
{
    let has_token = !reply_token.is_empty();
    let has_user = !user_id.is_empty();
    match result {
        Ok(resp) => Some(LineDelivery {
            text: crate::line_fmt::to_line_text(resp.as_str()),
            reply: has_token,
            push_on_reply_failure: has_user,
            push: !has_token && has_user,
        }),
        Err(e) => {
            if str_eq(e.as_str(), "__blocked__") {
                None
            } else {
                Some(LineDelivery {
                    text: owned("Sorry, an error occurred."),
                    reply: has_token,
                    push_on_reply_failure: false,
                    push: !has_token && has_user,
                })
            }
        },
    }
}

/// The text of a text-message event, read from the event's JSON text: when it is a
/// text message and its text is not blank.
pub open spec fn message_text_of(ev: Seq<char>) -> Option<Seq<char>> {
    if field_str(ev, "type"@) != Some("message"@) {
        None
    } else {
        match field_text(ev, "message"@) {
            None => None,
            Some(msg) => if field_str(msg, "type"@) != Some("text"@) {
                None
            } else {
                match field_str(msg, "text"@) {
                    Some(t) => if is_blank(t) {
                        None
                    } else {
                        Some(t)
                    },
                    None => None,
                }
            },
        }
    }
}

/// The kind of an event's source, from the event's JSON text (`user` when unknown).
pub open spec fn source_type_of(ev: Seq<char>) -> Seq<char> {
    match field_text(ev, "source"@) {
        Some(src) => match field_str(src, "type"@) {
            Some(t) => t,
            None => "user"@,
        },
        None => "user"@,
    }
}

/// The sending user of an event, from the event's JSON text (empty when unknown).
pub open spec fn source_user_of(ev: Seq<char>) -> Seq<char> {
    match field_text(ev, "source"@) {
        Some(src) => str_or_empty(src, "userId"@),
        None => Seq::empty(),
    }
}

/// The conversation of a group event, from the event's JSON text: its group id
/// (when it has a `groupId` member), else its room id, else the user.
pub open spec fn group_context_of(ev: Seq<char>) -> Seq<char> {
    let id = match field_text(ev, "source"@) {
        Some(src) => match field_text(src, "groupId"@) {
            Some(_) => field_str(src, "groupId"@),
            None => field_str(src, "roomId"@),
        },
        None => None,
    };
    match id {
        Some(c) => c,
        None => source_user_of(ev),
    }
}

/// What an event, given as JSON text, hands the agent, if anything.
pub open spec fn dispatched_text(ev: Seq<char>, group_ok: bool) -> Option<LineEventView> {
    match message_text_of(ev) {
        None => None,
        Some(t) => {
            let st = source_type_of(ev);
            let is_group = st == "group"@ || st == "room"@;
            if is_group && !group_ok {
                None
            } else {
                Some(
                    (
                        source_user_of(ev),
                        if is_group {
                            group_context_of(ev)
                        } else {
                            source_user_of(ev)
                        },
                        t,
                        str_or_empty(ev, "replyToken"@),
                        is_group,
                    ),
                )
            }
        },
    }
}

/// The events, given as JSON texts, handed to the agent, in order.
pub open spec fn dispatched_texts(evs: Seq<Seq<char>>, group_ok: bool) -> Seq<LineEventView>
    decreases evs.len(),
{
    if evs.len() == 0 {
        Seq::empty()
    } else {
        let rest = dispatched_texts(evs.drop_last(), group_ok);
        match dispatched_text(evs.last(), group_ok) {
            Some(v) => rest.push(v),
            None => rest,
        }
    }
}

/// The event texts of a webhook body's JSON text: the elements of its `events`
/// array, none when it has none.
pub open spec fn body_event_texts(t: Seq<char>) -> Seq<Seq<char>> {
    match field_text(t, "events"@) {
        Some(et) => match json_items(et) {
            Some(items) => items,
            None => Seq::empty(),
        },
        None => Seq::empty(),
    }
}

fn event_of_text(ev: &str, group_ok: bool) -> (r: Option<LineEvent>)
    ensures
        match r {
            Some(e) => dispatched_text(ev@, group_ok) == Some(event_view(e)),
            None => dispatched_text(ev@, group_ok) is None,
        },
{
    match str_param(ev, "type") {
        Some(t) => if !str_eq(t.as_str(), "message") {
            return None;
        },
        None => return None,
    }
    let msg = match member_text(ev, "message") {
        Some(m) => m,
        None => return None,
    };
    match str_param(msg.as_str(), "type") {
        Some(t) => if !str_eq(t.as_str(), "text") {
            return None;
        },
        None => return None,
    }
    let text = match str_param(msg.as_str(), "text") {
        Some(t) => if is_blank_str(t.as_str()) {
            return None;
        } else {
            t
        },
        None => return None,
    };
    let reply_token = str_member_or_empty(ev, "replyToken");
    let source = member_text(ev, "source");
    let st: String = match &source {
        Some(src) => match str_param(src.as_str(), "type") {
            Some(t) => t,
            None => owned("user"),
        },
        None => owned("user"),
    };
    let is_group = str_eq(st.as_str(), "group") || str_eq(st.as_str(), "room");
    if is_group && !group_ok {
        return None;
    }
    let user_id = match &source {
        Some(src) => str_member_or_empty(src.as_str(), "userId"),
        None => String::new(),
    };
    let context_id = if is_group {
        let id: Option<String> = match &source {
            Some(src) => match member_text(src.as_str(), "groupId") {
                Some(_) => str_param(src.as_str(), "groupId"),
                None => str_param(src.as_str(), "roomId"),
            },
            None => None,
        };
        match id {
            Some(c) => c,
            None => user_id.clone(),
        }
    } else {
        user_id.clone()
    };
    proof {
        reveal_strlit("user");
        reveal_strlit("group");
        reveal_strlit("room");
    }
    Some(LineEvent { user_id, context_id, text, reply_token, is_group })
}

/// The text-message events of a raw webhook body handed to the agent, in order,
/// reading the body with serde_json: none when the body is not JSON or has no
/// `events` array. `group_ok` is what the channel's group filter answers.
pub fn body_events(body: &[u8], group_ok: bool) -> (r: Vec<LineEvent>)
    ensures
        match json_slice(body@) {
            Ok(t) => event_views(r@) == dispatched_texts(body_event_texts(t), group_ok),
            Err(_) => r@.len() == 0,
        },
{
    let mut r: Vec<LineEvent> = Vec::new();
    let t = match json_text_from_slice(body) {
        Ok(t) => t,
        Err(_) => return r,
    };
    let items: Vec<String> = match member_text(t.as_str(), "events") {
        Some(et) => match json_array_items(et.as_str()) {
            Some(items) => items,
            None => Vec::new(),
        },
        None => Vec::new(),
    };
    let ghost evs = views(items@);
    assert(evs =~= body_event_texts(t@));
    let mut i: usize = 0;
    assert(event_views(r@) =~= dispatched_texts(evs.take(0), group_ok));
    while i < items.len()
        invariant
            i <= items@.len(),
            evs == views(items@),
            event_views(r@) == dispatched_texts(evs.take(i as int), group_ok),
        decreases items@.len() - i,
    {
        proof {
            assert(evs.take(i + 1).drop_last() =~= evs.take(i as int));
            assert(evs.take(i + 1).last() == items@[i as int]@);
        }
        let ghost before = r@;
        if let Some(e) = event_of_text(items[i].as_str(), group_ok) {
            r.push(e);
            assert(event_views(r@) =~= event_views(before).push(event_view(e)));
        }
        i += 1;
    }
    assert(evs.take(items@.len() as int) =~= evs);
    r
}

} // verus!
