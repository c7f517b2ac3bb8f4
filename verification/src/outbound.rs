//! What a channel sends for an outgoing message: the recipient taken from the
//! message metadata, the text prepared for the platform, and the refusals.
use vstd::prelude::*;
use crate::json::{JsonValue, member, as_text};
use crate::message::MessageContent;
use crate::line_fmt::{truncate_chars, to_line_text, LINE_TEXT_MAX};
use crate::wechat_fmt::{to_wechat_text, WECHAT_TEXT_MAX};
use crate::hints::{split_hints, spec_hints, spec_body};
use crate::slack_fmt::{mrkdwn, to_slack_mrkdwn};
use crate::text::{owned, is_blank_str, is_blank, views};

verus! {

/// The text of metadata entry `key`, when it is a string.
pub open spec fn meta_text(metadata: JsonValue, key: Seq<char>) -> Option<Seq<char>> {
    as_text(member(metadata, key))
}

fn meta_string(metadata: &JsonValue, key: &str) -> (r: Option<String>)
    ensures
        match r {
            Some(s) => meta_text(*metadata, key@) == Some(s@),
            None => meta_text(*metadata, key@) is None,
        },
{
    match metadata.str_member(key) {
        Some(s) => Some(owned(s)),
        None => None,
    }
}

/// A LINE push: the user and the prepared text.
#[derive(Debug, Clone, PartialEq, Eq)]
pub struct LinePush {
    pub user_id: String,
    pub text: String,
}

/// The LINE push for a message: the user comes from `line_user_id`, and only
/// text is sent, cut to the LINE limit.
pub fn line_push_plan(metadata: &JsonValue, content: &MessageContent) -> (r: Result<LinePush, String>)
    ensures
        match (meta_text(*metadata, "line_user_id"@), *content) {
            (None, _) => r is Err && r->Err_0@ == "missing line_user_id in metadata"@,
            (Some(u), MessageContent::Text(t)) => r is Ok && r->Ok_0.user_id@ == u && r->Ok_0.text@
                == truncate_chars(t@, LINE_TEXT_MAX as nat),
            (Some(_), _) => r is Err && r->Err_0@ == "only text messages are supported for line send"@,
        },
{
    let user_id = match meta_string(metadata, "line_user_id") {
        Some(u) => u,
        None => return Err(owned("missing line_user_id in metadata")),
    };
    match content {
        MessageContent::Text(t) => Ok(LinePush { user_id, text: to_line_text(t.as_str()) }),
        _ => Err(owned("only text messages are supported for line send")),
    }
}

/// The texts a WhatsApp send posts for message text `t`, in order: the hint
/// lines first (when there are any), then the body unless it is blank.
pub open spec fn whatsapp_texts(t: Seq<char>) -> Seq<Seq<char>> {
    let hs: Seq<Seq<char>> = match spec_hints(t) {
        Some(h) => seq![h],
        None => Seq::empty(),
    };
    if is_blank(spec_body(t)) {
        hs
    } else {
        hs.push(spec_body(t))
    }
}

/// A WhatsApp send: the recipient and the texts, posted in order.
#[derive(Debug, Clone, PartialEq, Eq)]
pub struct WhatsAppSend {
    pub to: String,
    pub texts: Vec<String>,
}

/// The WhatsApp send for a message: the recipient comes from `whatsapp_from`,
/// only text is sent, its hint lines in a message of their own before the body,
/// and a blank body is not sent.
pub fn whatsapp_send_plan(metadata: &JsonValue, content: &MessageContent) -> (r: Result<WhatsAppSend, String>)
    ensures
        match (meta_text(*metadata, "whatsapp_from"@), *content) {
            (None, _) => r is Err && r->Err_0@ == "missing whatsapp_from in metadata"@,
            (Some(to), MessageContent::Text(t)) => r is Ok && r->Ok_0.to@ == to && views(r->Ok_0.texts@)
                == whatsapp_texts(t@),
            (Some(_), _) => r is Err && r->Err_0@ == "only text messages are supported for whatsapp send"@,
        },
{
    let to = match meta_string(metadata, "whatsapp_from") {
        Some(u) => u,
        None => return Err(owned("missing whatsapp_from in metadata")),
    };
    match content {
        MessageContent::Text(t) => {
            let (hints, body) = split_hints(t.as_str());
            let mut texts: Vec<String> = Vec::new();
            match hints {
                Some(h) => texts.push(h),
                None => {},
            }
            let ghost hs = views(texts@);
            if !is_blank_str(body.as_str()) {
                texts.push(body);
            }
            assert(views(texts@) =~= whatsapp_texts(t@));
            Ok(WhatsAppSend { to, texts })
        },
        _ => Err(owned("only text messages are supported for whatsapp send")),
    }
}

/// A WeChat customer-service push to one follower.
#[derive(Debug, Clone, PartialEq, Eq)]
pub enum WeChatPush {
    Text { openid: String, text: String },
    Image { openid: String, media_id: String },
    Voice { openid: String, media_id: String },
    Video { openid: String, media_id: String, thumb_media_id: String, caption: Option<String> },
}

/// The follower a WeChat push goes to, from `wechat_openid`; it is looked up
/// before the access token is fetched.
pub fn wechat_recipient(metadata: &JsonValue) -> (r: Result<String, String>)
    ensures
        match meta_text(*metadata, "wechat_openid"@) {
            Some(o) => r is Ok && r->Ok_0@ == o,
            None => r is Err && r->Err_0@ == "missing wechat_openid in metadata"@,
        },
{
    match meta_string(metadata, "wechat_openid") {
        Some(o) => Ok(o),
        None => Err(owned("missing wechat_openid in metadata")),
    }
}

/// The WeChat push for a message to `openid`: text is cut to the WeChat
/// limit; image, voice and video name their uploaded media in the metadata.
pub fn wechat_push_plan(openid: String, metadata: &JsonValue, content: &MessageContent) -> (r: Result<
    WeChatPush,
    String,
>)
    ensures
        *content matches MessageContent::Text(t) ==> r matches Ok(WeChatPush::Text { openid: o, text: x })
            && o == openid && x@ == truncate_chars(t@, WECHAT_TEXT_MAX as nat),
        *content is Image ==> match meta_text(*metadata, "wechat_media_id"@) {
            Some(m) => r matches Ok(WeChatPush::Image { openid: o, media_id }) && o == openid && media_id@ == m,
            None => r is Err && r->Err_0@ == "missing wechat_media_id in metadata for image send"@,
        },
        *content is Audio ==> match meta_text(*metadata, "wechat_media_id"@) {
            Some(m) => r matches Ok(WeChatPush::Voice { openid: o, media_id }) && o == openid && media_id@ == m,
            None => r is Err && r->Err_0@ == "missing wechat_media_id in metadata for voice send"@,
        },
        *content matches MessageContent::Video { caption, .. } ==> match (
            meta_text(*metadata, "wechat_media_id"@),
            meta_text(*metadata, "wechat_thumb_media_id"@),
        ) {
            (None, _) => r is Err && r->Err_0@ == "missing wechat_media_id in metadata for video send"@,
            (Some(_), None) => r is Err && r->Err_0@ == "missing wechat_thumb_media_id in metadata for video send"@,
            (Some(m), Some(th)) => r matches Ok(WeChatPush::Video { openid: o, media_id, thumb_media_id, caption: c })
                && o == openid && media_id@ == m && thumb_media_id@ == th && c == caption,
        },
        (*content is File || *content is Location || *content is Reaction || *content is System) ==> r is Err
            && r->Err_0@ == "unsupported message content type for wechat send"@,
{
    match content {
        MessageContent::Text(t) => {
            let text = to_wechat_text(t.as_str());
            Ok(WeChatPush::Text { openid, text })
        },
        MessageContent::Image { .. } => match meta_string(metadata, "wechat_media_id") {
            Some(media_id) => Ok(WeChatPush::Image { openid, media_id }),
            None => Err(owned("missing wechat_media_id in metadata for image send")),
        },
        MessageContent::Audio { .. } => match meta_string(metadata, "wechat_media_id") {
            Some(media_id) => Ok(WeChatPush::Voice { openid, media_id }),
            None => Err(owned("missing wechat_media_id in metadata for voice send")),
        },
        MessageContent::Video { caption, .. } => {
            let media_id = match meta_string(metadata, "wechat_media_id") {
                Some(m) => m,
                None => return Err(owned("missing wechat_media_id in metadata for video send")),
            };
            let thumb_media_id = match meta_string(metadata, "wechat_thumb_media_id") {
                Some(m) => m,
                None => return Err(owned("missing wechat_thumb_media_id in metadata for video send")),
            };
            let caption = caption.clone();
            Ok(WeChatPush::Video { openid, media_id, thumb_media_id, caption })
        },
        _ => Err(owned("unsupported message content type for wechat send")),
    }
}

/// A Slack post: the channel and the text converted to mrkdwn.
#[derive(Debug, Clone, PartialEq, Eq)]
pub struct SlackPost {
    pub channel_id: String,
    pub text: String,
}

/// The Slack post for a message: the channel comes from `slack_channel_id`,
/// and only text is sent, converted to Slack mrkdwn.
pub fn slack_post_plan(metadata: &JsonValue, content: &MessageContent) -> (r: Result<SlackPost, String>)
    ensures
        match (meta_text(*metadata, "slack_channel_id"@), *content) {
            (None, _) => r is Err && r->Err_0@ == "missing slack_channel_id in metadata"@,
            (Some(c), MessageContent::Text(t)) => r is Ok && r->Ok_0.channel_id@ == c && r->Ok_0.text@ == mrkdwn(
                t@,
            ),
            (Some(_), _) => r is Err && r->Err_0@ == "only text messages are supported for slack send"@,
        },
{
    let channel_id = match meta_string(metadata, "slack_channel_id") {
        Some(c) => c,
        None => return Err(owned("missing slack_channel_id in metadata")),
    };
    match content {
        MessageContent::Text(t) => Ok(SlackPost { channel_id, text: to_slack_mrkdwn(t.as_str()) }),
        _ => Err(owned("only text messages are supported for slack send")),
    }
}

} // verus!
