//! WeChat webhook decisions: the SHA-1 signature over the sorted token, timestamp
//! and nonce, the ownership check, what an incoming message hands the agent, and
//! what is answered.
use vstd::prelude::*;
use crate::crypto::{sha1, sha1_digest, hex, to_hex, constant_time_eq};
use crate::text::{is_blank, is_blank_str, owned, push_str, str_eq, views};
use crate::wechat_fmt::{xml_field, extract_xml_field, reply_xml, to_wechat_text, build_reply_xml, WECHAT_TEXT_MAX};
use crate::whatsapp_hook::or_empty;
use crate::line_fmt::truncate_chars;

verus! {

broadcast use vstd::string::group_string_axioms;

/// Whether `a` sorts before or equal to `b` (byte order of UTF-8, which is the
/// order of code points).
pub open spec fn text_le(a: Seq<char>, b: Seq<char>) -> bool
    decreases a.len(),
{
    if a.len() == 0 {
        true
    } else if b.len() == 0 {
        false
    } else if a[0] < b[0] {
        true
    } else if a[0] > b[0] {
        false
    } else {
        text_le(a.drop_first(), b.drop_first())
    }
}

/// The three texts in ascending order.
pub open spec fn sorted3(a: Seq<char>, b: Seq<char>, c: Seq<char>) -> Seq<Seq<char>> {
    if text_le(a, b) {
        if text_le(b, c) {
            seq![a, b, c]
        } else if text_le(a, c) {
            seq![a, c, b]
        } else {
            seq![c, a, b]
        }
    } else {
        if text_le(a, c) {
            seq![b, a, c]
        } else if text_le(b, c) {
            seq![b, c, a]
        } else {
            seq![c, b, a]
        }
    }
}

/// The order of texts is total.
pub proof fn lemma_text_le_total(a: Seq<char>, b: Seq<char>)
    ensures
        text_le(a, b) || text_le(b, a),
    decreases a.len(),
{
    if a.len() > 0 && b.len() > 0 && a[0] == b[0] {
        lemma_text_le_total(a.drop_first(), b.drop_first());
    }
}

/// Texts ordered both ways are equal.
pub proof fn lemma_text_le_antisymmetric(a: Seq<char>, b: Seq<char>)
    requires
        text_le(a, b),
        text_le(b, a),
    ensures
        a == b,
    decreases a.len(),
{
    if a.len() == 0 {
        assert(b.len() == 0);
        assert(a =~= b);
    } else {
        assert(b.len() > 0);
        assert(a[0] == b[0]);
        lemma_text_le_antisymmetric(a.drop_first(), b.drop_first());
        assert(a =~= seq![a[0]] + a.drop_first());
        assert(b =~= seq![b[0]] + b.drop_first());
    }
}

/// The order of texts is transitive.
pub proof fn lemma_text_le_transitive(a: Seq<char>, b: Seq<char>, c: Seq<char>)
    requires
        text_le(a, b),
        text_le(b, c),
    ensures
        text_le(a, c),
    decreases a.len(),
{
    if a.len() > 0 && b.len() > 0 && c.len() > 0 && a[0] == b[0] && b[0] == c[0] {
        lemma_text_le_transitive(a.drop_first(), b.drop_first(), c.drop_first());
    }
}

proof fn lemma_order_facts(a: Seq<char>, b: Seq<char>, c: Seq<char>)
    ensures
        text_le(a, b) || text_le(b, a),
        text_le(a, c) || text_le(c, a),
        text_le(b, c) || text_le(c, b),
        text_le(a, b) && text_le(b, a) ==> a == b,
        text_le(a, c) && text_le(c, a) ==> a == c,
        text_le(b, c) && text_le(c, b) ==> b == c,
        text_le(a, b) && text_le(b, c) ==> text_le(a, c),
        text_le(a, c) && text_le(c, b) ==> text_le(a, b),
        text_le(b, a) && text_le(a, c) ==> text_le(b, c),
        text_le(b, c) && text_le(c, a) ==> text_le(b, a),
        text_le(c, a) && text_le(a, b) ==> text_le(c, b),
        text_le(c, b) && text_le(b, a) ==> text_le(c, a),
{
    lemma_text_le_total(a, b);
    lemma_text_le_total(a, c);
    lemma_text_le_total(b, c);
    if text_le(a, b) && text_le(b, a) {
        lemma_text_le_antisymmetric(a, b);
    }
    if text_le(a, c) && text_le(c, a) {
        lemma_text_le_antisymmetric(a, c);
    }
    if text_le(b, c) && text_le(c, b) {
        lemma_text_le_antisymmetric(b, c);
    }
    if text_le(a, b) && text_le(b, c) {
        lemma_text_le_transitive(a, b, c);
    }
    if text_le(a, c) && text_le(c, b) {
        lemma_text_le_transitive(a, c, b);
    }
    if text_le(b, a) && text_le(a, c) {
        lemma_text_le_transitive(b, a, c);
    }
    if text_le(b, c) && text_le(c, a) {
        lemma_text_le_transitive(b, c, a);
    }
    if text_le(c, a) && text_le(a, b) {
        lemma_text_le_transitive(c, a, b);
    }
    if text_le(c, b) && text_le(b, a) {
        lemma_text_le_transitive(c, b, a);
    }
}

/// Sorting three texts does not depend on the order they are given in.
pub proof fn lemma_sorted3_order_free(a: Seq<char>, b: Seq<char>, c: Seq<char>)
    ensures
        sorted3(a, b, c) == sorted3(b, a, c),
        sorted3(a, b, c) == sorted3(a, c, b),
{
    lemma_order_facts(a, b, c);
}

/// WeChat's signature does not depend on the order in which the token, timestamp
/// and nonce are given: they are sorted before hashing.
pub proof fn lemma_wechat_signature_order_free(x: Seq<char>, y: Seq<char>, z: Seq<char>)
    ensures
        wechat_signature(x, y, z) == wechat_signature(y, x, z),
        wechat_signature(x, y, z) == wechat_signature(x, z, y),
        wechat_signature(x, y, z) == wechat_signature(z, y, x),
{
    lemma_sorted3_order_free(x, y, z);
    lemma_sorted3_order_free(z, y, x);
    lemma_sorted3_order_free(y, z, x);
    lemma_sorted3_order_free(y, x, z);
}

/// The signature WeChat sends: lower-case hex SHA-1 of token, timestamp and nonce,
/// sorted and concatenated.
pub open spec fn wechat_signature(token: Seq<char>, timestamp: Seq<char>, nonce: Seq<char>) -> Seq<char> {
    let p = sorted3(token, timestamp, nonce);
    hex(sha1(vstd::utf8::encode_utf8(p[0] + p[1] + p[2])))
}

/// Whether `a` sorts before or equal to `b`.
pub fn str_le(a: &str, b: &str) -> (r: bool)
    ensures
        r == text_le(a@, b@),
{
    let va = crate::text::chars_of(a);
    let vb = crate::text::chars_of(b);
    let mut i: usize = 0;
    assert(va@.skip(0) =~= va@);
    assert(vb@.skip(0) =~= vb@);
    while i < va.len() && i < vb.len()
        invariant
            va@ == a@,
            vb@ == b@,
            i <= va@.len(),
            i <= vb@.len(),
            text_le(a@, b@) == text_le(va@.skip(i as int), vb@.skip(i as int)),
        decreases va@.len() - i,
    {
        assert(va@.skip(i as int)[0] == va@[i as int]);
        assert(vb@.skip(i as int)[0] == vb@[i as int]);
        if va[i] < vb[i] {
            return true;
        }
        if va[i] > vb[i] {
            return false;
        }
        assert(va@.skip(i as int).drop_first() =~= va@.skip(i + 1));
        assert(vb@.skip(i as int).drop_first() =~= vb@.skip(i + 1));
        i += 1;
    }
    i == va.len()
}

/// Whether `signature` is WeChat's signature for the token, timestamp and nonce;
/// the comparison takes constant time.
pub fn verify_signature(token: &str, timestamp: &str, nonce: &str, signature: &str) -> (r: bool)
    ensures
        r == (wechat_signature(token@, timestamp@, nonce@) == signature@),
{
    let (x, y, z): (&str, &str, &str) = if str_le(token, timestamp) {
        if str_le(timestamp, nonce) {
            (token, timestamp, nonce)
        } else if str_le(token, nonce) {
            (token, nonce, timestamp)
        } else {
            (nonce, token, timestamp)
        }
    } else {
        if str_le(token, nonce) {
            (timestamp, token, nonce)
        } else if str_le(timestamp, nonce) {
            (timestamp, nonce, token)
        } else {
            (nonce, timestamp, token)
        }
    };
    let mut joined = owned(x);
    push_str(&mut joined, y);
    push_str(&mut joined, z);
    let digest = sha1_digest(joined.as_str().as_bytes());
    let computed = to_hex(&digest);
    let r = constant_time_eq(computed.as_str().as_bytes(), signature.as_bytes());
    proof {
        vstd::utf8::encode_utf8_decode_utf8(computed@);
        vstd::utf8::encode_utf8_decode_utf8(signature@);
        assert(sorted3(token@, timestamp@, nonce@) == seq![x@, y@, z@]);
    }
    r
}

/// The query of a WeChat webhook request.
#[derive(Debug, Clone, PartialEq, Eq)]
pub struct WeChatWebhookParams {
    pub signature: Option<String>,
    pub timestamp: Option<String>,
    pub nonce: Option<String>,
    pub echostr: Option<String>,
}

/// Whether some channel token signs the request, and the first that does.
pub open spec fn signing_token(tokens: Seq<Seq<char>>, p: WeChatWebhookParams) -> Option<int> {
    let ok = |t: Seq<char>| wechat_signature(t, or_empty(p.timestamp), or_empty(p.nonce)) == or_empty(p.signature);
    if exists|i: int| 0 <= i < tokens.len() && ok(#[trigger] tokens[i]) {
        Some(choose|i: int| 0 <= i < tokens.len() && ok(tokens[i]) && forall|j: int| 0 <= j < i ==> !ok(#[trigger] tokens[j]))
    } else {
        None
    }
}

fn opt_text(o: &Option<String>) -> (r: &str)
    ensures
        r@ == or_empty(*o),
{
    match o {
        Some(s) => s.as_str(),
        None => {
            proof {
                reveal_strlit("");
            }
            assert(""@ =~= Seq::<char>::empty());
            ""
        },
    }
}

/// The position of the first channel whose token signs the request.
pub fn matching_channel(tokens: &Vec<String>, params: &WeChatWebhookParams) -> (r: Option<usize>)
    ensures
        match r {
            Some(i) => signing_token(views(tokens@), *params) == Some(i as int),
            None => signing_token(views(tokens@), *params) is None,
        },
{
    let signature = opt_text(&params.signature);
    let timestamp = opt_text(&params.timestamp);
    let nonce = opt_text(&params.nonce);
    let ghost ts = views(tokens@);
    let ghost ok = |t: Seq<char>| wechat_signature(t, or_empty(params.timestamp), or_empty(params.nonce)) == or_empty(
        params.signature,
    );
    let mut i: usize = 0;
    while i < tokens.len()
        invariant
            i <= tokens@.len(),
            ts == views(tokens@),
            ok == (|t: Seq<char>| wechat_signature(t, or_empty(params.timestamp), or_empty(params.nonce)) == or_empty(
                params.signature,
            )),
            signature@ == or_empty(params.signature),
            timestamp@ == or_empty(params.timestamp),
            nonce@ == or_empty(params.nonce),
            forall|j: int| 0 <= j < i ==> !ok(#[trigger] ts[j]),
        decreases tokens@.len() - i,
    {
        if verify_signature(tokens[i].as_str(), timestamp, nonce, signature) {
            assert(ok(ts[i as int]));
            let ghost c = choose|c: int| 0 <= c < ts.len() && ok(ts[c]) && forall|j: int| 0 <= j < c ==> !ok(#[trigger] ts[j]);
            assert(c == i as int) by {
                if c < i {
                } else if c > i {
                    assert(ok(ts[i as int]));
                }
            }
            return Some(i);
        }
        i += 1;
    }
    None
}

/// The first check of a message POST: 401 when no channel's token signs it, 400
/// when its body is not UTF-8; otherwise the signing channel and the body's text.
pub fn post_check(tokens: &Vec<String>, params: &WeChatWebhookParams, body: &[u8]) -> (r: Result<(usize, String), u16>)
    ensures
        match signing_token(views(tokens@), *params) {
            None => r == Err::<(usize, String), u16>(401),
            Some(i) => if vstd::utf8::valid_utf8(body@) {
                r matches Ok((c, xml)) && c == i && xml@ == vstd::utf8::decode_utf8(body@)
            } else {
                r == Err::<(usize, String), u16>(400)
            },
        },
{
    let c = match matching_channel(tokens, params) {
        Some(c) => c,
        None => return Err(401),
    };
    match crate::json::utf8_decode(body) {
        Ok(xml) => Ok((c, xml)),
        Err(_) => Err(400),
    }
}

/// The answer to WeChat's ownership check: the echo string when some channel's
/// token signs the request, else 401 with an empty body.
pub fn verify_response(tokens: &Vec<String>, params: &WeChatWebhookParams) -> (r: (u16, String))
    ensures
        signing_token(views(tokens@), *params) is Some ==> r.0 == 200 && r.1@ == or_empty(params.echostr),
        signing_token(views(tokens@), *params) is None ==> r.0 == 401 && r.1@.len() == 0,
{
    match matching_channel(tokens, params) {
        Some(_) => (200, owned(opt_text(&params.echostr))),
        None => (401, String::new()),
    }
}

/// A field of the message, empty when missing.
pub open spec fn field_or_empty(xml: Seq<char>, tag: Seq<char>) -> Seq<char> {
    match xml_field(xml, tag) {
        Some(v) => v,
        None => Seq::empty(),
    }
}

/// What a message of type `msg_type` hands the agent: the text of a text message
/// (nothing when blank), a bracketed summary of media and locations, nothing for
/// other types.
pub open spec fn content_of(xml: Seq<char>) -> Option<Seq<char>> {
    let t = field_or_empty(xml, "MsgType"@);
    let f = |tag: Seq<char>| field_or_empty(xml, tag);
    if t == "text"@ {
        match xml_field(xml, "Content"@) {
            Some(c) => if is_blank(c) {
                None
            } else {
                Some(c)
            },
            None => None,
        }
    } else if t == "image"@ {
        Some("[image: url="@ + f("PicUrl"@) + " media_id="@ + f("MediaId"@) + "]"@)
    } else if t == "voice"@ {
        Some("[voice: media_id="@ + f("MediaId"@) + " format="@ + f("Format"@) + "]"@)
    } else if t == "video"@ || t == "shortvideo"@ {
        Some("[video: media_id="@ + f("MediaId"@) + " thumb_media_id="@ + f("ThumbMediaId"@) + "]"@)
    } else if t == "location"@ {
        Some("[location: lat="@ + f("Location_X"@) + " lon="@ + f("Location_Y"@) + " label="@ + f("Label"@) + "]"@)
    } else {
        None
    }
}

fn field(xml: &str, tag: &str) -> (r: String)
    ensures
        r@ == field_or_empty(xml@, tag@),
{
    match extract_xml_field(xml, tag) {
        Some(v) => v,
        None => String::new(),
    }
}

/// A message that reaches the agent: its sender, the account it was sent to, its
/// id and the content handed to the agent.
#[derive(Debug, Clone, PartialEq, Eq)]
pub struct WeChatInbound {
    pub from_user: String,
    pub to_user: String,
    pub msg_id: String,
    pub content: String,
}

/// The message in a request body, when it hands the agent anything.
pub fn inbound(xml: &str) -> (r: Option<WeChatInbound>)
    ensures
        match content_of(xml@) {
            Some(c) => r matches Some(m) && m.content@ == c && m.from_user@ == field_or_empty(xml@, "FromUserName"@)
                && m.to_user@ == field_or_empty(xml@, "ToUserName"@) && m.msg_id@ == field_or_empty(xml@, "MsgId"@),
            None => r is None,
        },
{
    let t = field(xml, "MsgType");
    let content = if str_eq(t.as_str(), "text") {
        match extract_xml_field(xml, "Content") {
            Some(c) => if is_blank_str(c.as_str()) {
                return None;
            } else {
                c
            },
            None => return None,
        }
    } else if str_eq(t.as_str(), "image") {
        let mut s = owned("[image: url=");
        push_str(&mut s, field(xml, "PicUrl").as_str());
        push_str(&mut s, " media_id=");
        push_str(&mut s, field(xml, "MediaId").as_str());
        push_str(&mut s, "]");
        s
    } else if str_eq(t.as_str(), "voice") {
        let mut s = owned("[voice: media_id=");
        push_str(&mut s, field(xml, "MediaId").as_str());
        push_str(&mut s, " format=");
        push_str(&mut s, field(xml, "Format").as_str());
        push_str(&mut s, "]");
        s
    } else if str_eq(t.as_str(), "video") || str_eq(t.as_str(), "shortvideo") {
        let mut s = owned("[video: media_id=");
        push_str(&mut s, field(xml, "MediaId").as_str());
        push_str(&mut s, " thumb_media_id=");
        push_str(&mut s, field(xml, "ThumbMediaId").as_str());
        push_str(&mut s, "]");
        s
    } else if str_eq(t.as_str(), "location") {
        let mut s = owned("[location: lat=");
        push_str(&mut s, field(xml, "Location_X").as_str());
        push_str(&mut s, " lon=");
        push_str(&mut s, field(xml, "Location_Y").as_str());
        push_str(&mut s, " label=");
        push_str(&mut s, field(xml, "Label").as_str());
        push_str(&mut s, "]");
        s
    } else {
        return None;
    };
    Some(WeChatInbound {
        from_user: field(xml, "FromUserName"),
        to_user: field(xml, "ToUserName"),
        msg_id: field(xml, "MsgId"),
        content,
    })
}

/// The apology pushed when the agent failed.
pub open spec fn wechat_error_text() -> Seq<char> {
    "Sorry, an error occurred."@
}

/// The answer within the passive-reply window: the reply XML for an answer (sent to
/// the sender, from the account), an empty body for a blocked sender, and for a
/// failure an empty body with an apology to push.
pub fn sync_reply(from_user: &str, to_user: &str, result: Result<String, String>) -> (r: (String, Option<String>))
    ensures
        match result {
            Ok(resp) => r.1 is None && exists|t: u64| r.0@ == reply_xml(from_user@, to_user@, truncate_chars(resp@, WECHAT_TEXT_MAX as nat), t as nat),
            Err(e) => r.0@.len() == 0 && if e@ == "__blocked__"@ {
                r.1 is None
            } else {
                r.1 matches Some(p) && p@ == wechat_error_text()
            },
        },
{
    match result {
        Ok(resp) => {
            let text = to_wechat_text(resp.as_str());
            (build_reply_xml(from_user, to_user, text.as_str()), None)
        },
        Err(e) => if str_eq(e.as_str(), "__blocked__") {
            (String::new(), None)
        } else {
            (String::new(), Some(owned("Sorry, an error occurred.")))
        },
    }
}

/// The text pushed after the reply window closed: the answer, or an apology for any
/// failure.
pub fn async_reply(result: Result<String, String>) -> (r: String)
    ensures
        match result {
            Ok(resp) => r@ == truncate_chars(resp@, WECHAT_TEXT_MAX as nat),
            Err(_) => r@ == wechat_error_text(),
        },
{
    match result {
        Ok(resp) => to_wechat_text(resp.as_str()),
        Err(_) => owned("Sorry, an error occurred."),
    }
}

} // verus!
