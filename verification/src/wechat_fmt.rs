//! Formatting and parsing for the WeChat Official Account passive-reply interface.
use vstd::prelude::*;
use crate::text::{chars_of, string_of, push_str, push_decimal, decimal, find_seq, find_chars, find_after, occurs_at, contains_seq};
use crate::line_fmt::{truncate_chars, truncated_to};

verus! {

broadcast use vstd::string::group_string_axioms;

/// Maximum characters allowed in a single WeChat text message reply.
pub const WECHAT_TEXT_MAX: usize = 2048;

/// Prepare text for a WeChat text message. Truncates at the 2048-char limit.
pub fn to_wechat_text(text: &str) -> (r: String)
    ensures
        r@ == truncate_chars(text@, WECHAT_TEXT_MAX as nat),
{
    truncated_to(text, WECHAT_TEXT_MAX)
}

/// `<Tag><![CDATA[value]]></Tag>`.
pub open spec fn cdata_element(tag: Seq<char>, value: Seq<char>) -> Seq<char> {
    seq!['<'] + tag + seq!['>'] + cdata_open_tail() + value + cdata_close_head() + seq!['<', '/'] + tag + seq!['>']
}

/// `<![CDATA[`
pub open spec fn cdata_open_tail() -> Seq<char> {
    seq!['<', '!', '[', 'C', 'D', 'A', 'T', 'A', '[']
}

/// `]]>`
pub open spec fn cdata_close_head() -> Seq<char> {
    seq![']', ']', '>']
}

/// The passive-reply XML document for `text`, sent by `from_user` to `to_user` at `timestamp`.
pub open spec fn reply_xml(to_user: Seq<char>, from_user: Seq<char>, text: Seq<char>, timestamp: nat) -> Seq<char> {
    "<xml>"@
        + cdata_element("ToUserName"@, to_user)
        + cdata_element("FromUserName"@, from_user)
        + "<CreateTime>"@ + decimal(timestamp) + "</CreateTime>"@
        + cdata_element("MsgType"@, "text"@)
        + cdata_element("Content"@, text)
        + "</xml>"@
}

fn push_cdata_element(out: &mut String, tag: &str, value: &str)
    ensures
        final(out)@ == old(out)@ + cdata_element(tag@, value@),
{
    push_str(out, "<");
    push_str(out, tag);
    push_str(out, "><![CDATA[");
    push_str(out, value);
    push_str(out, "]]></");
    push_str(out, tag);
    push_str(out, ">");
    proof {
        reveal_strlit("<");
        reveal_strlit("><![CDATA[");
        reveal_strlit("]]></");
        reveal_strlit(">");
        assert(final(out)@ =~= old(out)@ + cdata_element(tag@, value@));
    }
}

/// The reply XML with an explicit creation time (seconds since the Unix epoch).
pub fn reply_xml_at(to_user: &str, from_user: &str, text: &str, timestamp: u64) -> (r: String)
    ensures
        r@ == reply_xml(to_user@, from_user@, text@, timestamp as nat),
{
    let mut out = String::new();
    push_str(&mut out, "<xml>");
    push_cdata_element(&mut out, "ToUserName", to_user);
    push_cdata_element(&mut out, "FromUserName", from_user);
    push_str(&mut out, "<CreateTime>");
    push_decimal(&mut out, timestamp);
    push_str(&mut out, "</CreateTime>");
    push_cdata_element(&mut out, "MsgType", "text");
    push_cdata_element(&mut out, "Content", text);
    push_str(&mut out, "</xml>");
    assert(out@ =~= reply_xml(to_user@, from_user@, text@, timestamp as nat));
    out
}

/// The current time in whole seconds since the Unix epoch (0 if the clock is before it).
#[verifier::external_body]
pub fn unix_now_secs() -> (t: u64) {
    std::time::SystemTime::now().duration_since(std::time::UNIX_EPOCH).unwrap_or_default().as_secs()
}

/// Build a synchronous XML reply for the WeChat passive-reply interface,
/// stamped with the current time.
///
/// `to_user` is the subscriber's OpenID (`FromUserName` from the incoming event),
/// `from_user` is the Official Account ID (`ToUserName` from the incoming event).
pub fn build_reply_xml(to_user: &str, from_user: &str, text: &str) -> (r: String)
    ensures
        exists|t: u64| r@ == reply_xml(to_user@, from_user@, text@, t as nat),
{
    let t = unix_now_secs();
    reply_xml_at(to_user, from_user, text, t)
}

/// What `extract_xml_field` finds for `tag` in `xml`: the CDATA form
/// `<Tag><![CDATA[value]]></Tag>` first, else the plain form `<Tag>value</Tag>`;
/// each time the first opening marker and the first closing marker after it.
pub open spec fn xml_field(xml: Seq<char>, tag: Seq<char>) -> Option<Seq<char>> {
    let copen = seq!['<'] + tag + seq!['>'] + cdata_open_tail();
    let cclose = cdata_close_head() + seq!['<', '/'] + tag + seq!['>'];
    let open = seq!['<'] + tag + seq!['>'];
    let close = seq!['<', '/'] + tag + seq!['>'];
    match between_spec(xml, copen, cclose) {
        Some(v) => Some(v),
        None => between_spec(xml, open, close),
    }
}

fn marker(a: &str, tag: &str, b: &str) -> (v: Vec<char>)
    ensures
        v@ == a@ + tag@ + b@,
{
    let mut s = String::new();
    push_str(&mut s, a);
    push_str(&mut s, tag);
    push_str(&mut s, b);
    assert(s@ =~= a@ + tag@ + b@);
    chars_of(s.as_str())
}

/// The text between the first `open` in `x` and the first `close` after it.
pub open spec fn between_spec(x: Seq<char>, open: Seq<char>, close: Seq<char>) -> Option<Seq<char>> {
    match find_seq(x, open) {
        Some(start) => {
            let vs = start + open.len();
            match find_seq(x.subrange(vs, x.len() as int), close) {
                Some(end) => Some(x.subrange(vs, vs + end)),
                None => None,
            }
        },
        None => None,
    }
}

/// The value between the first `open` and the first `close` after it.
fn between(x: &Vec<char>, open: &Vec<char>, close: &Vec<char>) -> (r: Option<String>)
    ensures
        match r {
            Some(v) => between_spec(x@, open@, close@) == Some(v@),
            None => between_spec(x@, open@, close@) is None,
        },
{
    let xl = x.len();
    match find_chars(x, open) {
        Some(start) => {
            assert(start + open@.len() <= xl);
            let vs = start + open.len();
            match find_after(x, close, vs) {
                Some(end) => {
                    assert(vs + end <= xl);
                    Some(string_of(x, vs, vs + end))
                },
                None => None,
            }
        },
        None => None,
    }
}

/// Extract the text content of an XML tag, handling both CDATA and plain forms.
pub fn extract_xml_field(xml: &str, tag: &str) -> (r: Option<String>)
    ensures
        match r {
            Some(v) => xml_field(xml@, tag@) == Some(v@),
            None => xml_field(xml@, tag@) is None,
        },
{
    proof {
        reveal_strlit("<");
        reveal_strlit("><![CDATA[");
        reveal_strlit("]]></");
        reveal_strlit(">");
        reveal_strlit("</");
    }
    let x = chars_of(xml);
    let copen = marker("<", tag, "><![CDATA[");
    let cclose = marker("]]></", tag, ">");
    assert(copen@ =~= seq!['<'] + tag@ + seq!['>'] + cdata_open_tail());
    assert(cclose@ =~= cdata_close_head() + seq!['<', '/'] + tag@ + seq!['>']);
    if let Some(v) = between(&x, &copen, &cclose) {
        return Some(v);
    }
    let open = marker("<", tag, ">");
    let close = marker("</", tag, ">");
    assert(open@ =~= seq!['<'] + tag@ + seq!['>']);
    assert(close@ =~= seq!['<', '/'] + tag@ + seq!['>']);
    between(&x, &open, &close)
}

/// Whether `v` holds no `<`.
pub open spec fn lt_free(v: Seq<char>) -> bool {
    forall|i: int| 0 <= i < v.len() ==> #[trigger] v[i] != '<'
}

/// Whether no `<` in `a` starts a tag whose name begins with `c1`, `c2` (each `<`
/// is followed by two more characters of `a`).
pub open spec fn no_tag_start(a: Seq<char>, c1: char, c2: char) -> bool {
    forall|j: int| 0 <= j < a.len() && #[trigger] a[j] == '<' ==> j + 2 < a.len() && (a[j + 1] != c1 || a[j + 2] != c2)
}

proof fn lemma_no_tag_start_add(a: Seq<char>, b: Seq<char>, c1: char, c2: char)
    requires
        no_tag_start(a, c1, c2),
        no_tag_start(b, c1, c2),
    ensures
        no_tag_start(a + b, c1, c2),
{
    let s = a + b;
    assert forall|j: int| 0 <= j < s.len() && #[trigger] s[j] == '<' implies j + 2 < s.len() && (s[j + 1] != c1
        || s[j + 2] != c2) by {
        if j < a.len() {
            assert(s[j] == a[j]);
            assert(s[j + 1] == a[j + 1] && s[j + 2] == a[j + 2]);
        } else {
            assert(s[j] == b[j - a.len()]);
            assert(s[j + 1] == b[j + 1 - a.len()] && s[j + 2] == b[j + 2 - a.len()]);
        }
    }
}

proof fn lemma_lt_free_no_tag_start(v: Seq<char>, c1: char, c2: char)
    requires
        lt_free(v),
    ensures
        no_tag_start(v, c1, c2),
{
    assert forall|j: int| 0 <= j < v.len() && #[trigger] v[j] == '<' implies j + 2 < v.len() && (v[j + 1] != c1
        || v[j + 2] != c2) by {
        assert(v[j] != '<');
    }
}

/// A tag `<t>` or `</t>` with `t` of two characters or more does not start a tag
/// beginning with `c1`, `c2` unless `t` begins with them (the closing form never does).
proof fn lemma_tag_no_tag_start(t: Seq<char>, c1: char, c2: char)
    requires
        t.len() >= 2,
        lt_free(t),
        t[0] != c1 || t[1] != c2,
        c1 != '/',
    ensures
        no_tag_start(seq!['<'] + t + seq!['>'], c1, c2),
        no_tag_start(seq!['<', '/'] + t + seq!['>'], c1, c2),
{
    let o = seq!['<'] + t + seq!['>'];
    assert forall|j: int| 0 <= j < o.len() && #[trigger] o[j] == '<' implies j + 2 < o.len() && (o[j + 1] != c1
        || o[j + 2] != c2) by {
        if j > 0 && j <= t.len() {
            assert(o[j] == t[j - 1]);
        }
        if j == 0 {
            assert(o[1] == t[0] && o[2] == t[1]);
        }
    }
    let c = seq!['<', '/'] + t + seq!['>'];
    assert forall|j: int| 0 <= j < c.len() && #[trigger] c[j] == '<' implies j + 2 < c.len() && (c[j + 1] != c1
        || c[j + 2] != c2) by {
        if j > 1 && j <= t.len() + 1 {
            assert(c[j] == t[j - 2]);
        }
        if j == 0 {
            assert(c[1] == '/');
        }
    }
}

/// A CDATA element does not start a tag beginning with `c1`, `c2` unless its own
/// tag begins with them.
proof fn lemma_element_no_tag_start(t: Seq<char>, v: Seq<char>, c1: char, c2: char)
    requires
        t.len() >= 2,
        lt_free(t),
        lt_free(v),
        t[0] != c1 || t[1] != c2,
        c1 != '/' && c1 != '!',
    ensures
        no_tag_start(cdata_element(t, v), c1, c2),
{
    lemma_tag_no_tag_start(t, c1, c2);
    let ot = cdata_open_tail();
    assert forall|j: int| 0 <= j < ot.len() && #[trigger] ot[j] == '<' implies j + 2 < ot.len() && (ot[j + 1] != c1
        || ot[j + 2] != c2) by {
        assert(j == 0);
        assert(ot[1] == '!');
    }
    lemma_lt_free_no_tag_start(v, c1, c2);
    lemma_lt_free_no_tag_start(cdata_close_head(), c1, c2);
    let open = seq!['<'] + t + seq!['>'];
    let close = seq!['<', '/'] + t + seq!['>'];
    lemma_no_tag_start_add(open, ot, c1, c2);
    lemma_no_tag_start_add(open + ot, v, c1, c2);
    lemma_no_tag_start_add(open + ot + v, cdata_close_head(), c1, c2);
    lemma_no_tag_start_add(open + ot + v + cdata_close_head(), close, c1, c2);
    assert(cdata_element(t, v) =~= open + ot + v + cdata_close_head() + close);
}

/// No occurrence of a tag-opening marker `p` starts inside a prefix that starts no
/// such tag.
proof fn lemma_no_occurrence_before(a: Seq<char>, x: Seq<char>, p: Seq<char>)
    requires
        p.len() >= 3,
        p[0] == '<',
        no_tag_start(a, p[1], p[2]),
    ensures
        forall|j: int| 0 <= j < a.len() ==> !occurs_at(a + x, p, j),
{
    let s = a + x;
    assert forall|j: int| 0 <= j < a.len() implies !occurs_at(s, p, j) by {
        if occurs_at(s, p, j) {
            assert(s.subrange(j, j + p.len())[0] == p[0]);
            assert(s.subrange(j, j + p.len())[1] == p[1]);
            assert(s.subrange(j, j + p.len())[2] == p[2]);
            assert(s[j] == a[j]);
            assert(a[j] == '<');
            assert(s[j + 1] == a[j + 1] && s[j + 2] == a[j + 2]);
        }
    }
}

/// The first occurrence of `p` is at `k` when it occurs there and nowhere before.
proof fn lemma_first_occurrence(s: Seq<char>, p: Seq<char>, k: int)
    requires
        occurs_at(s, p, k),
        forall|j: int| 0 <= j < k ==> !occurs_at(s, p, j),
    ensures
        find_seq(s, p) == Some(k),
{
    reveal(find_seq);
    assert(contains_seq(s, p));
    let c = choose|i: int| occurs_at(s, p, i) && forall|j: int| 0 <= j < i ==> !occurs_at(s, p, j);
    if c < k {
        assert(!occurs_at(s, p, c));
    } else if c > k {
        assert(!occurs_at(s, p, k));
    }
}

/// A CDATA element preceded by text that starts no tag like it gives its value back.
proof fn lemma_element_field(a: Seq<char>, t: Seq<char>, v: Seq<char>, b: Seq<char>)
    requires
        t.len() >= 2,
        no_tag_start(a, t[0], t[1]),
        lt_free(v),
    ensures
        xml_field(a + cdata_element(t, v) + b, t) == Some(v),
{
    let x = a + cdata_element(t, v) + b;
    let copen = seq!['<'] + t + seq!['>'] + cdata_open_tail();
    let cclose = cdata_close_head() + seq!['<', '/'] + t + seq!['>'];
    assert(cdata_element(t, v) =~= copen + v + cclose);
    assert(copen[1] == t[0] && copen[2] == t[1]);
    assert(x =~= a + (copen + v + cclose + b));
    lemma_no_occurrence_before(a, copen + v + cclose + b, copen);
    assert(x.subrange(a.len() as int, (a.len() + copen.len()) as int) =~= copen);
    lemma_first_occurrence(x, copen, a.len() as int);
    let vs: int = (a.len() + copen.len()) as int;
    let rest = x.subrange(vs, x.len() as int);
    assert(rest =~= v + (cclose + b));
    assert(cclose[0] == ']' && cclose[1] == ']' && cclose[2] == '>' && cclose[3] == '<');
    assert forall|j: int| 0 <= j < v.len() implies !occurs_at(rest, cclose, j) by {
        if occurs_at(rest, cclose, j) {
            // The `<` of the closing marker would have to fall at `j + 3`.
            assert(rest.subrange(j, j + cclose.len())[3] == cclose[3]);
            assert(rest[j + 3] == '<');
            if j + 3 < v.len() {
                assert(rest[j + 3] == v[j + 3]);
            } else {
                assert(rest[j + 3] == cclose[j + 3 - v.len()]);
            }
        }
    }
    assert(rest.subrange(v.len() as int, (v.len() + cclose.len()) as int) =~= cclose);
    lemma_first_occurrence(rest, cclose, v.len() as int);
    assert(x.subrange(vs, vs + v.len()) =~= v);
}

/// Reading a reply back: each field of the reply XML is found again by
/// `extract_xml_field`, when the texts hold no `<`.
pub proof fn lemma_reply_fields_read_back(to_user: Seq<char>, from_user: Seq<char>, text: Seq<char>, timestamp: nat)
    requires
        lt_free(to_user),
        lt_free(from_user),
        lt_free(text),
    ensures
        xml_field(reply_xml(to_user, from_user, text, timestamp), "ToUserName"@) == Some(to_user),
        xml_field(reply_xml(to_user, from_user, text, timestamp), "FromUserName"@) == Some(from_user),
        xml_field(reply_xml(to_user, from_user, text, timestamp), "MsgType"@) == Some("text"@),
        xml_field(reply_xml(to_user, from_user, text, timestamp), "Content"@) == Some(text),
{
    reveal_strlit("<xml>");
    reveal_strlit("ToUserName");
    reveal_strlit("FromUserName");
    reveal_strlit("<CreateTime>");
    reveal_strlit("</CreateTime>");
    reveal_strlit("MsgType");
    reveal_strlit("text");
    reveal_strlit("Content");
    reveal_strlit("</xml>");
    let tu = "ToUserName"@;
    let fu = "FromUserName"@;
    let mt = "MsgType"@;
    let ct = "Content"@;
    let tx = "text"@;
    let d = decimal(timestamp);
    crate::cli::lemma_decimal_digits(timestamp);
    assert(lt_free(d)) by {
        assert forall|i: int| 0 <= i < d.len() implies #[trigger] d[i] != '<' by {
            assert(crate::cli::is_digit(d[i]));
        }
    }
    let head = "<xml>"@;
    let ctime = "<CreateTime>"@ + d + "</CreateTime>"@;
    let e_to = cdata_element(tu, to_user);
    let e_from = cdata_element(fu, from_user);
    let e_type = cdata_element(mt, tx);
    let e_text = cdata_element(ct, text);
    let tail = "</xml>"@;
    let doc = reply_xml(to_user, from_user, text, timestamp);
    assert(doc =~= head + e_to + e_from + ctime + e_type + e_text + tail);
    assert(lt_free(tu) && lt_free(fu) && lt_free(mt) && lt_free(ct) && lt_free(tx));
    // The pieces before each element start no tag like it.
    assert forall|c1: char, c2: char| c1 != 'x' && c1 != '/' && c1 != '!' implies #[trigger] no_tag_start(head, c1, c2) by {
        assert forall|j: int| 0 <= j < head.len() && #[trigger] head[j] == '<' implies j + 2 < head.len() && (head[j
            + 1] != c1 || head[j + 2] != c2) by {
            assert(j == 0);
        }
    }
    // ToUserName
    lemma_element_field(head, tu, to_user, e_from + ctime + e_type + e_text + tail);
    assert(doc =~= head + e_to + (e_from + ctime + e_type + e_text + tail));
    // FromUserName
    lemma_element_no_tag_start(tu, to_user, 'F', 'r');
    lemma_no_tag_start_add(head, e_to, 'F', 'r');
    lemma_element_field(head + e_to, fu, from_user, ctime + e_type + e_text + tail);
    assert(doc =~= (head + e_to) + e_from + (ctime + e_type + e_text + tail));
    // The creation time starts no tag beginning with `M` or `Co`.
    let ct_open = seq!['C', 'r', 'e', 'a', 't', 'e', 'T', 'i', 'm', 'e'];
    assert("<CreateTime>"@ =~= seq!['<'] + ct_open + seq!['>']);
    assert("</CreateTime>"@ =~= seq!['<', '/'] + ct_open + seq!['>']);
    assert(lt_free(ct_open));
    lemma_tag_no_tag_start(ct_open, 'M', 's');
    lemma_tag_no_tag_start(ct_open, 'C', 'o');
    lemma_lt_free_no_tag_start(d, 'M', 's');
    lemma_lt_free_no_tag_start(d, 'C', 'o');
    lemma_no_tag_start_add("<CreateTime>"@, d, 'M', 's');
    lemma_no_tag_start_add("<CreateTime>"@ + d, "</CreateTime>"@, 'M', 's');
    lemma_no_tag_start_add("<CreateTime>"@, d, 'C', 'o');
    lemma_no_tag_start_add("<CreateTime>"@ + d, "</CreateTime>"@, 'C', 'o');
    // MsgType
    lemma_element_no_tag_start(tu, to_user, 'M', 's');
    lemma_element_no_tag_start(fu, from_user, 'M', 's');
    lemma_no_tag_start_add(head, e_to, 'M', 's');
    lemma_no_tag_start_add(head + e_to, e_from, 'M', 's');
    lemma_no_tag_start_add(head + e_to + e_from, ctime, 'M', 's');
    lemma_element_field(head + e_to + e_from + ctime, mt, tx, e_text + tail);
    assert(doc =~= (head + e_to + e_from + ctime) + e_type + (e_text + tail));
    // Content
    lemma_element_no_tag_start(tu, to_user, 'C', 'o');
    lemma_element_no_tag_start(fu, from_user, 'C', 'o');
    lemma_element_no_tag_start(mt, tx, 'C', 'o');
    lemma_no_tag_start_add(head, e_to, 'C', 'o');
    lemma_no_tag_start_add(head + e_to, e_from, 'C', 'o');
    lemma_no_tag_start_add(head + e_to + e_from, ctime, 'C', 'o');
    lemma_no_tag_start_add(head + e_to + e_from + ctime, e_type, 'C', 'o');
    lemma_element_field(head + e_to + e_from + ctime + e_type, ct, text, tail);
}

} // verus!
