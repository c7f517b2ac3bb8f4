//! Converting standard markdown to Slack mrkdwn.
use vstd::prelude::*;
use crate::text::{chars_of, owned, push_char, push_str};

verus! {

/// Whether `s` starts with three backticks.
pub open spec fn starts_fence(s: Seq<char>) -> bool {
    s.len() >= 3 && s[0] == '`' && s[1] == '`' && s[2] == '`'
}

/// Whether `s` starts with two asterisks.
pub open spec fn starts_bold(s: Seq<char>) -> bool {
    s.len() >= 2 && s[0] == '*' && s[1] == '*'
}

/// The text written for `c` outside code: `&`, `<` and `>` become the entities
/// `&amp;`, `&lt;` and `&gt;`; every other character stands as it is.
pub open spec fn spec_escape(c: char) -> Seq<char> {
    if c == '&' {
        seq!['&', 'a', 'm', 'p', ';']
    } else if c == '<' {
        seq!['&', 'l', 't', ';']
    } else if c == '>' {
        seq!['&', 'g', 't', ';']
    } else {
        seq![c]
    }
}

/// Each character of `s` escaped, in order.
pub open spec fn escaped(s: Seq<char>) -> Seq<char>
    decreases s.len(),
{
    if s.len() == 0 {
        Seq::empty()
    } else {
        spec_escape(s[0]) + escaped(s.skip(1))
    }
}

/// Mrkdwn for plain text `s`: fenced blocks and inline code are copied, `**bold**`
/// becomes `*bold*` with its text escaped, and every other character is escaped.
pub open spec fn mrkdwn(s: Seq<char>) -> Seq<char>
    decreases s.len(), 1int,
{
    if s.len() == 0 {
        Seq::empty()
    } else if starts_fence(s) {
        seq!['`', '`', '`'] + mrkdwn_fence(s.skip(3))
    } else if s[0] == '`' {
        seq!['`'] + mrkdwn_inline(s.skip(1))
    } else if starts_bold(s) {
        seq!['*'] + mrkdwn_bold(s.skip(2))
    } else {
        spec_escape(s[0]) + mrkdwn(s.skip(1))
    }
}

/// Mrkdwn for the inside of a fenced code block: copied up to and including the
/// closing fence (an unclosed block runs to the end).
pub open spec fn mrkdwn_fence(s: Seq<char>) -> Seq<char>
    decreases s.len(), 0int,
{
    if starts_fence(s) {
        seq!['`', '`', '`'] + mrkdwn(s.skip(3))
    } else if s.len() == 0 {
        Seq::empty()
    } else {
        seq![s[0]] + mrkdwn_fence(s.skip(1))
    }
}

/// Mrkdwn for the inside of inline code: copied up to and including the closing
/// backtick.
pub open spec fn mrkdwn_inline(s: Seq<char>) -> Seq<char>
    decreases s.len(), 0int,
{
    if s.len() == 0 {
        Seq::empty()
    } else if s[0] == '`' {
        seq!['`'] + mrkdwn(s.skip(1))
    } else {
        seq![s[0]] + mrkdwn_inline(s.skip(1))
    }
}

/// Mrkdwn for the inside of `**bold**`: escaped up to the closing `**`, which
/// becomes a single `*` (an unclosed span is closed at the end).
pub open spec fn mrkdwn_bold(s: Seq<char>) -> Seq<char>
    decreases s.len(), 0int,
{
    if s.len() == 0 {
        seq!['*']
    } else if starts_bold(s) {
        seq!['*'] + mrkdwn(s.skip(2))
    } else {
        spec_escape(s[0]) + mrkdwn_bold(s.skip(1))
    }
}

/// Whether `s` holds no backtick and no asterisk.
pub open spec fn plain(s: Seq<char>) -> bool {
    forall|i: int| 0 <= i < s.len() ==> #[trigger] s[i] != '`' && s[i] != '*'
}

/// Whether `s` holds none of `&`, `<` and `>`.
pub open spec fn entity_free(s: Seq<char>) -> bool {
    forall|i: int| 0 <= i < s.len() ==> #[trigger] s[i] != '&' && s[i] != '<' && s[i] != '>'
}

/// Text without code or bold markers is escaped character by character.
pub proof fn lemma_plain_text_escaped(s: Seq<char>)
    requires
        plain(s),
    ensures
        mrkdwn(s) == escaped(s),
    decreases s.len(),
{
    if s.len() > 0 {
        assert(s[0] != '`' && s[0] != '*');
        let t = s.skip(1);
        assert forall|i: int| 0 <= i < t.len() implies #[trigger] t[i] != '`' && t[i] != '*' by {
            assert(t[i] == s[i + 1]);
        }
        lemma_plain_text_escaped(t);
    }
}

/// Escaping leaves text without `&`, `<` and `>` as it is.
pub proof fn lemma_escaped_entity_free(s: Seq<char>)
    requires
        entity_free(s),
    ensures
        escaped(s) == s,
    decreases s.len(),
{
    if s.len() > 0 {
        let t = s.skip(1);
        assert(s[0] != '&' && s[0] != '<' && s[0] != '>');
        assert forall|i: int| 0 <= i < t.len() implies #[trigger] t[i] != '&' && t[i] != '<' && t[i] != '>' by {
            assert(t[i] == s[i + 1]);
        }
        lemma_escaped_entity_free(t);
        assert(seq![s[0]] + t =~= s);
    }
}

/// Text without code or bold markers and without `&`, `<` and `>` is left as it is.
pub proof fn lemma_plain_text_unchanged(s: Seq<char>)
    requires
        plain(s),
        entity_free(s),
    ensures
        mrkdwn(s) == s,
{
    lemma_plain_text_escaped(s);
    lemma_escaped_entity_free(s);
}

proof fn lemma_inline_body(c: Seq<char>, rest: Seq<char>)
    requires
        forall|i: int| 0 <= i < c.len() ==> #[trigger] c[i] != '`',
    ensures
        mrkdwn_inline(c + seq!['`'] + rest) == c + seq!['`'] + mrkdwn(rest),
    decreases c.len(),
{
    let s = c + seq!['`'] + rest;
    if c.len() == 0 {
        assert(s[0] == '`');
        assert(s.skip(1) =~= rest);
        assert(c + seq!['`'] =~= seq!['`']);
    } else {
        assert(s[0] == c[0]);
        let c2 = c.skip(1);
        assert forall|i: int| 0 <= i < c2.len() implies #[trigger] c2[i] != '`' by {
            assert(c2[i] == c[i + 1]);
        }
        lemma_inline_body(c2, rest);
        assert(s.skip(1) =~= c2 + seq!['`'] + rest);
        assert(seq![c[0]] + (c2 + seq!['`'] + mrkdwn(rest)) =~= c + seq!['`'] + mrkdwn(rest));
    }
}

/// Inline code (non-empty, without backticks) passes through unchanged.
pub proof fn lemma_inline_code_kept(c: Seq<char>, rest: Seq<char>)
    requires
        c.len() > 0,
        forall|i: int| 0 <= i < c.len() ==> #[trigger] c[i] != '`',
    ensures
        mrkdwn(seq!['`'] + c + seq!['`'] + rest) == seq!['`'] + c + seq!['`'] + mrkdwn(rest),
{
    let s = seq!['`'] + c + seq!['`'] + rest;
    assert(s[0] == '`');
    assert(s[1] == c[0]);
    assert(!starts_fence(s));
    assert(s.skip(1) =~= c + seq!['`'] + rest);
    lemma_inline_body(c, rest);
    assert(seq!['`'] + (c + seq!['`'] + mrkdwn(rest)) =~= seq!['`'] + c + seq!['`'] + mrkdwn(rest));
}

proof fn lemma_bold_body(b: Seq<char>, rest: Seq<char>)
    requires
        forall|i: int| 0 <= i < b.len() ==> #[trigger] b[i] != '*',
    ensures
        mrkdwn_bold(b + seq!['*', '*'] + rest) == escaped(b) + seq!['*'] + mrkdwn(rest),
    decreases b.len(),
{
    let s = b + seq!['*', '*'] + rest;
    if b.len() == 0 {
        assert(s[0] == '*' && s[1] == '*');
        assert(s.skip(2) =~= rest);
        assert(escaped(b) + seq!['*'] =~= seq!['*']);
    } else {
        assert(s[0] == b[0]);
        assert(!starts_bold(s));
        let b2 = b.skip(1);
        assert forall|i: int| 0 <= i < b2.len() implies #[trigger] b2[i] != '*' by {
            assert(b2[i] == b[i + 1]);
        }
        lemma_bold_body(b2, rest);
        assert(s.skip(1) =~= b2 + seq!['*', '*'] + rest);
        assert(b.skip(1) == b2);
        assert(spec_escape(b[0]) + (escaped(b2) + seq!['*'] + mrkdwn(rest)) =~= escaped(b) + seq!['*'] + mrkdwn(rest));
    }
}

/// `**bold**` (without asterisks inside) becomes `*bold*`, its text escaped.
pub proof fn lemma_bold_converted(b: Seq<char>, rest: Seq<char>)
    requires
        forall|i: int| 0 <= i < b.len() ==> #[trigger] b[i] != '*',
    ensures
        mrkdwn(seq!['*', '*'] + b + seq!['*', '*'] + rest) == seq!['*'] + escaped(b) + seq!['*'] + mrkdwn(rest),
{
    let s = seq!['*', '*'] + b + seq!['*', '*'] + rest;
    assert(s[0] == '*' && s[1] == '*');
    assert(!starts_fence(s));
    assert(s.skip(2) =~= b + seq!['*', '*'] + rest);
    lemma_bold_body(b, rest);
    assert(seq!['*'] + (escaped(b) + seq!['*'] + mrkdwn(rest)) =~= seq!['*'] + escaped(b) + seq!['*'] + mrkdwn(rest));
}

/// The conversion still to be made from state `mode` on the remaining input `s`.
pub open spec fn mrkdwn_in(mode: u8, s: Seq<char>) -> Seq<char> {
    if mode == 0 {
        mrkdwn(s)
    } else if mode == 1 {
        mrkdwn_fence(s)
    } else if mode == 2 {
        mrkdwn_inline(s)
    } else {
        mrkdwn_bold(s)
    }
}

/// The text written for `c` outside code: `&`, `<` and `>` as entities.
pub fn escape_char(c: char) -> (r: String)
    ensures
        r@ == spec_escape(c),
{
    proof {
        reveal_strlit("&amp;");
        reveal_strlit("&lt;");
        reveal_strlit("&gt;");
    }
    if c == '&' {
        owned("&amp;")
    } else if c == '<' {
        owned("&lt;")
    } else if c == '>' {
        owned("&gt;")
    } else {
        let mut r = String::new();
        push_char(&mut r, c);
        r
    }
}

/// Convert standard markdown to Slack mrkdwn format.
///
/// - `**bold**` becomes `*bold*` (Slack uses single asterisks)
/// - `` `code` `` and fenced blocks pass through unchanged
/// - `&`, `<` and `>` are escaped outside code
pub fn to_slack_mrkdwn(input: &str) -> (r: String)
    ensures
        r@ == mrkdwn(input@),
{
    proof {
        reveal_strlit("```");
        assert("```"@ =~= seq!['`', '`', '`']);
    }
    let chars = chars_of(input);
    let len = chars.len();
    let mut result = String::new();
    let mut i: usize = 0;
    // 0: plain text, 1: fenced block, 2: inline code, 3: bold span
    let mut mode: u8 = 0;
    let mut done = false;
    assert(chars@.skip(0) =~= chars@);
    while !done
        invariant
            len == chars@.len(),
            i <= len,
            mode <= 3,
            !done ==> result@ + mrkdwn_in(mode, chars@.skip(i as int)) == mrkdwn(input@),
            done ==> result@ == mrkdwn(input@),
            chars@ == input@,
            "```"@ == seq!['`', '`', '`'],
        decreases len - i, if done { 0int } else { 1int },
    {
        let ghost s = chars@.skip(i as int);
        let ghost before = result@;
        let fence = len - i > 2 && chars[i] == '`' && chars[i + 1] == '`' && chars[i + 2] == '`';
        let bold = len - i > 1 && chars[i] == '*' && chars[i + 1] == '*';
        proof {
            assert(fence == starts_fence(s));
            assert(bold == starts_bold(s));
            if fence {
                assert(s.skip(3) =~= chars@.skip(i + 3));
            }
            if bold {
                assert(s.skip(2) =~= chars@.skip(i + 2));
            }
            if i < len {
                assert(s.skip(1) =~= chars@.skip(i + 1));
            }
        }
        if mode == 0 {
            if i >= len {
                done = true;
                assert(result@ =~= before + Seq::<char>::empty());
            } else if fence {
                push_str(&mut result, "```");
                i += 3;
                mode = 1;
                assert(result@ + mrkdwn_in(mode, chars@.skip(i as int)) =~= before + mrkdwn(s));
            } else if chars[i] == '`' {
                push_char(&mut result, '`');
                i += 1;
                mode = 2;
                assert(result@ + mrkdwn_in(mode, chars@.skip(i as int)) =~= before + mrkdwn(s));
            } else if bold {
                push_char(&mut result, '*');
                i += 2;
                mode = 3;
                assert(result@ + mrkdwn_in(mode, chars@.skip(i as int)) =~= before + mrkdwn(s));
            } else {
                let e = escape_char(chars[i]);
                push_str(&mut result, e.as_str());
                i += 1;
                assert(result@ + mrkdwn_in(mode, chars@.skip(i as int)) =~= before + mrkdwn(s));
            }
        } else if mode == 1 {
            if fence {
                push_str(&mut result, "```");
                i += 3;
                mode = 0;
                assert(result@ + mrkdwn_in(mode, chars@.skip(i as int)) =~= before + mrkdwn_fence(s));
            } else if i >= len {
                done = true;
                assert(result@ =~= before + Seq::<char>::empty());
            } else {
                push_char(&mut result, chars[i]);
                i += 1;
                assert(result@ + mrkdwn_in(mode, chars@.skip(i as int)) =~= before + mrkdwn_fence(s));
            }
        } else if mode == 2 {
            if i >= len {
                done = true;
                assert(result@ =~= before + Seq::<char>::empty());
            } else if chars[i] == '`' {
                push_char(&mut result, '`');
                i += 1;
                mode = 0;
                assert(result@ + mrkdwn_in(mode, chars@.skip(i as int)) =~= before + mrkdwn_inline(s));
            } else {
                push_char(&mut result, chars[i]);
                i += 1;
                assert(result@ + mrkdwn_in(mode, chars@.skip(i as int)) =~= before + mrkdwn_inline(s));
            }
        } else {
            if i >= len {
                push_char(&mut result, '*');
                done = true;
                assert(result@ =~= before + seq!['*']);
            } else if bold {
                push_char(&mut result, '*');
                i += 2;
                mode = 0;
                assert(result@ + mrkdwn_in(mode, chars@.skip(i as int)) =~= before + mrkdwn_bold(s));
            } else {
                let e = escape_char(chars[i]);
                push_str(&mut result, e.as_str());
                i += 1;
                assert(result@ + mrkdwn_in(mode, chars@.skip(i as int)) =~= before + mrkdwn_bold(s));
            }
        }
    }
    result
}

} // verus!
