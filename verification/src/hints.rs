//! Separating tool-hint lines (those starting with the wrench emoji) from the
//! body of an agent reply.
use vstd::prelude::*;
use crate::text::{trim, trim_start, trim_end, is_blank, is_ws, join, views, trimmed, chars_of, join_strings};
use crate::lines::{lines, lines_of};

verus! {

/// The character that marks a hint line.
pub open spec fn hint_mark() -> char {
    '\u{1F527}'
}

/// Whether a trimmed line is a hint line.
pub open spec fn is_hint(trimmed_line: Seq<char>) -> bool {
    trimmed_line.len() > 0 && trimmed_line[0] == hint_mark()
}

/// Walking the lines in order: the trimmed hint lines, and the body lines kept
/// (blank lines before the first body line are dropped).
pub open spec fn hint_split(ls: Seq<Seq<char>>) -> (Seq<Seq<char>>, Seq<Seq<char>>)
    decreases ls.len(),
{
    if ls.len() == 0 {
        (Seq::empty(), Seq::empty())
    } else {
        let (h, r) = hint_split(ls.drop_last());
        let line = ls.last();
        let t = trim(line);
        if is_hint(t) {
            (h.push(t), r)
        } else if t.len() > 0 || r.len() > 0 {
            (h, r.push(line))
        } else {
            (h, r)
        }
    }
}

/// The hints of `text`: `None` when it has no hint line, else the trimmed hint lines
/// joined by newlines.
pub open spec fn spec_hints(text: Seq<char>) -> Option<Seq<char>> {
    let h = hint_split(lines(text)).0;
    if h.len() == 0 {
        None
    } else {
        Some(join(h, seq!['\n']))
    }
}

/// The body of `text`: the kept lines joined by newlines, then trimmed.
pub open spec fn spec_body(text: Seq<char>) -> Seq<char> {
    trim(join(hint_split(lines(text)).1, seq!['\n']))
}

/// Extract hint lines from text, returning `(hints, body)`.
/// Lines that start with the wrench emoji are hints and kept (trimmed).
/// `hints` is `None` if no hint lines were found.
pub fn split_hints(text: &str) -> (r: (Option<String>, String))
    ensures
        match r.0 {
            Some(h) => spec_hints(text@) == Some(h@),
            None => spec_hints(text@) is None,
        },
        r.1@ == spec_body(text@),
{
    let ls = lines_of(text);
    let ghost lv = views(ls@);
    let mut hint_lines: Vec<String> = Vec::new();
    let mut rest: Vec<String> = Vec::new();
    let mut i: usize = 0;
    while i < ls.len()
        invariant
            i <= ls@.len(),
            lv == views(ls@),
            lv == lines(text@),
            hint_split(lv.take(i as int)) == (views(hint_lines@), views(rest@)),
        decreases ls@.len() - i,
    {
        let line = &ls[i];
        let t = trimmed(line.as_str());
        let tv = chars_of(t.as_str());
        let ghost old_h = hint_lines@;
        let ghost old_r = rest@;
        proof {
            assert(lv.take(i + 1).drop_last() =~= lv.take(i as int));
            assert(lv.take(i + 1).last() == ls@[i as int]@);
        }
        if tv.len() > 0 && tv[0] == '\u{1F527}' {
            hint_lines.push(t);
            assert(views(hint_lines@) =~= views(old_h).push(trim(ls@[i as int]@)));
        } else if tv.len() > 0 || rest.len() > 0 {
            rest.push(line.clone());
            assert(views(rest@) =~= views(old_r).push(ls@[i as int]@));
        }
        i += 1;
    }
    assert(lv.take(ls@.len() as int) =~= lv);
    let hints = if hint_lines.len() == 0 {
        None
    } else {
        Some(join_strings(&hint_lines, "\n"))
    };
    let joined = join_strings(&rest, "\n");
    let body = trimmed(joined.as_str());
    proof {
        reveal_strlit("\n");
        assert("\n"@ =~= seq!['\n']);
    }
    (hints, body)
}

/// The trimmed hint lines among `ls`, in order.
pub open spec fn hint_lines(ls: Seq<Seq<char>>) -> Seq<Seq<char>> {
    ls.map_values(|l: Seq<char>| trim(l)).filter(|t: Seq<char>| is_hint(t))
}

/// The lines of `ls` that are not hint lines, in order.
pub open spec fn body_lines(ls: Seq<Seq<char>>) -> Seq<Seq<char>> {
    ls.filter(|l: Seq<char>| !is_hint(trim(l)))
}

/// `ls` without its leading blank lines.
pub open spec fn skip_blank(ls: Seq<Seq<char>>) -> Seq<Seq<char>>
    decreases ls.len(),
{
    if ls.len() == 0 {
        ls
    } else if trim(ls[0]).len() == 0 {
        skip_blank(ls.skip(1))
    } else {
        ls
    }
}

proof fn lemma_skip_blank_push(x: Seq<Seq<char>>, l: Seq<char>)
    ensures
        skip_blank(x.push(l)) == if skip_blank(x).len() > 0 {
            skip_blank(x).push(l)
        } else if trim(l).len() > 0 {
            seq![l]
        } else {
            Seq::<Seq<char>>::empty()
        },
    decreases x.len(),
{
    let e = Seq::<Seq<char>>::empty();
    assert(skip_blank(e) == e);
    if x.len() == 0 {
        assert(x =~= e);
        assert(x.push(l) =~= seq![l]);
        assert(seq![l].skip(1) =~= e);
        assert(seq![l][0] == l);
        if trim(l).len() == 0 {
            assert(skip_blank(seq![l]) == skip_blank(e));
        } else {
            assert(skip_blank(seq![l]) == seq![l]);
        }
    } else {
        assert(x.push(l)[0] == x[0]);
        assert(x.push(l).skip(1) =~= x.skip(1).push(l));
        if trim(x[0]).len() == 0 {
            lemma_skip_blank_push(x.skip(1), l);
            assert(skip_blank(x.push(l)) == skip_blank(x.skip(1).push(l)));
            assert(skip_blank(x) == skip_blank(x.skip(1)));
        } else {
            assert(skip_blank(x.push(l)) == x.push(l));
            assert(skip_blank(x) == x);
        }
    }
}

/// Splitting keeps every hint line, trimmed and in order, and the body holds
/// exactly the other lines in order, from the first non-blank one on: no hint
/// line reaches the body.
pub proof fn lemma_hint_split_filters(ls: Seq<Seq<char>>)
    ensures
        hint_split(ls).0 == hint_lines(ls),
        hint_split(ls).1 == skip_blank(body_lines(ls)),
        forall|i: int| 0 <= i < hint_split(ls).1.len() ==> !is_hint(trim(#[trigger] hint_split(ls).1[i])),
    decreases ls.len(),
{
    reveal(Seq::filter);
    if ls.len() == 0 {
        assert(ls.map_values(|l: Seq<char>| trim(l)) =~= Seq::<Seq<char>>::empty());
    } else {
        let p = ls.drop_last();
        lemma_hint_split_filters(p);
        let m = ls.map_values(|l: Seq<char>| trim(l));
        assert(m.drop_last() =~= p.map_values(|l: Seq<char>| trim(l)));
        assert(m.last() == trim(ls.last()));
        lemma_skip_blank_push(body_lines(p), ls.last());
        lemma_skip_blank_body(body_lines(ls));
    }
}

proof fn lemma_skip_blank_body(ls: Seq<Seq<char>>)
    requires
        forall|i: int| 0 <= i < ls.len() ==> !is_hint(trim(#[trigger] ls[i])),
    ensures
        forall|i: int| 0 <= i < skip_blank(ls).len() ==> !is_hint(trim(#[trigger] skip_blank(ls)[i])),
    decreases ls.len(),
{
    if ls.len() > 0 && trim(ls[0]).len() == 0 {
        assert forall|i: int| 0 <= i < ls.skip(1).len() implies !is_hint(trim(#[trigger] ls.skip(1)[i])) by {
            assert(ls.skip(1)[i] == ls[i + 1]);
        }
        lemma_skip_blank_body(ls.skip(1));
        assert(skip_blank(ls) == skip_blank(ls.skip(1)));
    } else {
        assert(skip_blank(ls) == ls);
    }
}

/// Leading whitespace does not change what trimming keeps.
proof fn lemma_trim_start_skips_blank(w: Seq<char>, y: Seq<char>)
    requires
        is_blank(w),
    ensures
        trim_start(w + y) == trim_start(y),
    decreases w.len(),
{
    if w.len() > 0 {
        assert((w + y)[0] == w[0]);
        assert((w + y).drop_first() =~= w.drop_first() + y);
        assert forall|i: int| 0 <= i < w.drop_first().len() implies is_ws(#[trigger] w.drop_first()[i]) by {
            assert(w.drop_first()[i] == w[i + 1]);
        }
        lemma_trim_start_skips_blank(w.drop_first(), y);
    } else {
        assert(w + y =~= y);
    }
}

/// A line that trims to nothing is all whitespace.
proof fn lemma_trimmed_empty_is_blank(s: Seq<char>)
    requires
        trim(s).len() == 0,
    ensures
        is_blank(s),
{
    lemma_trim_end_empty(trim_start(s));
    lemma_trim_start_blank(s);
}

proof fn lemma_trim_end_empty(s: Seq<char>)
    requires
        trim_end(s).len() == 0,
    ensures
        is_blank(s),
    decreases s.len(),
{
    if s.len() > 0 {
        assert(is_ws(s.last()));
        lemma_trim_end_empty(s.drop_last());
        assert forall|i: int| 0 <= i < s.len() implies is_ws(#[trigger] s[i]) by {
            if i < s.len() - 1 {
                assert(s[i] == s.drop_last()[i]);
            }
        }
    }
}

proof fn lemma_trim_start_blank(s: Seq<char>)
    requires
        is_blank(trim_start(s)),
    ensures
        is_blank(s),
    decreases s.len(),
{
    if s.len() > 0 && is_ws(s[0]) {
        lemma_trim_start_blank(s.drop_first());
        assert forall|i: int| 0 <= i < s.len() implies is_ws(#[trigger] s[i]) by {
            if i > 0 {
                assert(s[i] == s.drop_first()[i - 1]);
            }
        }
    }
}

/// Joining a first part onto the rest.
proof fn lemma_join_front(parts: Seq<Seq<char>>, sep: Seq<char>)
    requires
        parts.len() >= 2,
    ensures
        join(parts, sep) == parts[0] + sep + join(parts.skip(1), sep),
    decreases parts.len(),
{
    let rest = parts.skip(1);
    if parts.len() == 2 {
        assert(parts.drop_last() =~= seq![parts[0]]);
        assert(rest =~= seq![parts[1]]);
        assert(join(parts.drop_last(), sep) == parts[0]);
        assert(join(rest, sep) == parts[1]);
        assert(join(parts, sep) == join(parts.drop_last(), sep) + sep + parts.last());
    } else {
        let p = parts.drop_last();
        lemma_join_front(p, sep);
        assert(p.skip(1) =~= rest.drop_last());
        assert(rest.last() == parts.last());
        assert(p[0] == parts[0]);
        assert(join(parts, sep) == join(p, sep) + sep + parts.last());
        assert(join(rest, sep) == join(rest.drop_last(), sep) + sep + rest.last());
        assert(join(parts, sep) =~= parts[0] + sep + join(rest, sep));
    }
}

/// Dropping leading blank lines does not change the trimmed, joined text.
proof fn lemma_skip_blank_trimmed(ls: Seq<Seq<char>>)
    ensures
        trim(join(skip_blank(ls), seq!['\n'])) == trim(join(ls, seq!['\n'])),
    decreases ls.len(),
{
    if ls.len() > 0 && trim(ls[0]).len() == 0 {
        lemma_skip_blank_trimmed(ls.skip(1));
        lemma_trimmed_empty_is_blank(ls[0]);
        let nl = seq!['\n'];
        if ls.len() == 1 {
            assert(ls.skip(1) =~= Seq::<Seq<char>>::empty());
            lemma_trim_start_skips_blank(ls[0], Seq::empty());
            assert(ls[0] + Seq::<char>::empty() =~= ls[0]);
        } else {
            lemma_join_front(ls, nl);
            let w = ls[0] + nl;
            assert forall|i: int| 0 <= i < w.len() implies is_ws(#[trigger] w[i]) by {
                if i < ls[0].len() {
                    assert(w[i] == ls[0][i]);
                } else {
                    assert(w[i] == '\n');
                }
            }
            lemma_trim_start_skips_blank(w, join(ls.skip(1), nl));
        }
    }
}

/// The split by trimmed lines: the hints are the trimmed lines that start with the
/// wrench, joined by newlines (none when there are none), and the body is all
/// other lines, joined by newlines and trimmed.
pub proof fn lemma_split_hints_partition(text: Seq<char>)
    ensures
        spec_hints(text) == (if hint_lines(lines(text)).len() == 0 {
            None
        } else {
            Some(join(hint_lines(lines(text)), seq!['\n']))
        }),
        spec_body(text) == trim(join(body_lines(lines(text)), seq!['\n'])),
{
    lemma_hint_split_filters(lines(text));
    lemma_skip_blank_trimmed(body_lines(lines(text)));
}

} // verus!
