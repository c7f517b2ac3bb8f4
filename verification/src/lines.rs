//! Splitting text into lines the way `str::lines` does.
use vstd::prelude::*;
use crate::text::{chars_of, string_of, views};

verus! {

/// Index of the first `'\n'` in `s`, or `s.len()` when there is none.
pub open spec fn line_end(s: Seq<char>) -> nat
    decreases s.len(),
{
    if s.len() == 0 {
        0
    } else if s[0] == '\n' {
        0
    } else {
        1 + line_end(s.drop_first())
    }
}

/// `l` without one trailing carriage return.
pub open spec fn strip_cr(l: Seq<char>) -> Seq<char> {
    if l.len() > 0 && l.last() == '\r' {
        l.drop_last()
    } else {
        l
    }
}

/// The lines of `s`: split at `'\n'` (a `"\r\n"` ending loses its `'\r'`), with no
/// empty line after a final line ending.
pub open spec fn lines(s: Seq<char>) -> Seq<Seq<char>>
    decreases s.len(),
{
    if s.len() == 0 {
        Seq::empty()
    } else {
        let k = line_end(s) as int;
        if k >= s.len() {
            seq![s]
        } else {
            seq![strip_cr(s.subrange(0, k))] + lines(s.subrange(k + 1, s.len() as int))
        }
    }
}

/// The end of the first line is the first newline, or the end of the text.
pub proof fn lemma_line_end(s: Seq<char>, k: int)
    requires
        0 <= k <= s.len(),
        forall|j: int| 0 <= j < k ==> #[trigger] s[j] != '\n',
        k < s.len() ==> s[k] == '\n',
    ensures
        line_end(s) == k,
    decreases k,
{
    if k > 0 {
        let t = s.drop_first();
        assert forall|j: int| 0 <= j < k - 1 implies #[trigger] t[j] != '\n' by {
            assert(t[j] == s[j + 1]);
        }
        lemma_line_end(t, k - 1);
    }
}

/// The lines of a string (`s.lines()`), as owned strings.
pub fn lines_of(s: &str) -> (r: Vec<String>)
    ensures
        views(r@) == lines(s@),
{
    let v = chars_of(s);
    let n = v.len();
    let mut r: Vec<String> = Vec::new();
    let mut pos: usize = 0;
    assert(v@.subrange(0, n as int) =~= v@);
    while pos < n
        invariant
            n == v@.len(),
            v@ == s@,
            pos <= n,
            lines(s@) == views(r@) + lines(v@.subrange(pos as int, n as int)),
        decreases n - pos,
    {
        let ghost rest = v@.subrange(pos as int, n as int);
        let mut j = pos;
        while j < n && v[j] != '\n'
            invariant
                pos <= j <= n,
                n == v@.len(),
                forall|i: int| pos <= i < j ==> v@[i] != '\n',
            decreases n - j,
        {
            j += 1;
        }
        proof {
            assert forall|i: int| 0 <= i < j - pos implies #[trigger] rest[i] != '\n' by {
                assert(rest[i] == v@[pos + i]);
            }
            lemma_line_end(rest, j - pos);
        }
        let ghost old_r = r@;
        if j == n {
            let line = string_of(&v, pos, j);
            r.push(line);
            proof {
                assert(rest.len() > 0);
                assert(lines(rest) == seq![rest]);
                assert(views(r@) =~= views(old_r).push(rest));
                assert(v@.subrange(n as int, n as int) =~= Seq::<char>::empty());
                assert(lines(v@.subrange(n as int, n as int)) =~= Seq::<Seq<char>>::empty());
                assert(views(old_r) + seq![rest] =~= views(old_r).push(rest));
                assert(views(r@) + Seq::<Seq<char>>::empty() =~= views(r@));
            }
            pos = j;
        } else {
            let end = if j > pos && v[j - 1] == '\r' {
                j - 1
            } else {
                j
            };
            let line = string_of(&v, pos, end);
            r.push(line);
            proof {
                let lj = rest.subrange(0, j - pos);
                assert(lj =~= v@.subrange(pos as int, j as int));
                if j > pos && v@[j - 1] == '\r' {
                    assert(strip_cr(lj) =~= v@.subrange(pos as int, end as int));
                } else {
                    assert(strip_cr(lj) =~= v@.subrange(pos as int, end as int));
                }
                assert(rest.subrange(j - pos + 1, rest.len() as int) =~= v@.subrange(
                    j + 1,
                    n as int,
                ));
                assert(views(r@) =~= views(old_r).push(strip_cr(lj)));
                assert(views(old_r) + (seq![strip_cr(lj)] + lines(
                    v@.subrange(j + 1, n as int),
                )) =~= views(r@) + lines(v@.subrange(j + 1, n as int)));
            }
            pos = j + 1;
        }
    }
    assert(v@.subrange(n as int, n as int) =~= Seq::<char>::empty());
    assert(lines(v@.subrange(n as int, n as int)) =~= Seq::<Seq<char>>::empty());
    assert(views(r@) + Seq::<Seq<char>>::empty() =~= views(r@));
    r
}

} // verus!
