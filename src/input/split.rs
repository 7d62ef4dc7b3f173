//! A terminal's history holds several builds, each starting at a shell prompt.

use crate::text::{
    chars_of, is_prefix, matches_at, split_char, split_on, string_of, trim, trimmed, views,
};
use vstd::prelude::*;

verus! {

/// The positions, among the first `n` lines, of the lines that begin (after
/// white space) with `symbol`.
pub open spec fn marks_upto(lines: Seq<Seq<char>>, symbol: Seq<char>, n: int) -> Seq<int>
    decreases n,
{
    if n <= 0 {
        Seq::empty()
    } else {
        marks_upto(lines, symbol, n - 1) + if is_prefix(symbol, trim(lines[n - 1])) {
            seq![n - 1]
        } else {
            Seq::empty()
        }
    }
}

/// Lines `start` to `end - 1`, each followed by a newline.
pub open spec fn joined_lines(lines: Seq<Seq<char>>, start: int, end: int) -> Seq<char>
    decreases end - start,
{
    if start < 0 || start >= end || start >= lines.len() {
        Seq::empty()
    } else {
        lines[start] + seq!['\n'] + joined_lines(lines, start + 1, end)
    }
}

/// The builds in `log`: each runs from a line that begins with `symbol` to
/// the next such line, the last to the end; text before the first is dropped.
pub open spec fn builds_of(log: Seq<char>, symbol: Seq<char>) -> Seq<Seq<char>> {
    let lines = split_char(log, '\n');
    let m = marks_upto(lines, symbol, lines.len() as int);
    Seq::new(
        m.len(),
        |n: int|
            joined_lines(
                lines,
                m[n],
                if n + 1 < m.len() {
                    m[n + 1]
                } else {
                    lines.len() as int
                },
            ),
    )
}

/// The views of a list of strings.
pub open spec fn strings_view(s: Seq<String>) -> Seq<Seq<char>> {
    s.map_values(|x: String| x@)
}

proof fn lemma_marks(lines: Seq<Seq<char>>, symbol: Seq<char>, n: int)
    requires
        0 <= n <= lines.len(),
    ensures
        forall|j: int|
            #![trigger marks_upto(lines, symbol, n)[j]]
            0 <= j < marks_upto(lines, symbol, n).len() ==> 0 <= marks_upto(lines, symbol, n)[j]
                < n,
        forall|a: int, b: int|
            #![trigger marks_upto(lines, symbol, n)[a], marks_upto(lines, symbol, n)[b]]
            0 <= a < b < marks_upto(lines, symbol, n).len() ==> marks_upto(lines, symbol, n)[a]
                < marks_upto(lines, symbol, n)[b],
    decreases n,
{
    if n > 0 {
        lemma_marks(lines, symbol, n - 1);
        let p = marks_upto(lines, symbol, n - 1);
        let t = if is_prefix(symbol, trim(lines[n - 1])) {
            seq![n - 1]
        } else {
            Seq::empty()
        };
        let q = marks_upto(lines, symbol, n);
        assert(q == p + t);
        assert forall|j: int| 0 <= j < q.len() implies 0 <= #[trigger] q[j] < n by {
            if j < p.len() {
                assert(q[j] == p[j]);
            } else {
                assert(q[j] == t[j - p.len()]);
            }
        }
        assert forall|a: int, b: int| 0 <= a < b < q.len() implies #[trigger] q[a] < #[trigger] q[b] by {
            if b < p.len() {
                assert(q[a] == p[a] && q[b] == p[b]);
            } else {
                assert(q[b] == n - 1);
                assert(q[a] == p[a]);
            }
        }
    }
}

fn join_lines(lines: &Vec<Vec<char>>, start: usize, end: usize) -> (r: Vec<char>)
    requires
        start <= end <= lines.len(),
    ensures
        r@ == joined_lines(views(lines@), start as int, end as int),
{
    let mut out: Vec<char> = Vec::new();
    let mut k: usize = start;
    while k < end
        invariant
            start <= k <= end <= lines.len(),
            out@ + joined_lines(views(lines@), k as int, end as int) == joined_lines(
                views(lines@),
                start as int,
                end as int,
            ),
        decreases end - k,
    {
        let ghost before = out@;
        let line = lines[k].as_slice();
        out = crate::text::concat(out.as_slice(), line);
        out.push('\n');
        assert(out@ + joined_lines(views(lines@), k + 1, end as int) =~= before + joined_lines(
            views(lines@),
            k as int,
            end as int,
        ));
        k += 1;
    }
    assert(out@ + joined_lines(views(lines@), k as int, end as int) =~= out@);
    out
}

/// Splits `log` into builds, each starting at a line that begins (after
/// white space) with `split_symbol`.
pub fn builds(log: &str, split_symbol: &str) -> (r: Vec<String>)
    ensures
        strings_view(r@) == builds_of(log@, split_symbol@),
{
    let chars = chars_of(log);
    let symbol = chars_of(split_symbol);
    let lines = split_on(chars.as_slice(), '\n');
    let ghost ls = views(lines@);
    let mut marks: Vec<usize> = Vec::new();
    let mut j: usize = 0;
    while j < lines.len()
        invariant
            j <= lines.len(),
            ls == views(lines@),
            marks@.map_values(|q: usize| q as int) == marks_upto(ls, symbol@, j as int),
        decreases lines.len() - j,
    {
        if matches_at(trimmed(lines[j].as_slice()), symbol.as_slice(), 0) {
            marks.push(j);
        }
        assert(marks@.map_values(|q: usize| q as int) =~= marks_upto(ls, symbol@, j + 1));
        j += 1;
    }
    proof {
        lemma_marks(ls, symbol@, ls.len() as int);
    }
    let ghost m = marks_upto(ls, symbol@, ls.len() as int);
    assert(ls == split_char(log@, '\n'));
    assert(symbol@ == split_symbol@);
    assert(builds_of(log@, split_symbol@).len() == m.len());
    let mut out: Vec<String> = Vec::new();
    let mut n: usize = 0;
    while n < marks.len()
        invariant
            n <= marks.len(),
            ls == views(lines@),
            ls == split_char(log@, '\n'),
            m == marks_upto(ls, symbol@, ls.len() as int),
            marks@.map_values(|q: usize| q as int) == m,
            builds_of(log@, split_symbol@).len() == m.len(),
            symbol@ == split_symbol@,
            forall|j: int| #![trigger m[j]] 0 <= j < m.len() ==> 0 <= m[j] < ls.len(),
            forall|a: int, b: int| #![trigger m[a], m[b]] 0 <= a < b < m.len() ==> m[a] < m[b],
            strings_view(out@) == builds_of(log@, split_symbol@).subrange(0, n as int),
        decreases marks.len() - n,
    {
        assert(marks@[n as int] as int == m[n as int]);
        let start = marks[n];
        let end = if n + 1 < marks.len() {
            assert(marks@[n + 1] as int == m[n + 1]);
            marks[n + 1]
        } else {
            lines.len()
        };
        let text = join_lines(&lines, start, end);
        assert(start as int == m[n as int]);
        assert(end as int == (if n + 1 < m.len() {
            m[n + 1]
        } else {
            ls.len() as int
        }));
        assert(text@ == joined_lines(ls, m[n as int], end as int));
        assert(builds_of(log@, split_symbol@)[n as int] == text@);
        let piece = string_of(text.as_slice());
        let ghost before = strings_view(out@);
        out.push(piece);
        assert(strings_view(out@) =~= before.push(piece@));
        assert(strings_view(out@) =~= builds_of(log@, split_symbol@).subrange(0, n + 1));
        n += 1;
    }
    assert(builds_of(log@, split_symbol@).subrange(0, n as int) =~= builds_of(
        log@,
        split_symbol@,
    ));
    out
}

} // verus!
