//! Cargo: compiler diagnostics with a `-->` location line, and panics of
//! failed tests.

use crate::text::{
    chars_of, contains, contains_str, is_prefix, lemma_split_char_len, lines_of, log_lines,
    parse_number, parse_usize, skip_bytes, skipped_bytes, split_char, split_first_str, split_on,
    split_once, starts_with, strip_prefix, strip_prefix_str, trim, trimmed, views,
};
use crate::types::{
    location, message_at, messages_view, opt_location_view, opt_message_view, opt_msgs,
    push_found, qualified, qualify, single, Location, LocationView, Message, MessageView,
    new_location,
};
use vstd::prelude::*;

verus! {

/// `path:row:col` with numeric row and column; a leading `./` is dropped
/// and the path taken relative to `dir`.
pub open spec fn cargo_location(loc: Seq<char>, dir: Seq<char>) -> Option<LocationView> {
    let parts = split_char(loc, ':');
    let path = match strip_prefix(parts[0], "./"@) {
        Some(p) => p,
        None => parts[0],
    };
    if parts.len() >= 3 {
        match (parse_usize(parts[1]), parse_usize(parts[2])) {
            (Some(row), Some(col)) => Some(location(qualify(dir, path), row, col)),
            _ => None,
        }
    } else {
        None
    }
}

/// A diagnostic: `error: text` or `error[E…]: text` or `warning: text`,
/// with `--> path:row:col` on the next line.
pub open spec fn diagnostic(lines: Seq<Seq<char>>, dir: Seq<char>, i: int) -> Option<MessageView> {
    let line = lines[i];
    if (is_prefix("error: "@, line) || is_prefix("error["@, line) || is_prefix("warning: "@, line))
        && i + 1 < lines.len() {
        match split_once(line, ": "@) {
            Some((_, text)) => {
                let next = trim(lines[i + 1]);
                if is_prefix("-->"@, next) {
                    match skip_bytes(next, 4) {
                        Some(loc) => match cargo_location(loc, dir) {
                            Some(l) => Some(message_at(text, l)),
                            None => None,
                        },
                        None => None,
                    }
                } else {
                    None
                }
            },
            None => None,
        }
    } else {
        None
    }
}

/// The positions of the single quotes among the first `n` characters.
pub open spec fn quotes_upto(line: Seq<char>, n: int) -> Seq<int>
    decreases n,
{
    if n <= 0 {
        Seq::empty()
    } else {
        quotes_upto(line, n - 1) + if line[n - 1] == '\'' {
            seq![n - 1]
        } else {
            Seq::empty()
        }
    }
}

/// The positions of the single quotes in `line`.
pub open spec fn quotes(line: Seq<char>) -> Seq<int> {
    quotes_upto(line, line.len() as int)
}

/// The message of a panic whose text goes on past its line, once for every
/// later line `', path:row:col` from line `k` on.
pub open spec fn panic_continued(
    lines: Seq<Seq<char>>,
    dir: Seq<char>,
    text: Seq<char>,
    k: int,
) -> Seq<MessageView>
    decreases lines.len() - k,
{
    if k < 0 || k >= lines.len() {
        Seq::empty()
    } else {
        (match strip_prefix(lines[k], "', "@) {
            Some(loc) => match cargo_location(loc, dir) {
                Some(l) => seq![message_at(text, l)],
                None => Seq::empty(),
            },
            None => Seq::empty(),
        }) + panic_continued(lines, dir, text, k + 1)
    }
}

/// A panic: `thread 'name' panicked at 'text', path:row:col`. The text lies
/// between the third and fourth quote; without a fourth, it runs to the end
/// of the line and the location comes on later lines.
pub open spec fn panic(lines: Seq<Seq<char>>, dir: Seq<char>, i: int) -> Seq<MessageView> {
    let line = lines[i];
    let q = quotes(line);
    if is_prefix("thread "@, line) && contains(line, " panicked at "@) && q.len() >= 3 {
        if q.len() >= 4 {
            let text = line.subrange(q[2] + 1, q[3]);
            match split_once(line, ", "@) {
                Some((_, loc)) => match cargo_location(loc, dir) {
                    Some(l) => seq![message_at(text, l)],
                    None => Seq::empty(),
                },
                None => Seq::empty(),
            }
        } else {
            panic_continued(lines, dir, line.subrange(q[2] + 1, line.len() as int), i + 1)
        }
    } else {
        Seq::empty()
    }
}

/// The messages that line `i` starts.
pub open spec fn cargo_at(lines: Seq<Seq<char>>, dir: Seq<char>, i: int) -> Seq<MessageView> {
    opt_msgs(diagnostic(lines, dir, i)) + panic(lines, dir, i)
}

/// The messages of the first `n` lines.
pub open spec fn cargo_upto(lines: Seq<Seq<char>>, dir: Seq<char>, n: int) -> Seq<MessageView>
    decreases n,
{
    if n <= 0 {
        Seq::empty()
    } else {
        cargo_upto(lines, dir, n - 1) + cargo_at(lines, dir, n - 1)
    }
}

/// The messages of a Cargo log.
pub open spec fn cargo_messages(lines: Seq<Seq<char>>, dir: Seq<char>) -> Seq<MessageView> {
    cargo_upto(lines, dir, lines.len() as int)
}

fn parse_location(loc: &[char], dir: &[char]) -> (r: Option<Location>)
    ensures
        opt_location_view(r) == cargo_location(loc@, dir@),
{
    let parts = split_on(loc, ':');
    proof {
        lemma_split_char_len(loc@, ':');
    }
    assert(parts@[0]@ == split_char(loc@, ':')[0]);
    let first = parts[0].as_slice();
    let path = match strip_prefix_str(first, "./") {
        Some(p) => p,
        None => first,
    };
    if parts.len() < 3 {
        return None;
    }
    assert(parts@[1]@ == split_char(loc@, ':')[1]);
    assert(parts@[2]@ == split_char(loc@, ':')[2]);
    let row = parse_number(parts[1].as_slice())?;
    let col = parse_number(parts[2].as_slice())?;
    let full = qualified(dir, path);
    Some(new_location(full.as_slice(), row, col))
}

fn parse_diagnostic(lines: &Vec<Vec<char>>, dir: &[char], i: usize) -> (r: Option<Message>)
    requires
        i < lines.len(),
    ensures
        opt_message_view(r) == diagnostic(views(lines@), dir@, i as int),
{
    let line = lines[i].as_slice();
    if !(starts_with(line, "error: ") || starts_with(line, "error[") || starts_with(
        line,
        "warning: ",
    )) || i + 1 >= lines.len() {
        return None;
    }
    let (_, text) = split_first_str(line, ": ")?;
    let next = trimmed(lines[i + 1].as_slice());
    if !starts_with(next, "-->") {
        return None;
    }
    let loc = skipped_bytes(next, 4)?;
    let l = parse_location(loc, dir)?;
    Some(single(text, l))
}

fn quote_positions(line: &[char]) -> (r: Vec<usize>)
    ensures
        r@.map_values(|q: usize| q as int) == quotes(line@),
{
    let mut out: Vec<usize> = Vec::new();
    let mut k: usize = 0;
    while k < line.len()
        invariant
            k <= line.len(),
            out@.map_values(|q: usize| q as int) == quotes_upto(line@, k as int),
        decreases line.len() - k,
    {
        let ghost before = out@;
        if line[k] == '\'' {
            out.push(k);
        }
        assert(out@.map_values(|q: usize| q as int) =~= quotes_upto(line@, k + 1));
        k += 1;
    }
    out
}

fn parse_panic_continued(
    lines: &Vec<Vec<char>>,
    dir: &[char],
    text: &[char],
    start: usize,
    errors: &mut Vec<Message>,
)
    ensures
        messages_view(final(errors)@) == messages_view(old(errors)@) + panic_continued(
            views(lines@),
            dir@,
            text@,
            start as int,
        ),
{
    let mut k: usize = start;
    while k < lines.len()
        invariant
            start <= k,
            messages_view(errors@) + panic_continued(views(lines@), dir@, text@, k as int)
                == messages_view(old(errors)@) + panic_continued(
                views(lines@),
                dir@,
                text@,
                start as int,
            ),
        decreases lines.len() - k,
    {
        let ghost before = messages_view(errors@);
        let found = match strip_prefix_str(lines[k].as_slice(), "', ") {
            Some(loc) => match parse_location(loc, dir) {
                Some(l) => Some(single(text, l)),
                None => None,
            },
            None => None,
        };
        push_found(errors, found);
        assert(messages_view(errors@) + panic_continued(views(lines@), dir@, text@, k + 1)
            =~= before + panic_continued(views(lines@), dir@, text@, k as int));
        k += 1;
    }
    assert(messages_view(errors@) =~= messages_view(errors@) + panic_continued(
        views(lines@),
        dir@,
        text@,
        k as int,
    ));
}

fn parse_panic(lines: &Vec<Vec<char>>, dir: &[char], i: usize, errors: &mut Vec<Message>)
    requires
        i < lines.len(),
    ensures
        messages_view(final(errors)@) == messages_view(old(errors)@) + panic(
            views(lines@),
            dir@,
            i as int,
        ),
{
    let line = lines[i].as_slice();
    assert(line@ == views(lines@)[i as int]);
    let q = quote_positions(line);
    assert(q@.len() == quotes(line@).len());
    if !(starts_with(line, "thread ") && contains_str(line, " panicked at ")) || q.len() < 3 {
        assert(messages_view(errors@) =~= messages_view(errors@) + panic(
            views(lines@),
            dir@,
            i as int,
        ));
        return ;
    }
    assert(q@[2] as int == quotes(line@)[2]);
    proof {
        lemma_quotes_in_line(line@, line@.len() as int);
        assert(0 <= quotes_upto(line@, line@.len() as int)[2] < line@.len());
    }
    let n = line.len();
    assert(q@[2] < n);
    let start = q[2] + 1;
    if q.len() >= 4 {
        assert(q@[3] as int == quotes(line@)[3]);
        proof {
            lemma_quotes_ordered(line@, line@.len() as int);
        }
        let text = vstd::slice::slice_subrange(line, start, q[3]);
        let found = match split_first_str(line, ", ") {
            Some((_, loc)) => match parse_location(loc, dir) {
                Some(l) => Some(single(text, l)),
                None => None,
            },
            None => None,
        };
        push_found(errors, found);
    } else {
        let text = vstd::slice::slice_subrange(line, start, line.len());
        parse_panic_continued(lines, dir, text, i + 1, errors);
    }
}

proof fn lemma_quotes_in_line(line: Seq<char>, n: int)
    requires
        0 <= n <= line.len(),
    ensures
        forall|j: int| 0 <= j < quotes_upto(line, n).len() ==> 0 <= #[trigger] quotes_upto(line, n)[j] < n,
    decreases n,
{
    if n > 0 {
        lemma_quotes_in_line(line, n - 1);
        let p = quotes_upto(line, n - 1);
        let t = if line[n - 1] == '\'' {
            seq![n - 1]
        } else {
            Seq::empty()
        };
        assert(quotes_upto(line, n) == p + t);
        assert forall|j: int| 0 <= j < quotes_upto(line, n).len() implies 0
            <= #[trigger] quotes_upto(line, n)[j] < n by {
            if j < p.len() {
                assert(quotes_upto(line, n)[j] == p[j]);
            } else {
                assert(quotes_upto(line, n)[j] == t[j - p.len()]);
            }
        }
    }
}

proof fn lemma_quotes_ordered(line: Seq<char>, n: int)
    requires
        0 <= n <= line.len(),
    ensures
        forall|a: int, b: int|
            #![trigger quotes_upto(line, n)[a], quotes_upto(line, n)[b]]
            0 <= a < b < quotes_upto(line, n).len() ==> quotes_upto(line, n)[a] < quotes_upto(
                line,
                n,
            )[b],
    decreases n,
{
    if n > 0 {
        lemma_quotes_ordered(line, n - 1);
        lemma_quotes_in_line(line, n - 1);
        let p = quotes_upto(line, n - 1);
        let t = if line[n - 1] == '\'' {
            seq![n - 1]
        } else {
            Seq::empty()
        };
        let q = quotes_upto(line, n);
        assert(q == p + t);
        assert forall|a: int, b: int| 0 <= a < b < q.len() implies #[trigger] q[a] < #[trigger] q[b] by {
            if b < p.len() {
                assert(q[a] == p[a] && q[b] == p[b]);
            } else {
                assert(q[b] == n - 1);
                assert(q[a] == p[a]);
                assert(0 <= p[a] < n - 1);
            }
        }
    }
}

/// Finds Cargo's diagnostics and test panics in `log`, with paths taken
/// from `project_dir`.
pub fn analyse(log: &str, project_dir: &str) -> (r: Vec<Message>)
    ensures
        messages_view(r@) == cargo_messages(lines_of(log@), project_dir@),
{
    let lines = log_lines(log);
    let dir = chars_of(project_dir);
    let mut errors: Vec<Message> = Vec::new();
    let mut i: usize = 0;
    while i < lines.len()
        invariant
            i <= lines.len(),
            views(lines@) == lines_of(log@),
            dir@ == project_dir@,
            messages_view(errors@) == cargo_upto(views(lines@), dir@, i as int),
        decreases lines.len() - i,
    {
        let ghost before = messages_view(errors@);
        push_found(&mut errors, parse_diagnostic(&lines, dir.as_slice(), i));
        parse_panic(&lines, dir.as_slice(), i, &mut errors);
        assert(messages_view(errors@) =~= before + cargo_at(views(lines@), dir@, i as int));
        i += 1;
    }
    errors
}

} // verus!
