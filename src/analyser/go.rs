//! Go: build errors `file:row:col: text` and failed tests, whose location
//! follows the `--- FAIL:` line.

use crate::text::{
    chars_of, is_prefix, lines_of, log_lines, number_or_zero, number_or_zero_of, split_first,
    split_once, starts_with, strip_prefix, strip_prefix_str, trim, trimmed, views,
};
use crate::types::{
    location, message_at, messages_view, opt_message_view, opt_msgs, push_found, qualified,
    qualify, single, Message, MessageView, new_location,
};
use vstd::prelude::*;

verus! {

/// A build error `file:row:col: text`; a leading `./` is dropped and the
/// file taken relative to `dir`.
pub open spec fn build_error(line: Seq<char>, dir: Seq<char>) -> Option<MessageView> {
    match split_once(line, seq![':']) {
        Some((file, r1)) => match split_once(r1, seq![':']) {
            Some((row, r2)) => match split_once(r2, seq![':']) {
                Some((col, text)) => {
                    let f = match strip_prefix(file, "./"@) {
                        Some(f) => f,
                        None => file,
                    };
                    Some(
                        message_at(
                            trim(text),
                            location(qualify(dir, f), number_or_zero(row), number_or_zero(col)),
                        ),
                    )
                },
                None => None,
            },
            None => None,
        },
        None => None,
    }
}

/// A failed test: `--- FAIL: name`, then `file:row: text` on the next line.
pub open spec fn failed_test(line: Seq<char>, next: Option<Seq<char>>, dir: Seq<char>) -> Option<
    MessageView,
> {
    if !is_prefix("--- FAIL: "@, line) {
        None
    } else {
        match next {
            Some(n) => match split_once(trim(n), seq![':']) {
                Some((file, r1)) => match split_once(r1, seq![':']) {
                    Some((row, text)) => Some(
                        message_at(trim(text), location(qualify(dir, file), number_or_zero(row), 0)),
                    ),
                    None => None,
                },
                None => None,
            },
            None => None,
        }
    }
}

/// The messages that line `i` starts.
pub open spec fn go_at(lines: Seq<Seq<char>>, dir: Seq<char>, i: int) -> Seq<MessageView> {
    opt_msgs(build_error(lines[i], dir)) + opt_msgs(
        failed_test(
            lines[i],
            if i + 1 < lines.len() {
                Some(lines[i + 1])
            } else {
                None
            },
            dir,
        ),
    )
}

/// The messages of the first `n` lines.
pub open spec fn go_upto(lines: Seq<Seq<char>>, dir: Seq<char>, n: int) -> Seq<MessageView>
    decreases n,
{
    if n <= 0 {
        Seq::empty()
    } else {
        go_upto(lines, dir, n - 1) + go_at(lines, dir, n - 1)
    }
}

/// The messages of a Go log.
pub open spec fn go_messages(lines: Seq<Seq<char>>, dir: Seq<char>) -> Seq<MessageView> {
    go_upto(lines, dir, lines.len() as int)
}

fn parse_build_error(line: &[char], dir: &[char]) -> (r: Option<Message>)
    ensures
        opt_message_view(r) == build_error(line@, dir@),
{
    let colon = [':'];
    assert(colon@ =~= seq![':']);
    let (file, r1) = split_first(line, colon.as_slice())?;
    let (row, r2) = split_first(r1, colon.as_slice())?;
    let (col, text) = split_first(r2, colon.as_slice())?;
    let f = match strip_prefix_str(file, "./") {
        Some(f) => f,
        None => file,
    };
    let path = qualified(dir, f);
    let l = new_location(path.as_slice(), number_or_zero_of(row), number_or_zero_of(col));
    Some(single(trimmed(text), l))
}

fn parse_failed_test(line: &[char], next: Option<&[char]>, dir: &[char]) -> (r: Option<Message>)
    ensures
        opt_message_view(r) == failed_test(
            line@,
            match next {
                Some(n) => Some(n@),
                None => None,
            },
            dir@,
        ),
{
    if !starts_with(line, "--- FAIL: ") {
        return None;
    }
    let n = next?;
    let colon = [':'];
    assert(colon@ =~= seq![':']);
    let (file, r1) = split_first(trimmed(n), colon.as_slice())?;
    let (row, text) = split_first(r1, colon.as_slice())?;
    let path = qualified(dir, file);
    let l = new_location(path.as_slice(), number_or_zero_of(row), 0);
    Some(single(trimmed(text), l))
}

/// Finds Go's build errors and failed tests in `log`, with paths taken from
/// `project_dir`.
pub fn analyse(log: &str, project_dir: &str) -> (r: Vec<Message>)
    ensures
        messages_view(r@) == go_messages(lines_of(log@), project_dir@),
{
    let lines = log_lines(log);
    let dir = chars_of(project_dir);
    let mut errors: Vec<Message> = Vec::new();
    let mut i: usize = 0;
    while i < lines.len()
        invariant
            i <= lines.len(),
            views(lines@) == lines_of(log@),
            dir@ == project_dir@,
            messages_view(errors@) == go_upto(views(lines@), dir@, i as int),
        decreases lines.len() - i,
    {
        let ghost before = messages_view(errors@);
        let line = lines[i].as_slice();
        push_found(&mut errors, parse_build_error(line, dir.as_slice()));
        let next = if lines.len() - i > 1 {
            Some(lines[i + 1].as_slice())
        } else {
            None
        };
        push_found(&mut errors, parse_failed_test(line, next, dir.as_slice()));
        assert(messages_view(errors@) =~= before + go_at(views(lines@), dir@, i as int));
        i += 1;
    }
    errors
}

} // verus!
