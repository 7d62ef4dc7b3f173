//! Clang's diagnostics: `path:row:col: message`, one per line.

use crate::text::{
    chars_of, is_prefix, log_lines, lines_of, number_or_zero, number_or_zero_of, split_first,
    split_once, starts_with, trim_start, trimmed_start, views,
};
use crate::types::{
    location, message_at, messages_view, opt_message_view, opt_msgs, push_found, qualified,
    qualify, single, LocationView, Message, MessageView, new_location,
};
use vstd::prelude::*;

verus! {

/// The location at the start of a diagnostic line; a path that is not
/// absolute is taken relative to `dir`.
pub open spec fn clang_location(
    path: Seq<char>,
    row: Seq<char>,
    col: Seq<char>,
    dir: Seq<char>,
) -> LocationView {
    location(
        if is_prefix(seq!['/'], path) {
            path
        } else {
            qualify(dir, path)
        },
        number_or_zero(row),
        number_or_zero(col),
    )
}

/// The message of a line with at least three colons, `path:row:col:text`.
pub open spec fn clang_line(line: Seq<char>, dir: Seq<char>) -> Option<MessageView> {
    match split_once(line, seq![':']) {
        Some((path, r1)) => match split_once(r1, seq![':']) {
            Some((row, r2)) => match split_once(r2, seq![':']) {
                Some((col, text)) => Some(
                    message_at(trim_start(text), clang_location(path, row, col, dir)),
                ),
                None => None,
            },
            None => None,
        },
        None => None,
    }
}

/// Whether a line may hold a diagnostic: it starts with `dir` or `src/`.
pub open spec fn clang_candidate(line: Seq<char>, dir: Seq<char>) -> bool {
    is_prefix(dir, line) || is_prefix("src/"@, line)
}

/// The messages of the first `n` lines.
pub open spec fn clang_upto(lines: Seq<Seq<char>>, dir: Seq<char>, n: int) -> Seq<MessageView>
    decreases n,
{
    if n <= 0 {
        Seq::empty()
    } else {
        clang_upto(lines, dir, n - 1) + if clang_candidate(lines[n - 1], dir) {
            opt_msgs(clang_line(lines[n - 1], dir))
        } else {
            Seq::empty()
        }
    }
}

/// The messages of a Clang log.
pub open spec fn clang_messages(lines: Seq<Seq<char>>, dir: Seq<char>) -> Seq<MessageView> {
    clang_upto(lines, dir, lines.len() as int)
}

fn parse_line(line: &[char], dir: &[char]) -> (r: Option<Message>)
    ensures
        opt_message_view(r) == clang_line(line@, dir@),
{
    let colon = [':'];
    assert(colon@ =~= seq![':']);
    let (path, r1) = split_first(line, colon.as_slice())?;
    let (row, r2) = split_first(r1, colon.as_slice())?;
    let (col, text) = split_first(r2, colon.as_slice())?;
    let slash = ['/'];
    assert(slash@ =~= seq!['/']);
    let loc = if crate::text::matches_at(path, slash.as_slice(), 0) {
        new_location(path, number_or_zero_of(row), number_or_zero_of(col))
    } else {
        let full = qualified(dir, path);
        new_location(full.as_slice(), number_or_zero_of(row), number_or_zero_of(col))
    };
    Some(single(trimmed_start(text), loc))
}

/// Finds Clang's diagnostics in `log`, with relative paths taken from
/// `project_dir`.
pub fn analyse(log: &str, project_dir: &str) -> (r: Vec<Message>)
    ensures
        messages_view(r@) == clang_messages(lines_of(log@), project_dir@),
{
    let lines = log_lines(log);
    let dir = chars_of(project_dir);
    let mut errors: Vec<Message> = Vec::new();
    let mut i: usize = 0;
    while i < lines.len()
        invariant
            i <= lines.len(),
            views(lines@) == lines_of(log@),
            dir@ == project_dir@,
            messages_view(errors@) == clang_upto(views(lines@), dir@, i as int),
        decreases lines.len() - i,
    {
        let line = lines[i].as_slice();
        let ghost before = messages_view(errors@);
        if crate::text::matches_at(line, dir.as_slice(), 0) || starts_with(line, "src/") {
            let found = parse_line(line, dir.as_slice());
            push_found(&mut errors, found);
        } else {
            assert(messages_view(errors@) =~= before + Seq::<MessageView>::empty());
        }
        i += 1;
    }
    errors
}

} // verus!
