//! Odin: `path(row:col) text` on lines that start with the project directory.

use crate::text::{
    chars_of, is_prefix, lines_of, log_lines, matches_at, number_or_zero, number_or_zero_of,
    split_first, split_once, views,
};
use crate::types::{
    location, message_at, messages_view, opt_message_view, opt_msgs, push_found, single,
    LocationView, Message, MessageView, new_location,
};
use vstd::prelude::*;

verus! {

/// A location `path(row:col)`.
pub open spec fn odin_location(loc: Seq<char>) -> Option<LocationView> {
    match split_once(loc, seq!['(']) {
        Some((path, rest)) => match split_once(rest, seq![':']) {
            Some((row, rest2)) => match split_once(rest2, seq![')']) {
                Some((col, _)) => Some(location(path, number_or_zero(row), number_or_zero(col))),
                None => None,
            },
            None => None,
        },
        None => None,
    }
}

/// A diagnostic `path(row:col) text` on a line that starts with `dir`.
pub open spec fn odin_line(line: Seq<char>, dir: Seq<char>) -> Option<MessageView> {
    if !is_prefix(dir, line) {
        None
    } else {
        match split_once(line, seq![' ']) {
            Some((loc, text)) => match odin_location(loc) {
                Some(l) => Some(message_at(text, l)),
                None => None,
            },
            None => None,
        }
    }
}

/// The messages of the first `n` lines.
pub open spec fn odin_upto(lines: Seq<Seq<char>>, dir: Seq<char>, n: int) -> Seq<MessageView>
    decreases n,
{
    if n <= 0 {
        Seq::empty()
    } else {
        odin_upto(lines, dir, n - 1) + opt_msgs(odin_line(lines[n - 1], dir))
    }
}

/// The messages of an Odin log.
pub open spec fn odin_messages(lines: Seq<Seq<char>>, dir: Seq<char>) -> Seq<MessageView> {
    odin_upto(lines, dir, lines.len() as int)
}

fn parse_line(line: &[char], dir: &[char]) -> (r: Option<Message>)
    ensures
        opt_message_view(r) == odin_line(line@, dir@),
{
    if !matches_at(line, dir, 0) {
        return None;
    }
    let space = [' '];
    assert(space@ =~= seq![' ']);
    let (loc, text) = split_first(line, space.as_slice())?;
    let l = location_of(loc)?;
    Some(single(text, l))
}

fn location_of(loc: &[char]) -> (r: Option<crate::types::Location>)
    ensures
        crate::types::opt_location_view(r) == odin_location(loc@),
{
    let open = ['('];
    assert(open@ =~= seq!['(']);
    let colon = [':'];
    assert(colon@ =~= seq![':']);
    let close = [')'];
    assert(close@ =~= seq![')']);
    let (path, rest) = split_first(loc, open.as_slice())?;
    let (row, rest2) = split_first(rest, colon.as_slice())?;
    let (col, _) = split_first(rest2, close.as_slice())?;
    Some(new_location(path, number_or_zero_of(row), number_or_zero_of(col)))
}

/// A location `path(row:col)`.
pub fn parse_location(location: &str) -> (r: Option<crate::types::Location>)
    ensures
        crate::types::opt_location_view(r) == odin_location(location@),
{
    let l = chars_of(location);
    location_of(l.as_slice())
}

/// Finds Odin's diagnostics in `log`, on lines that start with `project_dir`.
pub fn analyse(log: &str, project_dir: &str) -> (r: Vec<Message>)
    ensures
        messages_view(r@) == odin_messages(lines_of(log@), project_dir@),
{
    let lines = log_lines(log);
    let dir = chars_of(project_dir);
    let mut errors: Vec<Message> = Vec::new();
    let mut i: usize = 0;
    while i < lines.len()
        invariant
            i <= lines.len(),
            views(lines@) == lines_of(log@),
            dir@ == project_dir@,
            messages_view(errors@) == odin_upto(views(lines@), dir@, i as int),
        decreases lines.len() - i,
    {
        push_found(&mut errors, parse_line(lines[i].as_slice(), dir.as_slice()));
        i += 1;
    }
    errors
}

} // verus!
