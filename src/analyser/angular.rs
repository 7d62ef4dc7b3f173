//! Angular: `file:row:col - error text` lines and syntax errors
//! `SyntaxError: path: text (row:col)`.

use crate::text::{
    chars_of, drop_last_byte, dropped_last_byte, is_prefix, lines_of, log_lines, number_or_zero,
    number_or_zero_of, split_first, split_first_str, split_once, starts_with, strip_prefix,
    strip_prefix_str, trim, trimmed, views,
};
use crate::types::{
    location, message_at, messages_view, opt_message_view, opt_msgs, push_found, qualified,
    qualify, single, Message, MessageView, new_location,
};
use vstd::prelude::*;

verus! {

/// The line begins with `ERROR: ` in any case of its letters.
pub open spec fn error_tag(l: Seq<char>) -> bool {
    l.len() >= 7 && (l[0] == 'E' || l[0] == 'e') && (l[1] == 'R' || l[1] == 'r') && (l[2] == 'R'
        || l[2] == 'r') && (l[3] == 'O' || l[3] == 'o') && (l[4] == 'R' || l[4] == 'r') && l[5]
        == ':' && l[6] == ' '
}

/// A compiler error `file:row:col - text`, perhaps after an `ERROR: ` tag,
/// with the file taken relative to `dir`.
pub open spec fn compiler_error(line: Seq<char>, dir: Seq<char>) -> Option<MessageView> {
    let l = if error_tag(line) {
        line.subrange(7, line.len() as int)
    } else {
        line
    };
    match split_once(l, " - "@) {
        Some((loc, text)) => match split_once(loc, seq![':']) {
            Some((file, r1)) => match split_once(r1, seq![':']) {
                Some((row, col)) => Some(
                    message_at(
                        text,
                        location(
                            qualify(dir, trim(file)),
                            number_or_zero(trim(row)),
                            number_or_zero(trim(col)),
                        ),
                    ),
                ),
                None => None,
            },
            None => None,
        },
        None => None,
    }
}

/// A syntax error `SyntaxError: path: text (row:col)`.
pub open spec fn syntax_error(line: Seq<char>) -> Option<MessageView> {
    match strip_prefix(line, "SyntaxError: "@) {
        Some(l) => match split_once(l, ": "@) {
            Some((path, rest)) => match split_once(rest, " ("@) {
                Some((text, rest2)) => match split_once(rest2, seq![':']) {
                    Some((row, col)) => match drop_last_byte(col) {
                        Some(c) => Some(
                            message_at(text, location(path, number_or_zero(row), number_or_zero(c))),
                        ),
                        None => None,
                    },
                    None => None,
                },
                None => None,
            },
            None => None,
        },
        None => None,
    }
}

/// The messages of one line; `Build at:` lines have none.
pub open spec fn angular_line(line: Seq<char>, dir: Seq<char>) -> Seq<MessageView> {
    if is_prefix("Build at:"@, line) {
        Seq::empty()
    } else {
        opt_msgs(compiler_error(line, dir)) + opt_msgs(syntax_error(line))
    }
}

/// The messages of the first `n` lines.
pub open spec fn angular_upto(lines: Seq<Seq<char>>, dir: Seq<char>, n: int) -> Seq<MessageView>
    decreases n,
{
    if n <= 0 {
        Seq::empty()
    } else {
        angular_upto(lines, dir, n - 1) + angular_line(lines[n - 1], dir)
    }
}

/// The messages of an Angular log.
pub open spec fn angular_messages(lines: Seq<Seq<char>>, dir: Seq<char>) -> Seq<MessageView> {
    angular_upto(lines, dir, lines.len() as int)
}

fn has_error_tag(l: &[char]) -> (r: bool)
    ensures
        r == error_tag(l@),
{
    l.len() >= 7 && (l[0] == 'E' || l[0] == 'e') && (l[1] == 'R' || l[1] == 'r') && (l[2] == 'R'
        || l[2] == 'r') && (l[3] == 'O' || l[3] == 'o') && (l[4] == 'R' || l[4] == 'r') && l[5]
        == ':' && l[6] == ' '
}

fn parse_compiler_error(line: &[char], dir: &[char]) -> (r: Option<Message>)
    ensures
        opt_message_view(r) == compiler_error(line@, dir@),
{
    let l = if has_error_tag(line) {
        vstd::slice::slice_subrange(line, 7, line.len())
    } else {
        line
    };
    let colon = [':'];
    assert(colon@ =~= seq![':']);
    let (loc, text) = split_first_str(l, " - ")?;
    let (file, r1) = split_first(loc, colon.as_slice())?;
    let (row, col) = split_first(r1, colon.as_slice())?;
    let path = qualified(dir, trimmed(file));
    let loc = new_location(
        path.as_slice(),
        number_or_zero_of(trimmed(row)),
        number_or_zero_of(trimmed(col)),
    );
    Some(single(text, loc))
}

fn parse_syntax_error(line: &[char]) -> (r: Option<Message>)
    ensures
        opt_message_view(r) == syntax_error(line@),
{
    let l = strip_prefix_str(line, "SyntaxError: ")?;
    let (path, rest) = split_first_str(l, ": ")?;
    let (text, rest2) = split_first_str(rest, " (")?;
    let colon = [':'];
    assert(colon@ =~= seq![':']);
    let (row, col) = split_first(rest2, colon.as_slice())?;
    let c = dropped_last_byte(col)?;
    let loc = new_location(path, number_or_zero_of(row), number_or_zero_of(c));
    Some(single(text, loc))
}

/// Finds Angular's compiler and syntax errors in `log`, with relative files
/// taken from `project_dir`.
pub fn analyse(log: &str, project_dir: &str) -> (r: Vec<Message>)
    ensures
        messages_view(r@) == angular_messages(lines_of(log@), project_dir@),
{
    let lines = log_lines(log);
    let dir = chars_of(project_dir);
    let mut errors: Vec<Message> = Vec::new();
    let mut i: usize = 0;
    while i < lines.len()
        invariant
            i <= lines.len(),
            views(lines@) == lines_of(log@),
            dir@ == project_dir@,
            messages_view(errors@) == angular_upto(views(lines@), dir@, i as int),
        decreases lines.len() - i,
    {
        let ghost before = messages_view(errors@);
        let line = lines[i].as_slice();
        if !starts_with(line, "Build at:") {
            push_found(&mut errors, parse_compiler_error(line, dir.as_slice()));
            push_found(&mut errors, parse_syntax_error(line));
        }
        assert(messages_view(errors@) =~= before + angular_line(views(lines@)[i as int], dir@));
        i += 1;
    }
    errors
}

} // verus!
