//! Dune (OCaml): `File "path", line N, characters A-B:` followed, before the
//! next empty line, by the `Error: …` it reports.

use crate::text::{
    chars_of, drop_last_byte, dropped_last_byte, is_prefix, lines_of, log_lines, number_or_zero,
    number_or_zero_of, skip_bytes, skipped_bytes, split_first, split_first_str, split_once,
    starts_with, trim, trimmed, views,
};
use crate::types::{
    location, message_at, messages_view, push_message, qualified, qualify, single, LocationView,
    Message, MessageView, new_location,
};
use vstd::prelude::*;

verus! {

/// The location in `File "path", line row, characters col-end:`.
pub open spec fn file_location(line: Seq<char>, dir: Seq<char>) -> Option<LocationView> {
    match skip_bytes(line, 6) {
        Some(a) => match drop_last_byte(a) {
            Some(inner) => match split_once(inner, "\", line "@) {
                Some((path, rest)) => match split_once(rest, ", characters "@) {
                    Some((row, rest2)) => match split_once(rest2, seq!['-']) {
                        Some((col, _)) => Some(
                            location(qualify(dir, path), number_or_zero(row), number_or_zero(col)),
                        ),
                        None => None,
                    },
                    None => None,
                },
                None => None,
            },
            None => None,
        },
        None => None,
    }
}

/// The first `Error: …` line from line `k` on, before an empty line or the
/// next `File …` header.
pub open spec fn error_text(lines: Seq<Seq<char>>, k: int) -> Option<Seq<char>>
    decreases lines.len() - k,
{
    if k < 0 || k >= lines.len() || trim(lines[k]).len() == 0 || is_prefix("File "@, lines[k]) {
        None
    } else if is_prefix("Error: "@, trim(lines[k])) {
        Some(trim(lines[k]))
    } else {
        error_text(lines, k + 1)
    }
}

/// The message that line `i` starts.
pub open spec fn dune_at(lines: Seq<Seq<char>>, dir: Seq<char>, i: int) -> Seq<MessageView> {
    if is_prefix("File "@, lines[i]) {
        match file_location(lines[i], dir) {
            Some(l) => match error_text(lines, i + 1) {
                Some(t) => seq![message_at(t, l)],
                None => Seq::empty(),
            },
            None => Seq::empty(),
        }
    } else {
        Seq::empty()
    }
}

/// The messages of the first `n` lines.
pub open spec fn dune_upto(lines: Seq<Seq<char>>, dir: Seq<char>, n: int) -> Seq<MessageView>
    decreases n,
{
    if n <= 0 {
        Seq::empty()
    } else {
        dune_upto(lines, dir, n - 1) + dune_at(lines, dir, n - 1)
    }
}

/// The messages of a Dune log.
pub open spec fn dune_messages(lines: Seq<Seq<char>>, dir: Seq<char>) -> Seq<MessageView> {
    dune_upto(lines, dir, lines.len() as int)
}

fn location_of(line: &[char], dir: &[char]) -> (r: Option<crate::types::Location>)
    ensures
        crate::types::opt_location_view(r) == file_location(line@, dir@),
{
    let a = skipped_bytes(line, 6)?;
    let inner = dropped_last_byte(a)?;
    let (path, rest) = split_first_str(inner, "\", line ")?;
    let (row, rest2) = split_first_str(rest, ", characters ")?;
    let dash = ['-'];
    assert(dash@ =~= seq!['-']);
    let (col, _) = split_first(rest2, dash.as_slice())?;
    let full = qualified(dir, path);
    Some(new_location(full.as_slice(), number_or_zero_of(row), number_or_zero_of(col)))
}

fn find_error_text(lines: &Vec<Vec<char>>, start: usize) -> (r: Option<&[char]>)
    ensures
        crate::text::opt_view(r) == error_text(views(lines@), start as int),
{
    let mut k: usize = start;
    while k < lines.len()
        invariant
            start <= k,
            error_text(views(lines@), start as int) == error_text(views(lines@), k as int),
        decreases lines.len() - k,
    {
        let t = trimmed(lines[k].as_slice());
        if t.len() == 0 || starts_with(lines[k].as_slice(), "File ") {
            return None;
        }
        if starts_with(t, "Error: ") {
            return Some(t);
        }
        k += 1;
    }
    None
}

/// The location in `File "path", line row, characters col-end:`, with the
/// path taken relative to `project_dir`.
pub fn parse_location(line: &str, project_dir: &str) -> (r: Option<crate::types::Location>)
    ensures
        crate::types::opt_location_view(r) == file_location(line@, project_dir@),
{
    let l = chars_of(line);
    let d = chars_of(project_dir);
    location_of(l.as_slice(), d.as_slice())
}

/// Finds Dune's errors in `log`, with files taken relative to `project_dir`.
pub fn analyse(log: &str, project_dir: &str) -> (r: Vec<Message>)
    ensures
        messages_view(r@) == dune_messages(lines_of(log@), project_dir@),
{
    let lines = log_lines(log);
    let dir = chars_of(project_dir);
    let mut errors: Vec<Message> = Vec::new();
    let mut i: usize = 0;
    while i < lines.len()
        invariant
            i <= lines.len(),
            views(lines@) == lines_of(log@),
            dir@ == project_dir@,
            messages_view(errors@) == dune_upto(views(lines@), dir@, i as int),
        decreases lines.len() - i,
    {
        let ghost before = messages_view(errors@);
        let line = lines[i].as_slice();
        if starts_with(line, "File ") {
            if let Some(l) = location_of(line, dir.as_slice()) {
                if let Some(t) = find_error_text(&lines, i + 1) {
                    push_message(&mut errors, single(t, l));
                }
            }
        }
        assert(messages_view(errors@) =~= before + dune_at(views(lines@), dir@, i as int));
        i += 1;
    }
    errors
}

} // verus!
