//! Nix formatting checks: `Failed! N error found at:`, then `- path: text`
//! entries, each followed by a line that names the failing row.

use crate::text::{
    chars_of, concat, ends_with, is_prefix, is_suffix, lines_of, log_lines, parse_number,
    parse_usize, split_first, split_first_str, split_once, starts_with, trim_start_matches,
    trimmed_start_matches, views,
};
use crate::types::{
    location, message_at, messages_view, opt_message_view, opt_msgs, push_found, single, Message,
    MessageView, new_location,
};
use vstd::prelude::*;

verus! {

/// The row in `… failed on line N …`.
pub open spec fn failed_row(line: Seq<char>) -> Option<usize> {
    match split_once(line, " failed on line "@) {
        Some((_, rest)) => parse_usize(
            match split_once(rest, seq![' ']) {
                Some((w, _)) => w,
                None => rest,
            },
        ),
        None => None,
    }
}

/// `path` with its first `./` replaced by the directory `dir`.
pub open spec fn rooted(path: Seq<char>, dir: Seq<char>) -> Seq<char> {
    match split_once(path, "./"@) {
        Some((before, after)) => before + dir + seq!['/'] + after,
        None => path,
    }
}

/// An entry `- path: text` whose error is at `row`.
pub open spec fn entry(line: Seq<char>, row: usize, dir: Seq<char>) -> Option<MessageView> {
    match split_once(trim_start_matches(line, "- "@), ": "@) {
        Some((path, text)) => Some(message_at(text, location(rooted(path, dir), row, 0))),
        None => None,
    }
}

/// The entries from line `k` on, as long as lines begin with `- `.
pub open spec fn entries(lines: Seq<Seq<char>>, dir: Seq<char>, k: int) -> Seq<MessageView>
    decreases lines.len() - k,
{
    if k < 0 || k >= lines.len() || !is_prefix("- "@, lines[k]) {
        Seq::empty()
    } else {
        (if k + 1 < lines.len() {
            match failed_row(lines[k + 1]) {
                Some(row) => opt_msgs(entry(lines[k], row, dir)),
                None => Seq::empty(),
            }
        } else {
            Seq::empty()
        }) + entries(lines, dir, k + 1)
    }
}

/// The messages that line `i` starts.
pub open spec fn nix_at(lines: Seq<Seq<char>>, dir: Seq<char>, i: int) -> Seq<MessageView> {
    if is_prefix("Failed! "@, lines[i]) && is_suffix(" error found at:"@, lines[i]) {
        entries(lines, dir, i + 1)
    } else {
        Seq::empty()
    }
}

/// The messages of the first `n` lines.
pub open spec fn nix_upto(lines: Seq<Seq<char>>, dir: Seq<char>, n: int) -> Seq<MessageView>
    decreases n,
{
    if n <= 0 {
        Seq::empty()
    } else {
        nix_upto(lines, dir, n - 1) + nix_at(lines, dir, n - 1)
    }
}

/// The messages of a Nix log.
pub open spec fn nix_messages(lines: Seq<Seq<char>>, dir: Seq<char>) -> Seq<MessageView> {
    nix_upto(lines, dir, lines.len() as int)
}

fn parse_failed_row(line: &[char]) -> (r: Option<usize>)
    ensures
        r == failed_row(line@),
{
    let (_, rest) = split_first_str(line, " failed on line ")?;
    let space = [' '];
    assert(space@ =~= seq![' ']);
    let word = match split_first(rest, space.as_slice()) {
        Some((w, _)) => w,
        None => rest,
    };
    parse_number(word)
}

fn parse_entry(line: &[char], row: usize, dir: &[char]) -> (r: Option<Message>)
    ensures
        opt_message_view(r) == entry(line@, row, dir@),
{
    let l = trimmed_start_matches(line, "- ");
    let (path, text) = split_first_str(l, ": ")?;
    let full = match split_first_str(path, "./") {
        Some((before, after)) => {
            let slash = ['/'];
            assert(slash@ =~= seq!['/']);
            let a = concat(before, dir);
            let b = concat(a.as_slice(), slash.as_slice());
            concat(b.as_slice(), after)
        },
        None => vstd::slice::slice_to_vec(path),
    };
    assert(full@ =~= rooted(path@, dir@));
    let loc = new_location(full.as_slice(), row, 0);
    Some(single(text, loc))
}

fn parse_entries(lines: &Vec<Vec<char>>, dir: &[char], start: usize, errors: &mut Vec<Message>)
    ensures
        messages_view(final(errors)@) == messages_view(old(errors)@) + entries(
            views(lines@),
            dir@,
            start as int,
        ),
{
    let mut k: usize = start;
    while k < lines.len() && starts_with(lines[k].as_slice(), "- ")
        invariant
            start <= k,
            messages_view(errors@) + entries(views(lines@), dir@, k as int) == messages_view(
                old(errors)@,
            ) + entries(views(lines@), dir@, start as int),
        decreases lines.len() - k,
    {
        let ghost before = messages_view(errors@);
        if lines.len() - k > 1 {
            if let Some(row) = parse_failed_row(lines[k + 1].as_slice()) {
                push_found(errors, parse_entry(lines[k].as_slice(), row, dir));
            }
        }
        assert(messages_view(errors@) + entries(views(lines@), dir@, k + 1) =~= before + entries(
            views(lines@),
            dir@,
            k as int,
        ));
        k += 1;
    }
    assert(messages_view(errors@) =~= messages_view(errors@) + entries(
        views(lines@),
        dir@,
        k as int,
    ));
}

/// Finds the failures of Nix's formatting check in `log`, with paths taken
/// from `project_dir`.
pub fn analyse(log: &str, project_dir: &str) -> (r: Vec<Message>)
    ensures
        messages_view(r@) == nix_messages(lines_of(log@), project_dir@),
{
    let lines = log_lines(log);
    let dir = chars_of(project_dir);
    let mut errors: Vec<Message> = Vec::new();
    let mut i: usize = 0;
    while i < lines.len()
        invariant
            i <= lines.len(),
            views(lines@) == lines_of(log@),
            dir@ == project_dir@,
            messages_view(errors@) == nix_upto(views(lines@), dir@, i as int),
        decreases lines.len() - i,
    {
        let ghost before = messages_view(errors@);
        let line = lines[i].as_slice();
        if starts_with(line, "Failed! ") && ends_with(line, " error found at:") {
            parse_entries(&lines, dir.as_slice(), i + 1, &mut errors);
        }
        assert(messages_view(errors@) =~= before + nix_at(views(lines@), dir@, i as int));
        i += 1;
    }
    errors
}

} // verus!
