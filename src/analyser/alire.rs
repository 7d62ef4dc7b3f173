//! Alire (GNAT): `file:row:col: text`, with files under `src/`.

use crate::text::{
    chars_of, concat, lines_of, log_lines, number_or_zero, number_or_zero_of, split_first,
    split_once, trim, trimmed, views,
};
use crate::types::{
    location, message_at, messages_view, opt_message_view, opt_msgs, push_found, single, Message,
    MessageView, new_location,
};
use vstd::prelude::*;

verus! {

/// A diagnostic `file:row:col: text` of a file in `dir/src`.
pub open spec fn alire_line(line: Seq<char>, dir: Seq<char>) -> Option<MessageView> {
    match split_once(line, seq![':']) {
        Some((file, r1)) => match split_once(r1, seq![':']) {
            Some((row, r2)) => match split_once(r2, seq![':']) {
                Some((col, text)) => Some(
                    message_at(
                        trim(text),
                        location(dir + "/src/"@ + file, number_or_zero(row), number_or_zero(col)),
                    ),
                ),
                None => None,
            },
            None => None,
        },
        None => None,
    }
}

/// The messages of the first `n` lines.
pub open spec fn alire_upto(lines: Seq<Seq<char>>, dir: Seq<char>, n: int) -> Seq<MessageView>
    decreases n,
{
    if n <= 0 {
        Seq::empty()
    } else {
        alire_upto(lines, dir, n - 1) + opt_msgs(alire_line(lines[n - 1], dir))
    }
}

/// The messages of an Alire log.
pub open spec fn alire_messages(lines: Seq<Seq<char>>, dir: Seq<char>) -> Seq<MessageView> {
    alire_upto(lines, dir, lines.len() as int)
}

fn parse_line(line: &[char], dir: &[char]) -> (r: Option<Message>)
    ensures
        opt_message_view(r) == alire_line(line@, dir@),
{
    let colon = [':'];
    assert(colon@ =~= seq![':']);
    let (file, r1) = split_first(line, colon.as_slice())?;
    let (row, r2) = split_first(r1, colon.as_slice())?;
    let (col, text) = split_first(r2, colon.as_slice())?;
    let src = chars_of("/src/");
    let base = concat(dir, src.as_slice());
    let path = concat(base.as_slice(), file);
    let l = new_location(path.as_slice(), number_or_zero_of(row), number_or_zero_of(col));
    Some(single(trimmed(text), l))
}

/// Finds Alire's diagnostics in `log`, with files under `project_dir/src`.
pub fn analyse(log: &str, project_dir: &str) -> (r: Vec<Message>)
    ensures
        messages_view(r@) == alire_messages(lines_of(log@), project_dir@),
{
    let lines = log_lines(log);
    let dir = chars_of(project_dir);
    let mut errors: Vec<Message> = Vec::new();
    let mut i: usize = 0;
    while i < lines.len()
        invariant
            i <= lines.len(),
            views(lines@) == lines_of(log@),
            dir@ == project_dir@,
            messages_view(errors@) == alire_upto(views(lines@), dir@, i as int),
        decreases lines.len() - i,
    {
        push_found(&mut errors, parse_line(lines[i].as_slice(), dir.as_slice()));
        i += 1;
    }
    errors
}

} // verus!
