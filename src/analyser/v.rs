//! V: `file:row:col: error: text` and `file:row:col: details: text`.

use crate::text::{
    chars_of, lines_of, log_lines, number_or_zero, number_or_zero_of, split_first, split_first_str,
    split_once, views,
};
use crate::types::{
    location, message_at, messages_view, opt_message_view, opt_msgs, push_found, qualified,
    qualify, single, Message, MessageView, new_location,
};
use vstd::prelude::*;

verus! {

/// A diagnostic `file:row:col<delimiter>text`, the file taken relative to
/// `dir`.
pub open spec fn delimited(line: Seq<char>, delimiter: Seq<char>, dir: Seq<char>) -> Option<
    MessageView,
> {
    match split_once(line, delimiter) {
        Some((loc, text)) => match split_once(loc, seq![':']) {
            Some((file, rc)) => match split_once(rc, seq![':']) {
                Some((row, col)) => Some(
                    message_at(
                        text,
                        location(qualify(dir, file), number_or_zero(row), number_or_zero(col)),
                    ),
                ),
                None => None,
            },
            None => None,
        },
        None => None,
    }
}

/// The messages of one line: an error, then details.
pub open spec fn v_line(line: Seq<char>, dir: Seq<char>) -> Seq<MessageView> {
    opt_msgs(delimited(line, ": error: "@, dir)) + opt_msgs(delimited(line, ": details: "@, dir))
}

/// The messages of the first `n` lines.
pub open spec fn v_upto(lines: Seq<Seq<char>>, dir: Seq<char>, n: int) -> Seq<MessageView>
    decreases n,
{
    if n <= 0 {
        Seq::empty()
    } else {
        v_upto(lines, dir, n - 1) + v_line(lines[n - 1], dir)
    }
}

/// The messages of a V log.
pub open spec fn v_messages(lines: Seq<Seq<char>>, dir: Seq<char>) -> Seq<MessageView> {
    v_upto(lines, dir, lines.len() as int)
}

/// A diagnostic `file:row:col<delimiter>text`.
pub(crate) fn parse_delimited(line: &[char], delimiter: &str, dir: &[char]) -> (r: Option<Message>)
    ensures
        opt_message_view(r) == delimited(line@, delimiter@, dir@),
{
    let (loc, text) = split_first_str(line, delimiter)?;
    let colon = [':'];
    assert(colon@ =~= seq![':']);
    let (file, rc) = split_first(loc, colon.as_slice())?;
    let (row, col) = split_first(rc, colon.as_slice())?;
    let path = qualified(dir, file);
    let l = new_location(path.as_slice(), number_or_zero_of(row), number_or_zero_of(col));
    Some(single(text, l))
}

/// Finds V's errors and details in `log`, with files taken relative to
/// `project_dir`.
pub fn analyse(log: &str, project_dir: &str) -> (r: Vec<Message>)
    ensures
        messages_view(r@) == v_messages(lines_of(log@), project_dir@),
{
    let lines = log_lines(log);
    let dir = chars_of(project_dir);
    let mut errors: Vec<Message> = Vec::new();
    let mut i: usize = 0;
    while i < lines.len()
        invariant
            i <= lines.len(),
            views(lines@) == lines_of(log@),
            dir@ == project_dir@,
            messages_view(errors@) == v_upto(views(lines@), dir@, i as int),
        decreases lines.len() - i,
    {
        let ghost before = messages_view(errors@);
        let line = lines[i].as_slice();
        push_found(&mut errors, parse_delimited(line, ": error: ", dir.as_slice()));
        push_found(&mut errors, parse_delimited(line, ": details: ", dir.as_slice()));
        assert(messages_view(errors@) =~= before + v_line(views(lines@)[i as int], dir@));
        i += 1;
    }
    errors
}

} // verus!
