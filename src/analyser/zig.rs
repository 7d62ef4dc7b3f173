//! Zig: `file:row:col: error: text` and `file:row:col: note: text`.

use crate::analyser::v::{delimited, parse_delimited};
use crate::text::{chars_of, lines_of, log_lines, views};
use crate::types::{messages_view, opt_msgs, push_found, Message, MessageView};
use vstd::prelude::*;

verus! {

/// The messages of one line: an error, then a note.
pub open spec fn zig_line(line: Seq<char>, dir: Seq<char>) -> Seq<MessageView> {
    opt_msgs(delimited(line, ": error: "@, dir)) + opt_msgs(delimited(line, ": note: "@, dir))
}

/// The messages of the first `n` lines.
pub open spec fn zig_upto(lines: Seq<Seq<char>>, dir: Seq<char>, n: int) -> Seq<MessageView>
    decreases n,
{
    if n <= 0 {
        Seq::empty()
    } else {
        zig_upto(lines, dir, n - 1) + zig_line(lines[n - 1], dir)
    }
}

/// The messages of a Zig log.
pub open spec fn zig_messages(lines: Seq<Seq<char>>, dir: Seq<char>) -> Seq<MessageView> {
    zig_upto(lines, dir, lines.len() as int)
}

/// Finds Zig's errors and notes in `log`, with files taken relative to
/// `project_dir`.
pub fn analyse(log: &str, project_dir: &str) -> (r: Vec<Message>)
    ensures
        messages_view(r@) == zig_messages(lines_of(log@), project_dir@),
{
    let lines = log_lines(log);
    let dir = chars_of(project_dir);
    let mut errors: Vec<Message> = Vec::new();
    let mut i: usize = 0;
    while i < lines.len()
        invariant
            i <= lines.len(),
            views(lines@) == lines_of(log@),
            dir@ == project_dir@,
            messages_view(errors@) == zig_upto(views(lines@), dir@, i as int),
        decreases lines.len() - i,
    {
        let ghost before = messages_view(errors@);
        let line = lines[i].as_slice();
        push_found(&mut errors, parse_delimited(line, ": error: ", dir.as_slice()));
        push_found(&mut errors, parse_delimited(line, ": note: ", dir.as_slice()));
        assert(messages_view(errors@) =~= before + zig_line(views(lines@)[i as int], dir@));
        i += 1;
    }
    errors
}

} // verus!
