//! ESLint: a line with a file's path, then one line per finding
//! `row:col  severity  text  rule`, up to an empty line.

use crate::text::{
    chars_of, is_prefix, join_words, joined_words, lines_of, log_lines, matches_at, number_or_zero,
    number_or_zero_of, split_first, split_once, trim, trimmed, views, words, words_of,
};
use crate::types::{
    location, message_at, messages_view, opt_message_view, opt_msgs, push_found, single, Message,
    MessageView, new_location,
};
use vstd::prelude::*;

verus! {

/// A finding `row:col severity text rule` in the file `path`: the text is
/// the severity and the words up to the rule.
pub open spec fn lint(t: Seq<char>, path: Seq<char>) -> Option<MessageView> {
    let ws = words(t);
    if ws.len() < 2 {
        None
    } else {
        match split_once(ws[0], seq![':']) {
            Some((row, col)) => Some(
                message_at(
                    join_words(ws.subrange(1, ws.len() - 1)),
                    location(path, number_or_zero(row), number_or_zero(col)),
                ),
            ),
            None => None,
        }
    }
}

/// The findings from line `k` to the next empty line.
pub open spec fn lint_block(lines: Seq<Seq<char>>, path: Seq<char>, k: int) -> Seq<MessageView>
    decreases lines.len() - k,
{
    if k < 0 || k >= lines.len() || trim(lines[k]).len() == 0 {
        Seq::empty()
    } else {
        opt_msgs(lint(trim(lines[k]), path)) + lint_block(lines, path, k + 1)
    }
}

/// The messages that line `i` starts: it names a file of the project.
pub open spec fn eslint_at(lines: Seq<Seq<char>>, dir: Seq<char>, i: int) -> Seq<MessageView> {
    if is_prefix(dir, lines[i]) {
        lint_block(lines, lines[i], i + 1)
    } else {
        Seq::empty()
    }
}

/// The messages of the first `n` lines.
pub open spec fn eslint_upto(lines: Seq<Seq<char>>, dir: Seq<char>, n: int) -> Seq<MessageView>
    decreases n,
{
    if n <= 0 {
        Seq::empty()
    } else {
        eslint_upto(lines, dir, n - 1) + eslint_at(lines, dir, n - 1)
    }
}

/// The messages of an ESLint log.
pub open spec fn eslint_messages(lines: Seq<Seq<char>>, dir: Seq<char>) -> Seq<MessageView> {
    eslint_upto(lines, dir, lines.len() as int)
}

fn parse_lint(t: &[char], path: &[char]) -> (r: Option<Message>)
    ensures
        opt_message_view(r) == lint(t@, path@),
{
    let ws = words_of(t);
    if ws.len() < 2 {
        return None;
    }
    let colon = [':'];
    assert(colon@ =~= seq![':']);
    assert(ws@[0]@ == words(t@)[0]);
    let (row, col) = split_first(ws[0].as_slice(), colon.as_slice())?;
    let middle = vstd::slice::slice_subrange(ws.as_slice(), 1, ws.len() - 1);
    assert(views(middle@) =~= words(t@).subrange(1, words(t@).len() - 1));
    let text = joined_words(middle);
    let loc = new_location(path, number_or_zero_of(row), number_or_zero_of(col));
    Some(single(text.as_slice(), loc))
}

fn parse_block(lines: &Vec<Vec<char>>, path: &[char], start: usize, errors: &mut Vec<Message>)
    ensures
        messages_view(final(errors)@) == messages_view(old(errors)@) + lint_block(
            views(lines@),
            path@,
            start as int,
        ),
{
    let mut k: usize = start;
    while k < lines.len() && trimmed(lines[k].as_slice()).len() > 0
        invariant
            start <= k,
            messages_view(errors@) + lint_block(views(lines@), path@, k as int) == messages_view(
                old(errors)@,
            ) + lint_block(views(lines@), path@, start as int),
        decreases lines.len() - k,
    {
        let ghost before = messages_view(errors@);
        push_found(errors, parse_lint(trimmed(lines[k].as_slice()), path));
        assert(messages_view(errors@) + lint_block(views(lines@), path@, k + 1) =~= before
            + lint_block(views(lines@), path@, k as int));
        k += 1;
    }
    assert(messages_view(errors@) =~= messages_view(errors@) + lint_block(
        views(lines@),
        path@,
        k as int,
    ));
}

/// Finds ESLint's findings in `log`, under the lines that name a file of
/// `project_dir`.
pub fn analyse(log: &str, project_dir: &str) -> (r: Vec<Message>)
    ensures
        messages_view(r@) == eslint_messages(lines_of(log@), project_dir@),
{
    let lines = log_lines(log);
    let dir = chars_of(project_dir);
    let mut errors: Vec<Message> = Vec::new();
    let mut i: usize = 0;
    while i < lines.len()
        invariant
            i <= lines.len(),
            views(lines@) == lines_of(log@),
            dir@ == project_dir@,
            messages_view(errors@) == eslint_upto(views(lines@), dir@, i as int),
        decreases lines.len() - i,
    {
        let ghost before = messages_view(errors@);
        let line = lines[i].as_slice();
        if matches_at(line, dir.as_slice(), 0) {
            parse_block(&lines, line, i + 1, &mut errors);
        }
        assert(messages_view(errors@) =~= before + eslint_at(views(lines@), dir@, i as int));
        i += 1;
    }
    errors
}

} // verus!
