//! Maven: compiler errors while building, failed tests while testing.

use crate::text::{
    chars_of, concat, contains, contains_str, drop_last_byte, dropped_last_byte, ends_with,
    is_prefix, is_suffix, lemma_skip_bytes_suffix, lines_of, log_lines, matches_at,
    number_or_zero, number_or_zero_of, replace_char, replaced_char, skip_bytes, skipped_bytes,
    split_first, split_first_str, split_once, starts_with, strip_prefix, strip_prefix_str, trim,
    trimmed, views,
};
use crate::types::{
    location, message_at, messages_view, opt_location_view, opt_message_view, opt_msgs,
    push_found, single, Location, LocationView, Message, MessageView, new_location,
};
use itertools::Itertools;
use vstd::prelude::*;

verus! {

/// The location of a compiler error, `path:[row,col]`, where the path may
/// begin with a drive letter (`C:`).
pub open spec fn compilation_location(loc: Seq<char>) -> Option<LocationView> {
    let (drive, rest) = if loc.len() > 1 && loc[1] == ':' {
        match skip_bytes(loc, 2) {
            Some(rest) => (loc.subrange(0, loc.len() - rest.len()), rest),
            None => (Seq::empty(), Seq::empty()),
        }
    } else {
        (Seq::empty(), loc)
    };
    if loc.len() > 1 && loc[1] == ':' && skip_bytes(loc, 2) is None {
        None
    } else {
        match split_once(rest, seq![':']) {
            Some((path, bracketed)) => match skip_bytes(bracketed, 1) {
                Some(b) => match drop_last_byte(b) {
                    Some(row_col) => match split_once(row_col, seq![',']) {
                        Some((row, col)) => Some(
                            location(drive + path, number_or_zero(row), number_or_zero(col)),
                        ),
                        None => None,
                    },
                    None => None,
                },
                None => None,
            },
            None => None,
        }
    }
}

/// A compiler error: `[ERROR] path:[row,col] text`.
pub open spec fn compilation_error(line: Seq<char>) -> Option<MessageView> {
    match strip_prefix(line, "[ERROR] "@) {
        Some(e) => match split_once(e, seq![' ']) {
            Some((loc, _)) => match compilation_location(loc) {
                Some(l) => match split_once(e, "] "@) {
                    Some((_, text)) => Some(message_at(text, l)),
                    None => None,
                },
                None => None,
            },
            None => None,
        },
        None => None,
    }
}

/// The class named in a stack frame `pkg.Class.method(Class.java:row)`.
pub open spec fn frame_class(frame: Seq<char>) -> Option<Seq<char>> {
    match split_once(frame, seq!['(']) {
        Some((_, inner)) => match split_once(inner, seq!['.']) {
            Some((class, _)) => Some(class),
            None => None,
        },
        None => None,
    }
}

/// The row named in a stack frame `pkg.Class.method(Class.java:row)`: the
/// text after the first colon, without a closing parenthesis; 0 where it is
/// not a number.
pub open spec fn frame_row(frame: Seq<char>) -> Option<usize> {
    match split_once(frame, seq![':']) {
        Some((_, inner)) => Some(number_or_zero(without_paren(inner))),
        None => None,
    }
}

/// `s` without a last `)`, when it ends with one.
pub open spec fn without_paren(s: Seq<char>) -> Seq<char> {
    if s.len() > 0 && s.last() == ')' {
        s.drop_last()
    } else {
        s
    }
}

/// The test source that a stack frame points into:
/// `dir/src/test/java/<package as path><Class>.java`.
pub open spec fn test_location(frame: Seq<char>, dir: Seq<char>) -> Option<LocationView> {
    match frame_class(frame) {
        Some(class) => match split_once(frame, class) {
            Some((class_path, _)) => match frame_row(frame) {
                Some(row) => Some(
                    location(
                        dir + "/src/test/java/"@ + replace_char(class_path, '.', '/') + class
                            + ".java"@,
                        row,
                        0,
                    ),
                ),
                None => None,
            },
            None => None,
        },
        None => None,
    }
}

/// The failed test whose report begins after line `k - 1`: the text lines
/// gathered into `text` until the first stack frame outside JUnit, whose
/// location the message takes. The next failure ends the search.
pub open spec fn failed_test(
    lines: Seq<Seq<char>>,
    dir: Seq<char>,
    k: int,
    text: Seq<char>,
) -> Option<MessageView>
    decreases lines.len() - k,
{
    if k < 0 || k >= lines.len() {
        None
    } else if is_suffix("<<< FAILURE!"@, lines[k]) {
        None
    } else {
        let t = trim(lines[k]);
        match strip_prefix(t, "at "@) {
            Some(frame) => if is_prefix("org.junit"@, frame) {
                failed_test(lines, dir, k + 1, text)
            } else {
                match test_location(frame, dir) {
                    Some(l) => Some(message_at(text, l)),
                    None => None,
                }
            },
            None => failed_test(
                lines,
                dir,
                k + 1,
                if !is_prefix("[ERROR] "@, t) && !is_prefix("-> at"@, t) {
                    text + t
                } else {
                    text
                },
            ),
        }
    }
}

/// The messages that line `i` starts.
pub open spec fn maven_at(lines: Seq<Seq<char>>, dir: Seq<char>, i: int) -> Seq<MessageView> {
    let line = lines[i];
    (if is_prefix("[ERROR] "@ + dir, line) {
        opt_msgs(compilation_error(line))
    } else {
        Seq::empty()
    }) + (if contains(line, "<<< FAILURE!"@) {
        opt_msgs(failed_test(lines, dir, i + 1, Seq::empty()))
    } else {
        Seq::empty()
    })
}

/// The messages of the first `n` lines, repeats included.
pub open spec fn maven_upto(lines: Seq<Seq<char>>, dir: Seq<char>, n: int) -> Seq<MessageView>
    decreases n,
{
    if n <= 0 {
        Seq::empty()
    } else {
        maven_upto(lines, dir, n - 1) + maven_at(lines, dir, n - 1)
    }
}

/// `s` with every message that already occurred earlier removed.
pub open spec fn without_repeats(s: Seq<MessageView>) -> Seq<MessageView>
    decreases s.len(),
{
    if s.len() == 0 {
        s
    } else if s.drop_last().contains(s.last()) {
        without_repeats(s.drop_last())
    } else {
        without_repeats(s.drop_last()).push(s.last())
    }
}

/// The messages of a Maven log, each once.
pub open spec fn maven_messages(lines: Seq<Seq<char>>, dir: Seq<char>) -> Seq<MessageView> {
    without_repeats(maven_upto(lines, dir, lines.len() as int))
}

/// Relies on itertools' `Itertools::unique`: it yields, in order, each element
/// that is not equal to one it yielded before. Messages compare field by field,
/// by derived `PartialEq`, so two are equal exactly when their views are.
#[verifier::external_body]
fn unique_messages(v: Vec<Message>) -> (r: Vec<Message>)
    ensures
        messages_view(r@) == without_repeats(messages_view(v@)),
{
    v.into_iter().unique().collect()
}

fn parse_compilation_location(loc: &[char]) -> (r: Option<Location>)
    ensures
        opt_location_view(r) == compilation_location(loc@),
{
    let (drive, rest) = if loc.len() > 1 && loc[1] == ':' {
        let rest = skipped_bytes(loc, 2)?;
        proof {
            lemma_skip_bytes_suffix(loc@, 2);
        }
        (vstd::slice::slice_subrange(loc, 0, loc.len() - rest.len()), rest)
    } else {
        let empty: &[char] = &[];
        assert(empty@ =~= Seq::<char>::empty());
        (empty, loc)
    };
    let colon = [':'];
    assert(colon@ =~= seq![':']);
    let (path, bracketed) = split_first(rest, colon.as_slice())?;
    let b = skipped_bytes(bracketed, 1)?;
    let row_col = dropped_last_byte(b)?;
    let comma = [','];
    assert(comma@ =~= seq![',']);
    let (row, col) = split_first(row_col, comma.as_slice())?;
    let full = concat(drive, path);
    Some(new_location(full.as_slice(), number_or_zero_of(row), number_or_zero_of(col)))
}

fn parse_compilation_error(line: &[char]) -> (r: Option<Message>)
    ensures
        opt_message_view(r) == compilation_error(line@),
{
    let e = strip_prefix_str(line, "[ERROR] ")?;
    let space = [' '];
    assert(space@ =~= seq![' ']);
    let (loc, _) = split_first(e, space.as_slice())?;
    let l = parse_compilation_location(loc)?;
    let (_, text) = split_first_str(e, "] ")?;
    Some(single(text, l))
}

fn test_location_of(frame: &[char], dir: &[char]) -> (r: Option<Location>)
    ensures
        opt_location_view(r) == test_location(frame@, dir@),
{
    let paren = ['('];
    assert(paren@ =~= seq!['(']);
    let dot = ['.'];
    assert(dot@ =~= seq!['.']);
    let colon = [':'];
    assert(colon@ =~= seq![':']);
    let (_, inner) = split_first(frame, paren.as_slice())?;
    let (class, _) = split_first(inner, dot.as_slice())?;
    let (class_path, _) = split_first(frame, class)?;
    let (_, row_part) = split_first(frame, colon.as_slice())?;
    let row = if row_part.len() > 0 && row_part[row_part.len() - 1] == ')' {
        vstd::slice::slice_subrange(row_part, 0, row_part.len() - 1)
    } else {
        row_part
    };
    assert(row@ == without_paren(row_part@));
    let row = number_or_zero_of(row);
    let prefix = chars_of("/src/test/java/");
    let suffix = chars_of(".java");
    let base = concat(dir, prefix.as_slice());
    let as_path = replaced_char(class_path, '.', '/');
    let with_path = concat(base.as_slice(), as_path.as_slice());
    let with_class = concat(with_path.as_slice(), class);
    let full_path = concat(with_class.as_slice(), suffix.as_slice());
    Some(new_location(full_path.as_slice(), row, 0))
}

fn parse_test_exception(index: usize, lines: &Vec<Vec<char>>, dir: &[char]) -> (r: Option<
    Message,
>)
    requires
        index < lines.len(),
    ensures
        opt_message_view(r) == failed_test(views(lines@), dir@, index + 1, Seq::empty()),
{
    let mut text: Vec<char> = Vec::new();
    let mut k: usize = index + 1;
    while k < lines.len()
        invariant
            index < k <= lines.len(),
            failed_test(views(lines@), dir@, index + 1, Seq::empty()) == failed_test(
                views(lines@),
                dir@,
                k as int,
                text@,
            ),
        decreases lines.len() - k,
    {
        let line = lines[k].as_slice();
        assert(line@ == views(lines@)[k as int]);
        if ends_with(line, "<<< FAILURE!") {
            return None;
        }
        let t = trimmed(line);
        match strip_prefix_str(t, "at ") {
            Some(frame) => {
                if !starts_with(frame, "org.junit") {
                    let l = test_location_of(frame, dir)?;
                    return Some(single(text.as_slice(), l));
                }
            },
            None => {
                if !starts_with(t, "[ERROR] ") && !starts_with(t, "-> at") {
                    text = concat(text.as_slice(), t);
                }
            },
        }
        k += 1;
    }
    None
}

/// The test source that a stack frame `pkg.Class.method(Class.java:row)`
/// points into, under `project_dir`.
pub fn parse_test_location(location: &str, project_dir: &str) -> (r: Option<Location>)
    ensures
        opt_location_view(r) == test_location(location@, project_dir@),
{
    let l = chars_of(location);
    let d = chars_of(project_dir);
    test_location_of(l.as_slice(), d.as_slice())
}

/// Finds Maven's compiler errors and failed tests in `log`; a message that
/// Maven repeats is kept once, where it first occurs.
pub fn analyse(log: &str, project_dir: &str) -> (r: Vec<Message>)
    ensures
        messages_view(r@) == maven_messages(lines_of(log@), project_dir@),
{
    let lines = log_lines(log);
    let dir = chars_of(project_dir);
    let tag = chars_of("[ERROR] ");
    let beginning = concat(tag.as_slice(), dir.as_slice());
    let mut errors: Vec<Message> = Vec::new();
    let mut i: usize = 0;
    while i < lines.len()
        invariant
            i <= lines.len(),
            views(lines@) == lines_of(log@),
            dir@ == project_dir@,
            beginning@ == "[ERROR] "@ + dir@,
            messages_view(errors@) == maven_upto(views(lines@), dir@, i as int),
        decreases lines.len() - i,
    {
        let line = lines[i].as_slice();
        assert(line@ == views(lines@)[i as int]);
        let ghost before = messages_view(errors@);
        if matches_at(line, beginning.as_slice(), 0) {
            push_found(&mut errors, parse_compilation_error(line));
        }
        let ghost middle = messages_view(errors@);
        if contains_str(line, "<<< FAILURE!") {
            push_found(&mut errors, parse_test_exception(i, &lines, dir.as_slice()));
        }
        assert(messages_view(errors@) =~= before + maven_at(views(lines@), dir@, i as int));
        i += 1;
    }
    unique_messages(errors)
}

} // verus!
