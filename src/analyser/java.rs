//! Java exceptions: a header line with the error, then the stack frames;
//! frames in the project's package become locations.

use crate::text::{
    chars_of, concat, contains, contains_str, drop_last_byte, dropped_last_byte, is_prefix,
    lines_of, log_lines, matches_at, number_or_zero, number_or_zero_of, replace_char,
    replaced_char, rfind, skip_bytes, skipped_bytes, split_first, split_first_str, split_once,
    starts_with, trim, trimmed, views,
};
use crate::types::{
    location, locations_view, messages_view, opt_location_view, opt_message_view, opt_msgs,
    push_found, Location, LocationView, Message, MessageView, new_location,
};
use vstd::prelude::*;

verus! {

/// The source file of a class: `dir/src/main/java/<class as path>.java`.
pub open spec fn class_file(class: Seq<char>, dir: Seq<char>) -> Seq<char> {
    dir + "/src/main/java/"@ + replace_char(class, '.', '/') + ".java"@
}

/// A qualified symbol without its last component (the method).
pub open spec fn without_member(symbol: Seq<char>) -> Option<Seq<char>> {
    match rfind(symbol, seq!['.']) {
        Some(i) => Some(symbol.subrange(0, i)),
        None => None,
    }
}

/// The row in `File.java:row)`; 0 where it is not a number, none where
/// there is no colon.
pub open spec fn frame_row(rest: Seq<char>) -> Option<usize> {
    match drop_last_byte(rest) {
        Some(r) => match split_once(r, seq![':']) {
            Some((_, row)) => Some(number_or_zero(row)),
            None => None,
        },
        None => None,
    }
}

/// The location of one frame `at pkg.Class.method(Class.java:row)`, when
/// the frame's symbol begins with `package` and it names a row.
pub open spec fn frame_location(line: Seq<char>, dir: Seq<char>, package: Seq<char>) -> Option<
    LocationView,
> {
    match skip_bytes(trim(line), 3) {
        Some(frame) => if !is_prefix(package, frame) {
            None
        } else {
            match split_once(frame, seq!['(']) {
                Some((symbol, rest)) => match without_member(symbol) {
                    Some(class) => match frame_row(rest) {
                        Some(row) => Some(location(class_file(class, dir), row, 0)),
                        None => None,
                    },
                    None => None,
                },
                None => None,
            }
        },
        None => None,
    }
}

/// The locations of the frames on lines `k` to `end`.
pub open spec fn frame_locations(
    lines: Seq<Seq<char>>,
    dir: Seq<char>,
    package: Seq<char>,
    k: int,
    end: int,
) -> Seq<LocationView>
    decreases end + 1 - k,
{
    if k < 0 || k > end || k >= lines.len() {
        Seq::empty()
    } else {
        (match frame_location(lines[k], dir, package) {
            Some(l) => seq![l],
            None => Seq::empty(),
        }) + frame_locations(lines, dir, package, k + 1, end)
    }
}

/// Whether line `k` is a stack frame.
pub open spec fn is_frame(lines: Seq<Seq<char>>, k: int) -> bool {
    is_prefix("at "@, trim(lines[k]))
}

/// The last line of the frames that follow a header, from line `y` on: one
/// line that is not a frame is passed over when a frame follows it.
pub open spec fn block_end(lines: Seq<Seq<char>>, y: int, end: int) -> int
    decreases lines.len() - y,
{
    if y < 0 || y >= lines.len() {
        end
    } else if !is_frame(lines, y) && y + 1 < lines.len() && !is_frame(lines, y + 1) {
        end
    } else {
        block_end(lines, y + 1, y)
    }
}

/// The exception of the lines `i` to `end`: the header's text after its
/// first `": "`, with the locations of the frames in `package`.
pub open spec fn exception(
    lines: Seq<Seq<char>>,
    dir: Seq<char>,
    package: Seq<char>,
    i: int,
    end: int,
) -> Option<MessageView> {
    match split_once(lines[i], ": "@) {
        Some((_, text)) => Some(
            MessageView { error: text, locations: frame_locations(lines, dir, package, i + 1, end) },
        ),
        None => None,
    }
}

/// Whether line `i` is the header of an exception.
pub open spec fn is_header(line: Seq<char>) -> bool {
    let t = trim(line);
    (contains(t, "Error: "@) || contains(t, "Exception: "@)) && !is_prefix("Caused by:"@, t)
}

/// The message that line `i` starts.
pub open spec fn java_at(lines: Seq<Seq<char>>, dir: Seq<char>, package: Seq<char>, i: int) -> Seq<
    MessageView,
> {
    if is_header(lines[i]) {
        let end = block_end(lines, i + 1, 0);
        if end != 0 {
            opt_msgs(exception(lines, dir, package, i, end))
        } else {
            Seq::empty()
        }
    } else {
        Seq::empty()
    }
}

/// The messages of lines 1 to `n - 1`; the first line is never a header.
pub open spec fn java_upto(lines: Seq<Seq<char>>, dir: Seq<char>, package: Seq<char>, n: int) -> Seq<
    MessageView,
>
    decreases n,
{
    if n <= 1 {
        Seq::empty()
    } else {
        java_upto(lines, dir, package, n - 1) + java_at(lines, dir, package, n - 1)
    }
}

/// The messages of a log with Java exceptions.
pub open spec fn java_messages(lines: Seq<Seq<char>>, dir: Seq<char>, package: Seq<char>) -> Seq<
    MessageView,
> {
    java_upto(lines, dir, package, lines.len() as int)
}

fn parse_frame(line: &[char], dir: &[char], package: &[char]) -> (r: Option<Location>)
    ensures
        opt_location_view(r) == frame_location(line@, dir@, package@),
{
    let frame = skipped_bytes(trimmed(line), 3)?;
    if !matches_at(frame, package, 0) {
        return None;
    }
    let paren = ['('];
    assert(paren@ =~= seq!['(']);
    let (symbol, rest) = split_first(frame, paren.as_slice())?;
    let dot = ['.'];
    assert(dot@ =~= seq!['.']);
    let (class, _) = crate::text::split_last(symbol, dot.as_slice())?;
    let r = dropped_last_byte(rest)?;
    let colon = [':'];
    assert(colon@ =~= seq![':']);
    let (_, row) = split_first(r, colon.as_slice())?;
    let prefix = chars_of("/src/main/java/");
    let suffix = chars_of(".java");
    let base = concat(dir, prefix.as_slice());
    let as_path = replaced_char(class, '.', '/');
    let with_path = concat(base.as_slice(), as_path.as_slice());
    let with_class = concat(with_path.as_slice(), suffix.as_slice());
    Some(new_location(with_class.as_slice(), number_or_zero_of(row), 0))
}

fn is_frame_line(lines: &Vec<Vec<char>>, k: usize) -> (r: bool)
    requires
        k < lines.len(),
    ensures
        r == is_frame(views(lines@), k as int),
{
    starts_with(trimmed(lines[k].as_slice()), "at ")
}

fn parse_exception(
    lines: &Vec<Vec<char>>,
    dir: &[char],
    package: &[char],
    i: usize,
    end: usize,
) -> (r: Option<Message>)
    requires
        i < lines.len(),
    ensures
        opt_message_view(r) == exception(views(lines@), dir@, package@, i as int, end as int),
{
    let (_, text) = split_first_str(lines[i].as_slice(), ": ")?;
    let mut locations: Vec<Location> = Vec::new();
    let mut k: usize = i + 1;
    while k <= end && k < lines.len()
        invariant
            i < k,
            locations_view(locations@) + frame_locations(
                views(lines@),
                dir@,
                package@,
                k as int,
                end as int,
            ) == frame_locations(views(lines@), dir@, package@, i + 1, end as int),
        decreases lines.len() - k,
    {
        let ghost before = locations_view(locations@);
        if let Some(l) = parse_frame(lines[k].as_slice(), dir, package) {
            locations.push(l);
        }
        assert(locations_view(locations@) =~= before + (match frame_location(
            views(lines@)[k as int],
            dir@,
            package@,
        ) {
            Some(l) => seq![l],
            None => Seq::empty(),
        }));
        k += 1;
    }
    assert(locations_view(locations@) =~= frame_locations(
        views(lines@),
        dir@,
        package@,
        i + 1,
        end as int,
    ));
    Some(Message { error: crate::text::string_of(text), locations })
}

fn find_block_end(lines: &Vec<Vec<char>>, start: usize) -> (r: usize)
    ensures
        r as int == block_end(views(lines@), start as int, 0),
        r == 0 || r < lines.len(),
{
    let mut end: usize = 0;
    let mut y: usize = start;
    while y < lines.len()
        invariant
            end == 0 || end < lines.len(),
            block_end(views(lines@), start as int, 0) == block_end(
                views(lines@),
                y as int,
                end as int,
            ),
        decreases lines.len() - y,
    {
        if !is_frame_line(lines, y) && y + 1 < lines.len() && !is_frame_line(lines, y + 1) {
            return end;
        }
        end = y;
        y += 1;
    }
    end
}

/// Finds Java exceptions in `log`; frames whose symbol begins with
/// `package` give the locations, under `project_dir`.
pub fn analyse(log: &str, project_dir: &str, package: &str) -> (r: Vec<Message>)
    ensures
        messages_view(r@) == java_messages(lines_of(log@), project_dir@, package@),
{
    let lines = log_lines(log);
    let dir = chars_of(project_dir);
    let pkg = chars_of(package);
    let mut errors: Vec<Message> = Vec::new();
    if lines.len() == 0 {
        return errors;
    }
    let mut i: usize = 1;
    while i < lines.len()
        invariant
            1 <= i <= lines.len(),
            views(lines@) == lines_of(log@),
            dir@ == project_dir@,
            pkg@ == package@,
            messages_view(errors@) == java_upto(views(lines@), dir@, pkg@, i as int),
        decreases lines.len() - i,
    {
        let t = trimmed(lines[i].as_slice());
        let ghost before = messages_view(errors@);
        if (contains_str(t, "Error: ") || contains_str(t, "Exception: ")) && !starts_with(
            t,
            "Caused by:",
        ) {
            let end = find_block_end(&lines, i + 1);
            if end != 0 {
                push_found(
                    &mut errors,
                    parse_exception(&lines, dir.as_slice(), pkg.as_slice(), i, end),
                );
            }
        }
        assert(messages_view(errors@) =~= before + java_at(views(lines@), dir@, pkg@, i as int));
        i += 1;
    }
    errors
}

} // verus!
