//! Karma with Jasmine: compile errors, exceptions with stack frames, and
//! failed expectations.

use crate::text::{
    chars_of, concat, contains, contains_str, drop_last_byte, dropped_last_byte, ends_with,
    is_prefix, is_suffix, lines_of, log_lines, number_or_zero, number_or_zero_of, skip_bytes,
    skipped_bytes, split_first, split_first_str, split_once, starts_with, trim, trimmed, views,
};
use crate::types::{
    location, locations_view, message_at, messages_view, opt_location_view, opt_message_view,
    opt_msgs, push_found, qualified, qualify, single, Location, LocationView, Message,
    MessageView, new_location,
};
use vstd::prelude::*;

verus! {

/// `path:row:col`, with `path` under `dir`.
pub open spec fn karma_location(loc: Seq<char>, dir: Seq<char>) -> Option<LocationView> {
    match split_once(loc, seq![':']) {
        Some((path, rc)) => match split_once(rc, seq![':']) {
            Some((row, col)) => Some(
                location(qualify(dir, path), number_or_zero(row), number_or_zero(col)),
            ),
            None => None,
        },
        None => None,
    }
}

/// The location in the parentheses that end a frame: `at f (path:row:col)`.
pub open spec fn karma_test_location(frame: Seq<char>, dir: Seq<char>) -> Option<LocationView> {
    match split_once(frame, seq!['(']) {
        Some((_, rest)) => match drop_last_byte(rest) {
            Some(loc) => karma_location(loc, dir),
            None => None,
        },
        None => None,
    }
}

/// The source that a frame names below `/src/`, found after the webpack
/// marker or in parentheses.
pub open spec fn frame_source(inner: Seq<char>) -> Seq<char> {
    let after_marker = match split_once(inner, "_karma_webpack_/webpack:"@) {
        Some((_, w)) => w,
        None => Seq::empty(),
    };
    let found = match split_once(inner, " ("@) {
        Some((_, w)) => if is_prefix("src/"@, w) {
            w
        } else {
            after_marker
        },
        None => after_marker,
    };
    if is_prefix(seq!['/'], found) {
        found
    } else {
        seq!['/'] + found
    }
}

/// The location of one frame of an exception, when it lies in `src/`.
pub open spec fn frame_location(frame: Seq<char>, dir: Seq<char>) -> Option<LocationView> {
    match skip_bytes(frame, 1) {
        Some(f) => match drop_last_byte(f) {
            Some(inner) => {
                let source = frame_source(inner);
                if !is_prefix("/src/"@, source) {
                    None
                } else {
                    match split_once(source, seq![':']) {
                        Some((path, rc)) => match split_once(rc, seq![':']) {
                            Some((row, col)) => Some(
                                location(dir + path, number_or_zero(row), number_or_zero(col)),
                            ),
                            None => None,
                        },
                        None => None,
                    }
                }
            },
            None => None,
        },
        None => None,
    }
}

/// The locations of the frames from line `k` on, as long as lines are frames.
pub open spec fn exception_locations(lines: Seq<Seq<char>>, dir: Seq<char>, k: int) -> Seq<
    LocationView,
>
    decreases lines.len() - k,
{
    if k < 0 || k >= lines.len() || !is_prefix("at "@, trim(lines[k])) {
        Seq::empty()
    } else {
        (match frame_location(trim(lines[k]), dir) {
            Some(l) => seq![l],
            None => Seq::empty(),
        }) + exception_locations(lines, dir, k + 1)
    }
}

/// A compile error `Error: src/…:row:col - error text`.
pub open spec fn build_error(line: Seq<char>, dir: Seq<char>) -> Option<MessageView> {
    match split_once(line, " - error "@) {
        Some((loc, text)) => match skip_bytes(loc, 7) {
            Some(l) => match karma_location(l, dir) {
                Some(l) => Some(message_at(text, l)),
                None => None,
            },
            None => None,
        },
        None => None,
    }
}

/// An exception whose header is line `i`: its text after the first `": "`,
/// and the frames below it.
pub open spec fn exception(lines: Seq<Seq<char>>, dir: Seq<char>, i: int) -> Option<MessageView> {
    match split_once(trim(lines[i]), ": "@) {
        Some((_, text)) => Some(
            MessageView { error: text, locations: exception_locations(lines, dir, i + 1) },
        ),
        None => None,
    }
}

/// The first frame from line `k` on that points into `src/app` after a
/// failed test, skipping the expectation text and its continuation.
pub open spec fn failed_expectation(
    lines: Seq<Seq<char>>,
    dir: Seq<char>,
    text: Seq<char>,
    k: int,
) -> Option<MessageView>
    decreases lines.len() - k,
{
    if k < 1 || k >= lines.len() {
        None
    } else {
        let t = trim(lines[k]);
        let prev = trim(lines[k - 1]);
        if is_prefix("Expected "@, t) || is_prefix("Error: "@, t) {
            failed_expectation(lines, dir, text, k + 1)
        } else if (is_prefix("Expected "@, prev) || is_prefix("Error: "@, prev)) && !contains(
            t,
            "(src/app"@,
        ) {
            failed_expectation(lines, dir, text, k + 1)
        } else if !is_prefix("at "@, t) {
            None
        } else if contains(t, "(src/app"@) {
            match karma_test_location(t, dir) {
                Some(l) => Some(message_at(text, l)),
                None => failed_expectation(lines, dir, text, k + 1),
            }
        } else {
            failed_expectation(lines, dir, text, k + 1)
        }
    }
}

/// The messages that line `i` starts.
pub open spec fn karma_at(lines: Seq<Seq<char>>, dir: Seq<char>, i: int) -> Seq<MessageView> {
    let line = lines[i];
    let t = trim(line);
    (if is_prefix("Error: "@, t) || is_prefix("Usage:"@, t) || is_prefix("TypeError:"@, t) {
        if is_prefix("Error: src"@, t) {
            opt_msgs(build_error(t, dir))
        } else {
            opt_msgs(exception(lines, dir, i))
        }
    } else {
        Seq::empty()
    }) + (if is_suffix(" FAILED"@, line) && i + 1 < lines.len() {
        opt_msgs(failed_expectation(lines, dir, trim(lines[i + 1]), i + 2))
    } else {
        Seq::empty()
    })
}

/// The messages of the first `n` lines.
pub open spec fn karma_upto(lines: Seq<Seq<char>>, dir: Seq<char>, n: int) -> Seq<MessageView>
    decreases n,
{
    if n <= 0 {
        Seq::empty()
    } else {
        karma_upto(lines, dir, n - 1) + karma_at(lines, dir, n - 1)
    }
}

/// The messages of a Karma log.
pub open spec fn karma_messages(lines: Seq<Seq<char>>, dir: Seq<char>) -> Seq<MessageView> {
    karma_upto(lines, dir, lines.len() as int)
}

fn location_of(loc: &[char], dir: &[char]) -> (r: Option<Location>)
    ensures
        opt_location_view(r) == karma_location(loc@, dir@),
{
    let colon = [':'];
    assert(colon@ =~= seq![':']);
    let (path, rc) = split_first(loc, colon.as_slice())?;
    let (row, col) = split_first(rc, colon.as_slice())?;
    let full = qualified(dir, path);
    Some(new_location(full.as_slice(), number_or_zero_of(row), number_or_zero_of(col)))
}

fn parse_test_location(frame: &[char], dir: &[char]) -> (r: Option<Location>)
    ensures
        opt_location_view(r) == karma_test_location(frame@, dir@),
{
    let paren = ['('];
    assert(paren@ =~= seq!['(']);
    let (_, rest) = split_first(frame, paren.as_slice())?;
    let loc = dropped_last_byte(rest)?;
    location_of(loc, dir)
}

fn parse_frame(frame: &[char], dir: &[char]) -> (r: Option<Location>)
    ensures
        opt_location_view(r) == frame_location(frame@, dir@),
{
    let f = skipped_bytes(frame, 1)?;
    let inner = dropped_last_byte(f)?;
    let mut source: &[char] = &[];
    assert(source@ =~= Seq::<char>::empty());
    if let Some((_, w)) = split_first_str(inner, "_karma_webpack_/webpack:") {
        source = w;
    }
    let ghost after_marker = source@;
    if let Some((_, w)) = split_first_str(inner, " (") {
        if starts_with(w, "src/") {
            source = w;
        }
    }
    let slash = ['/'];
    assert(slash@ =~= seq!['/']);
    let rooted = if crate::text::matches_at(source, slash.as_slice(), 0) {
        vstd::slice::slice_to_vec(source)
    } else {
        concat(slash.as_slice(), source)
    };
    assert(rooted@ == frame_source(inner@));
    if !starts_with(rooted.as_slice(), "/src/") {
        return None;
    }
    let colon = [':'];
    assert(colon@ =~= seq![':']);
    let (path, rc) = split_first(rooted.as_slice(), colon.as_slice())?;
    let (row, col) = split_first(rc, colon.as_slice())?;
    let full = concat(dir, path);
    Some(new_location(full.as_slice(), number_or_zero_of(row), number_or_zero_of(col)))
}

fn parse_exception(lines: &Vec<Vec<char>>, dir: &[char], i: usize) -> (r: Option<Message>)
    requires
        i < lines.len(),
    ensures
        opt_message_view(r) == exception(views(lines@), dir@, i as int),
{
    let header = trimmed(lines[i].as_slice());
    let (_, text) = split_first_str(header, ": ")?;
    let mut locations: Vec<Location> = Vec::new();
    let mut k: usize = i + 1;
    while k < lines.len() && starts_with(trimmed(lines[k].as_slice()), "at ")
        invariant
            i < k <= lines.len(),
            locations_view(locations@) + exception_locations(views(lines@), dir@, k as int)
                == exception_locations(views(lines@), dir@, i + 1),
        decreases lines.len() - k,
    {
        let frame = trimmed(lines[k].as_slice());
        let ghost before = locations_view(locations@);
        let found = parse_frame(frame, dir);
        if let Some(l) = found {
            locations.push(l);
        }
        assert(locations_view(locations@) =~= before + (match frame_location(frame@, dir@) {
            Some(l) => seq![l],
            None => Seq::empty(),
        }));
        k += 1;
    }
    assert(locations_view(locations@) =~= exception_locations(views(lines@), dir@, i + 1));
    Some(Message { error: crate::text::string_of(text), locations })
}

fn parse_failed_expectation(lines: &Vec<Vec<char>>, dir: &[char], text: &[char], start: usize) -> (r:
    Option<Message>)
    requires
        1 <= start,
    ensures
        opt_message_view(r) == failed_expectation(views(lines@), dir@, text@, start as int),
{
    let mut k: usize = start;
    while k < lines.len()
        invariant
            1 <= start <= k,
            failed_expectation(views(lines@), dir@, text@, start as int) == failed_expectation(
                views(lines@),
                dir@,
                text@,
                k as int,
            ),
        decreases lines.len() - k,
    {
        let t = trimmed(lines[k].as_slice());
        let prev = trimmed(lines[k - 1].as_slice());
        if starts_with(t, "Expected ") || starts_with(t, "Error: ") {
            k += 1;
            continue;
        }
        if (starts_with(prev, "Expected ") || starts_with(prev, "Error: ")) && !contains_str(
            t,
            "(src/app",
        ) {
            k += 1;
            continue;
        }
        if !starts_with(t, "at ") {
            return None;
        }
        if contains_str(t, "(src/app") {
            if let Some(l) = parse_test_location(t, dir) {
                return Some(single(text, l));
            }
        }
        k += 1;
    }
    None
}

/// A location `path:row:col`, with the path taken relative to `project_dir`.
pub fn parse_location(location: &str, project_dir: &str) -> (r: Option<Location>)
    ensures
        opt_location_view(r) == karma_location(location@, project_dir@),
{
    let l = chars_of(location);
    let d = chars_of(project_dir);
    location_of(l.as_slice(), d.as_slice())
}

/// Finds Karma's compile errors, exceptions and failed expectations in `log`,
/// with paths taken from `project_dir`.
pub fn analyse(log: &str, project_dir: &str) -> (r: Vec<Message>)
    ensures
        messages_view(r@) == karma_messages(lines_of(log@), project_dir@),
{
    let lines = log_lines(log);
    let dir = chars_of(project_dir);
    let mut errors: Vec<Message> = Vec::new();
    let mut i: usize = 0;
    while i < lines.len()
        invariant
            i <= lines.len(),
            views(lines@) == lines_of(log@),
            dir@ == project_dir@,
            messages_view(errors@) == karma_upto(views(lines@), dir@, i as int),
        decreases lines.len() - i,
    {
        let line = lines[i].as_slice();
        let t = trimmed(line);
        let ghost before = messages_view(errors@);
        if starts_with(t, "Error: ") || starts_with(t, "Usage:") || starts_with(t, "TypeError:") {
            if starts_with(t, "Error: src") {
                let found = match split_first_str(t, " - error ") {
                    Some((loc, text)) => match skipped_bytes(loc, 7) {
                        Some(l) => match location_of(l, dir.as_slice()) {
                            Some(l) => Some(single(text, l)),
                            None => None,
                        },
                        None => None,
                    },
                    None => None,
                };
                assert(opt_message_view(found) == build_error(t@, dir@));
                push_found(&mut errors, found);
            } else {
                push_found(&mut errors, parse_exception(&lines, dir.as_slice(), i));
            }
        }
        if ends_with(line, " FAILED") && i + 1 < lines.len() {
            let text = trimmed(lines[i + 1].as_slice());
            push_found(
                &mut errors,
                parse_failed_expectation(&lines, dir.as_slice(), text, i + 2),
            );
        }
        assert(messages_view(errors@) =~= before + karma_at(views(lines@), dir@, i as int));
        i += 1;
    }
    errors
}

} // verus!
