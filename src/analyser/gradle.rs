//! Gradle: compiler errors of the project's sources and failed tests (with
//! `--info`), the latter placed in the module whose task ran last.

use crate::text::{
    chars_of, concat, concat_from, concatenated_from, contains, contains_str, equals_str, find,
    find_in, is_prefix, is_suffix, lemma_split_char_len, lines_of, log_lines, matches_at,
    number_or_zero, number_or_zero_of, parse_number, parse_usize, replace_char, replaced_char,
    rsplit_once, split_char, split_first, split_first_str, split_on, split_once, trim,
    trim_end_char, trim_start_matches, trimmed, trimmed_end_char, trimmed_start_matches, views,
};
use crate::types::{
    location, message_at, messages_view, opt_message_view, opt_msgs, push_found, push_message,
    single, Message, MessageView, new_location,
};
use vstd::prelude::*;

verus! {

/// The module of the last `> Task :module:…` line among the first `n`.
pub open spec fn module_upto(lines: Seq<Seq<char>>, n: int) -> Option<Seq<char>>
    decreases n,
{
    if n <= 0 {
        None
    } else {
        let t = trim(lines[n - 1]);
        if is_prefix("> Task :"@, t) {
            match split_once(trim_start_matches(t, "> Task :"@), seq![':']) {
                Some((module, _)) => Some(module),
                None => module_upto(lines, n - 1),
            }
        } else {
            module_upto(lines, n - 1)
        }
    }
}

/// The language of a frame's file: the extension before `:row)`, or `java`.
pub open spec fn frame_language(rest: Seq<char>) -> Seq<char> {
    match split_once(rest, seq!['.']) {
        Some((_, after)) => match rsplit_once(after, seq![':']) {
            Some((language, _)) => language,
            None => "java"@,
        },
        None => "java"@,
    }
}

/// The directory below `src/test` for a language.
pub open spec fn language_dir(language: Seq<char>) -> Seq<char> {
    if language == "kt"@ {
        "kotlin"@
    } else {
        language
    }
}

/// The message of a test frame `… app//pkg.Class.method(Class.kt:row)`,
/// when an expectation was seen: the test source under the module.
pub open spec fn frame_message(
    line: Seq<char>,
    dir: Seq<char>,
    module: Option<Seq<char>>,
    expected: Option<Seq<char>>,
) -> Seq<MessageView> {
    match split_once(line, "app//"@) {
        Some((_, frame)) => match split_once(frame, seq!['(']) {
            Some((symbol, rest)) => {
                let language = frame_language(rest);
                match split_once(rest, seq!['.'] + language + seq![':']) {
                    Some((file, row)) => match split_once(symbol, file) {
                        Some((class_path, _)) => {
                            let module_dir = match module {
                                Some(m) => seq!['/'] + m,
                                None => Seq::empty(),
                            };
                            let path = dir + module_dir + "/src/test/"@ + language_dir(language)
                                + seq!['/'] + replace_char(class_path, '.', '/') + file + seq!['.']
                                + language;
                            match expected {
                                Some(e) => seq![
                                    message_at(
                                        trim(e),
                                        location(path, number_or_zero(trim_end_char(row, ')')), 0),
                                    ),
                                ],
                                None => Seq::empty(),
                            }
                        },
                        None => Seq::empty(),
                    },
                    None => Seq::empty(),
                }
            },
            None => Seq::empty(),
        },
        None => Seq::empty(),
    }
}

/// The messages of a failed test, from line `k` to the next empty line;
/// `expected` is the text after the last `expected:` seen so far.
pub open spec fn failed_test(
    lines: Seq<Seq<char>>,
    dir: Seq<char>,
    module: Option<Seq<char>>,
    k: int,
    expected: Option<Seq<char>>,
) -> Seq<MessageView>
    decreases lines.len() - k,
{
    if k < 0 || k >= lines.len() || lines[k].len() == 0 {
        Seq::empty()
    } else {
        let line = lines[k];
        let e = match split_once(line, "expected:"@) {
            Some((_, after)) => Some(after),
            None => expected,
        };
        (if !contains(line, "at "@) || contains(line, "org.junit.jupiter"@) {
            Seq::empty()
        } else {
            frame_message(line, dir, module, e)
        }) + failed_test(lines, dir, module, k + 1, e)
    }
}

/// A compiler error `path:row:text`, whose column is where `^` stands on
/// the line two below.
pub open spec fn compiler_error(line: Seq<char>, marker: Option<Seq<char>>) -> Option<MessageView> {
    let parts = split_char(line, ':');
    if parts.len() < 2 {
        None
    } else {
        match parse_usize(parts[1]) {
            Some(row) => {
                let text = concat_from(parts, 2);
                match marker {
                    Some(m) => match find(m, seq!['^']) {
                        Some(c) => Some(
                            message_at(trim(text), location(parts[0], row, (c + 1) as usize)),
                        ),
                        None => Some(message_at(text, location(parts[0], row, 0))),
                    },
                    None => Some(message_at(text, location(parts[0], row, 0))),
                }
            },
            None => None,
        }
    }
}

/// The messages that line `i` starts.
pub open spec fn gradle_at(lines: Seq<Seq<char>>, dir: Seq<char>, i: int) -> Seq<MessageView> {
    let t = trim(lines[i]);
    (if is_suffix("FAILED"@, t) {
        failed_test(lines, dir, module_upto(lines, i + 1), i, None)
    } else {
        Seq::empty()
    }) + (if is_prefix(dir, t) {
        opt_msgs(
            compiler_error(
                t,
                if i + 2 < lines.len() {
                    Some(lines[i + 2])
                } else {
                    None
                },
            ),
        )
    } else {
        Seq::empty()
    })
}

/// The messages of the first `n` lines.
pub open spec fn gradle_upto(lines: Seq<Seq<char>>, dir: Seq<char>, n: int) -> Seq<MessageView>
    decreases n,
{
    if n <= 0 {
        Seq::empty()
    } else {
        gradle_upto(lines, dir, n - 1) + gradle_at(lines, dir, n - 1)
    }
}

/// The messages of a Gradle log.
pub open spec fn gradle_messages(lines: Seq<Seq<char>>, dir: Seq<char>) -> Seq<MessageView> {
    gradle_upto(lines, dir, lines.len() as int)
}

spec fn opt_chars(v: Option<Vec<char>>) -> Option<Seq<char>> {
    match v {
        Some(x) => Some(x@),
        None => None,
    }
}

fn parse_frame(
    line: &[char],
    dir: &[char],
    module: &Option<Vec<char>>,
    expected: &Option<Vec<char>>,
    errors: &mut Vec<Message>,
)
    ensures
        messages_view(final(errors)@) == messages_view(old(errors)@) + frame_message(
            line@,
            dir@,
            opt_chars(*module),
            opt_chars(*expected),
        ),
{
    let ghost none: Seq<MessageView> = Seq::empty();
    assert(messages_view(errors@) =~= messages_view(errors@) + none);
    let (_, frame) = match split_first_str(line, "app//") {
        Some(p) => p,
        None => return ,
    };
    let paren = ['('];
    assert(paren@ =~= seq!['(']);
    let (symbol, rest) = match split_first(frame, paren.as_slice()) {
        Some(p) => p,
        None => return ,
    };
    let dot = ['.'];
    assert(dot@ =~= seq!['.']);
    let colon = [':'];
    assert(colon@ =~= seq![':']);
    let java = chars_of("java");
    let language: Vec<char> = match split_first(rest, dot.as_slice()) {
        Some((_, after)) => match crate::text::split_last(after, colon.as_slice()) {
            Some((l, _)) => vstd::slice::slice_to_vec(l),
            None => java,
        },
        None => java,
    };
    assert(language@ == frame_language(rest@));
    let base = concat(dot.as_slice(), language.as_slice());
    let pattern = concat(base.as_slice(), colon.as_slice());
    let (file, row) = match split_first(rest, pattern.as_slice()) {
        Some(p) => p,
        None => return ,
    };
    let (class_path, _) = match split_first(symbol, file) {
        Some(p) => p,
        None => return ,
    };
    let e = match expected {
        Some(e) => e,
        None => return ,
    };
    let slash = ['/'];
    assert(slash@ =~= seq!['/']);
    let lang_dir = if equals_str(language.as_slice(), "kt") {
        chars_of("kotlin")
    } else {
        vstd::slice::slice_to_vec(language.as_slice())
    };
    assert(lang_dir@ == language_dir(language@));
    let ghost module_dir = match opt_chars(*module) {
        Some(m) => seq!['/'] + m,
        None => Seq::empty(),
    };
    let mut path = match module {
        Some(m) => {
            let d = concat(dir, slash.as_slice());
            concat(d.as_slice(), m.as_slice())
        },
        None => vstd::slice::slice_to_vec(dir),
    };
    assert(path@ =~= dir@ + module_dir);
    let test_dir = chars_of("/src/test/");
    path = concat(path.as_slice(), test_dir.as_slice());
    path = concat(path.as_slice(), lang_dir.as_slice());
    path = concat(path.as_slice(), slash.as_slice());
    let as_path = replaced_char(class_path, '.', '/');
    path = concat(path.as_slice(), as_path.as_slice());
    path = concat(path.as_slice(), file);
    path = concat(path.as_slice(), dot.as_slice());
    path = concat(path.as_slice(), language.as_slice());
    assert(path@ =~= dir@ + module_dir + "/src/test/"@ + language_dir(language@) + seq!['/']
        + replace_char(class_path@, '.', '/') + file@ + seq!['.'] + language@);
    let row_number = number_or_zero_of(trimmed_end_char(row, ')'));
    let l = new_location(path.as_slice(), row_number, 0);
    let m = single(crate::text::trimmed(e.as_slice()), l);
    push_message(errors, m);
    assert(messages_view(errors@) =~= messages_view(old(errors)@) + frame_message(
        line@,
        dir@,
        opt_chars(*module),
        opt_chars(*expected),
    ));
}

fn parse_failed_test(
    lines: &Vec<Vec<char>>,
    dir: &[char],
    module: &Option<Vec<char>>,
    start: usize,
    errors: &mut Vec<Message>,
)
    ensures
        messages_view(final(errors)@) == messages_view(old(errors)@) + failed_test(
            views(lines@),
            dir@,
            opt_chars(*module),
            start as int,
            None,
        ),
{
    let mut expected: Option<Vec<char>> = None;
    let mut k: usize = start;
    while k < lines.len() && lines[k].len() > 0
        invariant
            start <= k,
            messages_view(errors@) + failed_test(
                views(lines@),
                dir@,
                opt_chars(*module),
                k as int,
                opt_chars(expected),
            ) == messages_view(old(errors)@) + failed_test(
                views(lines@),
                dir@,
                opt_chars(*module),
                start as int,
                None,
            ),
        decreases lines.len() - k,
    {
        let line = lines[k].as_slice();
        assert(line@ == views(lines@)[k as int]);
        if let Some((_, after)) = split_first_str(line, "expected:") {
            expected = Some(vstd::slice::slice_to_vec(after));
        }
        let ghost before = messages_view(errors@);
        if contains_str(line, "at ") && !contains_str(line, "org.junit.jupiter") {
            parse_frame(line, dir, module, &expected, errors);
        } else {
            assert(messages_view(errors@) =~= messages_view(errors@) + Seq::<MessageView>::empty());
        }
        assert(messages_view(errors@) + failed_test(
            views(lines@),
            dir@,
            opt_chars(*module),
            k + 1,
            opt_chars(expected),
        ) =~= before + failed_test(
            views(lines@),
            dir@,
            opt_chars(*module),
            k as int,
            opt_chars(expected),
        ));
        k += 1;
    }
    assert(messages_view(errors@) =~= messages_view(errors@) + failed_test(
        views(lines@),
        dir@,
        opt_chars(*module),
        k as int,
        opt_chars(expected),
    ));
}

fn parse_compiler_error(line: &[char], marker: Option<&[char]>) -> (r: Option<Message>)
    ensures
        opt_message_view(r) == compiler_error(
            line@,
            match marker {
                Some(m) => Some(m@),
                None => None,
            },
        ),
{
    let parts = split_on(line, ':');
    proof {
        lemma_split_char_len(line@, ':');
    }
    if parts.len() < 2 {
        return None;
    }
    assert(parts@[1]@ == split_char(line@, ':')[1]);
    assert(parts@[0]@ == split_char(line@, ':')[0]);
    let row = parse_number(parts[1].as_slice())?;
    let text = concatenated_from(&parts, 2);
    let caret = ['^'];
    assert(caret@ =~= seq!['^']);
    if let Some(m) = marker {
        if let Some(c) = find_in(m, caret.as_slice()) {
            let mlen = m.len();
            assert(c < mlen);
            let l = new_location(parts[0].as_slice(), row, c + 1);
            return Some(single(trimmed(text.as_slice()), l));
        }
    }
    let l = new_location(parts[0].as_slice(), row, 0);
    Some(single(text.as_slice(), l))
}

fn next_module(t: &[char], module: Option<Vec<char>>) -> (r: Option<Vec<char>>)
    ensures
        opt_chars(r) == (if is_prefix("> Task :"@, t@) {
            match split_once(trim_start_matches(t@, "> Task :"@), seq![':']) {
                Some((m, _)) => Some(m),
                None => opt_chars(module),
            }
        } else {
            opt_chars(module)
        }),
{
    if starts_with_task(t) {
        let rest = trimmed_start_matches(t, "> Task :");
        let colon = [':'];
        assert(colon@ =~= seq![':']);
        if let Some((m, _)) = split_first(rest, colon.as_slice()) {
            return Some(vstd::slice::slice_to_vec(m));
        }
    }
    module
}

fn parse_line(
    lines: &Vec<Vec<char>>,
    dir: &[char],
    module: &Option<Vec<char>>,
    i: usize,
    errors: &mut Vec<Message>,
)
    requires
        i < lines.len(),
        opt_chars(*module) == module_upto(views(lines@), i + 1),
    ensures
        messages_view(final(errors)@) == messages_view(old(errors)@) + gradle_at(
            views(lines@),
            dir@,
            i as int,
        ),
{
    let t = trimmed(lines[i].as_slice());
    if crate::text::ends_with(t, "FAILED") {
        parse_failed_test(lines, dir, module, i, errors);
    }
    let ghost middle = messages_view(errors@);
    if matches_at(t, dir, 0) {
        let marker = if lines.len() - i > 2 {
            Some(lines[i + 2].as_slice())
        } else {
            None
        };
        push_found(errors, parse_compiler_error(t, marker));
    }
    assert(messages_view(errors@) =~= messages_view(old(errors)@) + gradle_at(
        views(lines@),
        dir@,
        i as int,
    ));
}

/// Finds Gradle's compiler errors and failed tests in `log`, with paths
/// taken from `project_dir`.
pub fn analyse(log: &str, project_dir: &str) -> (r: Vec<Message>)
    ensures
        messages_view(r@) == gradle_messages(lines_of(log@), project_dir@),
{
    let lines = log_lines(log);
    let dir = chars_of(project_dir);
    let mut errors: Vec<Message> = Vec::new();
    let mut module: Option<Vec<char>> = None;
    let mut i: usize = 0;
    while i < lines.len()
        invariant
            i <= lines.len(),
            views(lines@) == lines_of(log@),
            dir@ == project_dir@,
            opt_chars(module) == module_upto(views(lines@), i as int),
            messages_view(errors@) == gradle_upto(views(lines@), dir@, i as int),
        decreases lines.len() - i,
    {
        module = next_module(trimmed(lines[i].as_slice()), module);
        parse_line(&lines, dir.as_slice(), &module, i, &mut errors);
        i += 1;
    }
    errors
}

fn starts_with_task(t: &[char]) -> (r: bool)
    ensures
        r == is_prefix("> Task :"@, t@),
{
    crate::text::starts_with(t, "> Task :")
}

} // verus!
