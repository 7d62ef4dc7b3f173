//! Logs without diagnostics. Every format that the analysers read puts a
//! colon in each diagnostic, so a log none of whose lines holds a colon
//! yields no messages, whatever the format.

use crate::analyser::{
    alire, angular, biome, cargo, clang, dune, eslint, go, gradle, java, karma_jasmine, maven, nix,
    odin, v, zig,
};
use crate::config::ParserKind;
use crate::input::handle::expected_messages;
use crate::text::{
    contains, drop_last_byte, find, is_prefix, is_suffix, lemma_find_from,
    lemma_skip_bytes_suffix, lines_of, non_empty, occurs_at, skip_bytes, split_char, split_once,
    strip_prefix, trim, trim_end, trim_start, words,
};
use crate::types::MessageView;
use vstd::prelude::*;

verus! {

/// `s` holds no colon.
pub open spec fn colon_free(s: Seq<char>) -> bool {
    !s.contains(':')
}

/// No line holds a colon.
pub open spec fn quiet(lines: Seq<Seq<char>>) -> bool {
    forall|i: int| 0 <= i < lines.len() ==> colon_free(#[trigger] lines[i])
}

proof fn lemma_subrange(s: Seq<char>, a: int, b: int)
    requires
        colon_free(s),
        0 <= a <= b <= s.len(),
    ensures
        colon_free(s.subrange(a, b)),
{
    if s.subrange(a, b).contains(':') {
        let k = choose|k: int| 0 <= k < b - a && s.subrange(a, b)[k] == ':';
        assert(s[a + k] == ':');
    }
}

/// No pattern with a colon occurs in colon-free text.
proof fn lemma_absent(s: Seq<char>, p: Seq<char>, t: int)
    requires
        colon_free(s),
        0 <= t < p.len(),
        p[t] == ':',
    ensures
        forall|i: int| !occurs_at(s, p, i),
        find(s, p) is None,
        split_once(s, p) is None,
        strip_prefix(s, p) is None,
        !is_prefix(p, s),
        !is_suffix(p, s),
        !contains(s, p),
{
    assert forall|i: int| !occurs_at(s, p, i) by {
        if occurs_at(s, p, i) {
            assert(s.subrange(i, i + p.len())[t] == p[t]);
            assert(s[i + t] == ':');
        }
    }
    lemma_find_from(s, p, 0);
}

proof fn lemma_colon(s: Seq<char>)
    requires
        colon_free(s),
    ensures
        split_once(s, seq![':']) is None,
        split_char(s, ':') == seq![s],
{
    lemma_absent(s, seq![':'], 0);
}

proof fn lemma_split_parts(s: Seq<char>, p: Seq<char>)
    requires
        colon_free(s),
    ensures
        split_once(s, p) matches Some((a, b)) ==> colon_free(a) && colon_free(b),
{
    lemma_find_from(s, p, 0);
    if let Some(i) = find(s, p) {
        lemma_subrange(s, 0, i);
        lemma_subrange(s, i + p.len(), s.len() as int);
    }
}

proof fn lemma_trim(s: Seq<char>)
    requires
        colon_free(s),
    ensures
        colon_free(trim_start(s)),
        colon_free(trim_end(s)),
        colon_free(trim(s)),
        colon_free(trim_end(trim_start(s))),
    decreases s.len(),
{
    if s.len() > 0 {
        lemma_subrange(s, 1, s.len() as int);
        lemma_subrange(s, 0, s.len() - 1);
        assert(s.drop_first() == s.subrange(1, s.len() as int));
        assert(s.drop_last() == s.subrange(0, s.len() - 1));
        lemma_trim(s.drop_first());
        lemma_trim(s.drop_last());
    }
    if trim_start(s).len() > 0 && trim_start(s).len() < s.len() {
        lemma_trim(trim_start(s));
    } else if trim_start(s).len() > 0 {
        assert(trim_start(s) == s) by {
            lemma_trim_start_shrinks(s);
        }
        lemma_trim_end_only(s);
    } else {
        lemma_trim_end_only(trim_start(s));
    }
}

proof fn lemma_trim_start_shrinks(s: Seq<char>)
    ensures
        trim_start(s).len() <= s.len(),
        trim_start(s).len() == s.len() ==> trim_start(s) == s,
    decreases s.len(),
{
    if s.len() > 0 && crate::text::is_space(s[0]) {
        lemma_trim_start_shrinks(s.drop_first());
    }
}

proof fn lemma_trim_end_only(s: Seq<char>)
    requires
        colon_free(s),
    ensures
        colon_free(trim_end(s)),
    decreases s.len(),
{
    if s.len() > 0 && crate::text::is_space(s.last()) {
        lemma_subrange(s, 0, s.len() - 1);
        assert(s.drop_last() == s.subrange(0, s.len() - 1));
        lemma_trim_end_only(s.drop_last());
    }
}

proof fn lemma_bytes(s: Seq<char>, n: nat)
    requires
        colon_free(s),
    ensures
        skip_bytes(s, n) matches Some(r) ==> colon_free(r),
        drop_last_byte(s) matches Some(r) ==> colon_free(r),
{
    lemma_skip_bytes_suffix(s, n);
    if let Some(r) = skip_bytes(s, n) {
        lemma_subrange(s, s.len() - r.len(), s.len() as int);
    }
    if s.len() > 0 {
        lemma_subrange(s, 0, s.len() - 1);
        assert(s.drop_last() == s.subrange(0, s.len() - 1));
    }
}

proof fn lemma_alire(lines: Seq<Seq<char>>, dir: Seq<char>, n: int)
    requires
        quiet(lines),
        n <= lines.len(),
    ensures
        alire::alire_upto(lines, dir, n) == Seq::<MessageView>::empty(),
    decreases n,
{
    if n > 0 {
        lemma_alire(lines, dir, n - 1);
        lemma_colon(lines[n - 1]);
    }
}

proof fn lemma_clang(lines: Seq<Seq<char>>, dir: Seq<char>, n: int)
    requires
        quiet(lines),
        n <= lines.len(),
    ensures
        clang::clang_upto(lines, dir, n) == Seq::<MessageView>::empty(),
    decreases n,
{
    if n > 0 {
        lemma_clang(lines, dir, n - 1);
        lemma_colon(lines[n - 1]);
    }
}

proof fn lemma_go(lines: Seq<Seq<char>>, dir: Seq<char>, n: int)
    requires
        quiet(lines),
        n <= lines.len(),
    ensures
        go::go_upto(lines, dir, n) == Seq::<MessageView>::empty(),
    decreases n,
{
    if n > 0 {
        lemma_go(lines, dir, n - 1);
        lemma_colon(lines[n - 1]);
        reveal_strlit("--- FAIL: ");
        lemma_absent(lines[n - 1], "--- FAIL: "@, 8);
    }
}

proof fn lemma_odin(lines: Seq<Seq<char>>, dir: Seq<char>, n: int)
    requires
        quiet(lines),
        n <= lines.len(),
    ensures
        odin::odin_upto(lines, dir, n) == Seq::<MessageView>::empty(),
    decreases n,
{
    if n > 0 {
        lemma_odin(lines, dir, n - 1);
        let line = lines[n - 1];
        lemma_split_parts(line, seq![' ']);
        if let Some((loc, _)) = split_once(line, seq![' ']) {
            lemma_split_parts(loc, seq!['(']);
            if let Some((_, rest)) = split_once(loc, seq!['(']) {
                lemma_colon(rest);
            }
        }
    }
}

proof fn lemma_v(lines: Seq<Seq<char>>, dir: Seq<char>, n: int)
    requires
        quiet(lines),
        n <= lines.len(),
    ensures
        v::v_upto(lines, dir, n) == Seq::<MessageView>::empty(),
    decreases n,
{
    if n > 0 {
        lemma_v(lines, dir, n - 1);
        reveal_strlit(": error: ");
        reveal_strlit(": details: ");
        lemma_absent(lines[n - 1], ": error: "@, 0);
        lemma_absent(lines[n - 1], ": details: "@, 0);
    }
}

proof fn lemma_zig(lines: Seq<Seq<char>>, dir: Seq<char>, n: int)
    requires
        quiet(lines),
        n <= lines.len(),
    ensures
        zig::zig_upto(lines, dir, n) == Seq::<MessageView>::empty(),
    decreases n,
{
    if n > 0 {
        lemma_zig(lines, dir, n - 1);
        reveal_strlit(": error: ");
        reveal_strlit(": note: ");
        lemma_absent(lines[n - 1], ": error: "@, 0);
        lemma_absent(lines[n - 1], ": note: "@, 0);
    }
}

proof fn lemma_nix(lines: Seq<Seq<char>>, dir: Seq<char>, n: int)
    requires
        quiet(lines),
        n <= lines.len(),
    ensures
        nix::nix_upto(lines, dir, n) == Seq::<MessageView>::empty(),
    decreases n,
{
    if n > 0 {
        lemma_nix(lines, dir, n - 1);
        reveal_strlit(" error found at:");
        lemma_absent(lines[n - 1], " error found at:"@, 15);
    }
}

proof fn lemma_biome(lines: Seq<Seq<char>>, n: int)
    requires
        quiet(lines),
        n <= lines.len(),
    ensures
        biome::biome_upto(lines, n) == Seq::<MessageView>::empty(),
    decreases n,
{
    if n > 0 {
        lemma_biome(lines, n - 1);
        let line = lines[n - 1];
        lemma_split_parts(line, seq![' ']);
        if let Some((loc, _)) = split_once(line, seq![' ']) {
            lemma_colon(loc);
        }
    }
}

proof fn lemma_angular(lines: Seq<Seq<char>>, dir: Seq<char>, n: int)
    requires
        quiet(lines),
        n <= lines.len(),
    ensures
        angular::angular_upto(lines, dir, n) == Seq::<MessageView>::empty(),
    decreases n,
{
    if n > 0 {
        lemma_angular(lines, dir, n - 1);
        let line = lines[n - 1];
        assert(!angular::error_tag(line));
        lemma_split_parts(line, " - "@);
        if let Some((loc, _)) = split_once(line, " - "@) {
            lemma_colon(loc);
        }
        reveal_strlit("SyntaxError: ");
        lemma_absent(line, "SyntaxError: "@, 11);
    }
}

proof fn lemma_java(lines: Seq<Seq<char>>, dir: Seq<char>, package: Seq<char>, n: int)
    requires
        quiet(lines),
        n <= lines.len(),
    ensures
        java::java_upto(lines, dir, package, n) == Seq::<MessageView>::empty(),
    decreases n,
{
    if n > 1 {
        lemma_java(lines, dir, package, n - 1);
        let t = trim(lines[n - 1]);
        lemma_trim(lines[n - 1]);
        reveal_strlit("Error: ");
        reveal_strlit("Exception: ");
        lemma_absent(t, "Error: "@, 5);
        lemma_absent(t, "Exception: "@, 9);
    }
}

proof fn lemma_cargo_continued(lines: Seq<Seq<char>>, dir: Seq<char>, text: Seq<char>, k: int)
    requires
        quiet(lines),
    ensures
        cargo::panic_continued(lines, dir, text, k) == Seq::<MessageView>::empty(),
    decreases lines.len() - k,
{
    if 0 <= k < lines.len() {
        lemma_cargo_continued(lines, dir, text, k + 1);
        reveal_strlit("', ");
        if let Some(loc) = strip_prefix(lines[k], "', "@) {
            lemma_subrange(lines[k], 3, lines[k].len() as int);
            assert(loc == lines[k].subrange(3, lines[k].len() as int));
            lemma_colon(loc);
        }
    }
}

proof fn lemma_cargo(lines: Seq<Seq<char>>, dir: Seq<char>, n: int)
    requires
        quiet(lines),
        n <= lines.len(),
    ensures
        cargo::cargo_upto(lines, dir, n) == Seq::<MessageView>::empty(),
    decreases n,
{
    if n > 0 {
        lemma_cargo(lines, dir, n - 1);
        let line = lines[n - 1];
        reveal_strlit(": ");
        lemma_absent(line, ": "@, 0);
        lemma_split_parts(line, ", "@);
        if let Some((_, loc)) = split_once(line, ", "@) {
            lemma_colon(loc);
        }
        lemma_cargo_continued(lines, dir, Seq::empty(), n);
        let q = cargo::quotes(line);
        if q.len() >= 3 && q.len() < 4 {
            lemma_cargo_continued(lines, dir, line.subrange(q[2] + 1, line.len() as int), n);
        }
    }
}

proof fn lemma_dune_text(lines: Seq<Seq<char>>, k: int)
    requires
        quiet(lines),
    ensures
        dune::error_text(lines, k) is None,
    decreases lines.len() - k,
{
    if 0 <= k < lines.len() {
        lemma_dune_text(lines, k + 1);
        lemma_trim(lines[k]);
        reveal_strlit("Error: ");
        lemma_absent(trim(lines[k]), "Error: "@, 5);
    }
}

proof fn lemma_dune(lines: Seq<Seq<char>>, dir: Seq<char>, n: int)
    requires
        quiet(lines),
        n <= lines.len(),
    ensures
        dune::dune_upto(lines, dir, n) == Seq::<MessageView>::empty(),
    decreases n,
{
    if n > 0 {
        lemma_dune(lines, dir, n - 1);
        lemma_dune_text(lines, n);
    }
}

proof fn lemma_split_char_pieces(s: Seq<char>, c: char)
    requires
        colon_free(s),
    ensures
        forall|j: int|
            0 <= j < split_char(s, c).len() ==> colon_free(#[trigger] split_char(s, c)[j]),
    decreases s.len(),
{
    lemma_find_from(s, seq![c], 0);
    if let Some(i) = find(s, seq![c]) {
        lemma_subrange(s, 0, i);
        lemma_subrange(s, i + 1, s.len() as int);
        let rest = s.subrange(i + 1, s.len() as int);
        lemma_split_char_pieces(rest, c);
        let r = seq![s.subrange(0, i)] + split_char(rest, c);
        assert(split_char(s, c) == r);
        assert forall|j: int| 0 <= j < r.len() implies colon_free(#[trigger] r[j]) by {
            if j > 0 {
                assert(r[j] == split_char(rest, c)[j - 1]);
            }
        }
    }
}

proof fn lemma_non_empty(ws: Seq<Seq<char>>)
    requires
        forall|j: int| 0 <= j < ws.len() ==> colon_free(#[trigger] ws[j]),
    ensures
        forall|j: int| 0 <= j < non_empty(ws).len() ==> colon_free(#[trigger] non_empty(ws)[j]),
    decreases ws.len(),
{
    if ws.len() > 0 {
        let p = ws.drop_last();
        assert forall|j: int| 0 <= j < p.len() implies colon_free(#[trigger] p[j]) by {
            assert(p[j] == ws[j]);
        }
        lemma_non_empty(p);
        if ws.last().len() > 0 {
            let r = non_empty(p).push(ws.last());
            assert forall|j: int| 0 <= j < r.len() implies colon_free(#[trigger] r[j]) by {
                if j < non_empty(p).len() {
                    assert(r[j] == non_empty(p)[j]);
                }
            }
        }
    }
}

proof fn lemma_lint_block(lines: Seq<Seq<char>>, path: Seq<char>, k: int)
    requires
        quiet(lines),
    ensures
        eslint::lint_block(lines, path, k) == Seq::<MessageView>::empty(),
    decreases lines.len() - k,
{
    if 0 <= k < lines.len() {
        lemma_lint_block(lines, path, k + 1);
        let t = trim(lines[k]);
        lemma_trim(lines[k]);
        lemma_split_char_pieces(t, ' ');
        lemma_non_empty(split_char(t, ' '));
        let ws = words(t);
        if ws.len() >= 2 {
            assert(colon_free(ws[0]));
            lemma_colon(ws[0]);
        }
    }
}

proof fn lemma_eslint(lines: Seq<Seq<char>>, dir: Seq<char>, n: int)
    requires
        quiet(lines),
        n <= lines.len(),
    ensures
        eslint::eslint_upto(lines, dir, n) == Seq::<MessageView>::empty(),
    decreases n,
{
    if n > 0 {
        lemma_eslint(lines, dir, n - 1);
        lemma_lint_block(lines, lines[n - 1], n);
    }
}

proof fn lemma_gradle_test(
    lines: Seq<Seq<char>>,
    dir: Seq<char>,
    module: Option<Seq<char>>,
    k: int,
    expected: Option<Seq<char>>,
)
    requires
        quiet(lines),
    ensures
        gradle::failed_test(lines, dir, module, k, expected) == Seq::<MessageView>::empty(),
    decreases lines.len() - k,
{
    if 0 <= k < lines.len() && lines[k].len() != 0 {
        let line = lines[k];
        let e = match split_once(line, "expected:"@) {
            Some((_, after)) => Some(after),
            None => expected,
        };
        lemma_gradle_test(lines, dir, module, k + 1, e);
        lemma_split_parts(line, "app//"@);
        if let Some((_, frame)) = split_once(line, "app//"@) {
            lemma_split_parts(frame, seq!['(']);
            if let Some((_, rest)) = split_once(frame, seq!['(']) {
                let language = gradle::frame_language(rest);
                let pattern = seq!['.'] + language + seq![':'];
                assert(pattern[pattern.len() - 1] == ':');
                lemma_absent(rest, pattern, pattern.len() - 1);
            }
        }
    }
}

proof fn lemma_gradle(lines: Seq<Seq<char>>, dir: Seq<char>, n: int)
    requires
        quiet(lines),
        n <= lines.len(),
    ensures
        gradle::gradle_upto(lines, dir, n) == Seq::<MessageView>::empty(),
    decreases n,
{
    if n > 0 {
        lemma_gradle(lines, dir, n - 1);
        lemma_gradle_test(lines, dir, gradle::module_upto(lines, n), n - 1, None);
        lemma_trim(lines[n - 1]);
        lemma_colon(trim(lines[n - 1]));
    }
}

proof fn lemma_karma_expectation(lines: Seq<Seq<char>>, dir: Seq<char>, text: Seq<char>, k: int)
    requires
        quiet(lines),
    ensures
        karma_jasmine::failed_expectation(lines, dir, text, k) is None,
    decreases lines.len() - k,
{
    if 1 <= k < lines.len() {
        lemma_karma_expectation(lines, dir, text, k + 1);
        let t = trim(lines[k]);
        lemma_trim(lines[k]);
        lemma_split_parts(t, seq!['(']);
        if let Some((_, rest)) = split_once(t, seq!['(']) {
            lemma_bytes(rest, 0);
            if let Some(loc) = drop_last_byte(rest) {
                lemma_colon(loc);
            }
        }
    }
}

proof fn lemma_karma(lines: Seq<Seq<char>>, dir: Seq<char>, n: int)
    requires
        quiet(lines),
        n <= lines.len(),
    ensures
        karma_jasmine::karma_upto(lines, dir, n) == Seq::<MessageView>::empty(),
    decreases n,
{
    if n > 0 {
        lemma_karma(lines, dir, n - 1);
        let t = trim(lines[n - 1]);
        lemma_trim(lines[n - 1]);
        reveal_strlit("Error: ");
        reveal_strlit("Usage:");
        reveal_strlit("TypeError:");
        lemma_absent(t, "Error: "@, 5);
        lemma_absent(t, "Usage:"@, 5);
        lemma_absent(t, "TypeError:"@, 9);
        if n < lines.len() {
            lemma_karma_expectation(lines, dir, trim(lines[n]), n + 1);
        }
    }
}

proof fn lemma_maven_test(lines: Seq<Seq<char>>, dir: Seq<char>, k: int, text: Seq<char>)
    requires
        quiet(lines),
    ensures
        maven::failed_test(lines, dir, k, text) is None,
    decreases lines.len() - k,
{
    if 0 <= k < lines.len() {
        let t = trim(lines[k]);
        lemma_trim(lines[k]);
        let next = if !is_prefix("[ERROR] "@, t) && !is_prefix("-> at"@, t) {
            text + t
        } else {
            text
        };
        lemma_maven_test(lines, dir, k + 1, text);
        lemma_maven_test(lines, dir, k + 1, next);
        if let Some(frame) = strip_prefix(t, "at "@) {
            reveal_strlit("at ");
            assert(frame == t.subrange(3, t.len() as int));
            lemma_subrange(t, 3, t.len() as int);
            lemma_colon(frame);
        }
    }
}

proof fn lemma_maven(lines: Seq<Seq<char>>, dir: Seq<char>, n: int)
    requires
        quiet(lines),
        n <= lines.len(),
    ensures
        maven::maven_upto(lines, dir, n) == Seq::<MessageView>::empty(),
    decreases n,
{
    if n > 0 {
        lemma_maven(lines, dir, n - 1);
        let line = lines[n - 1];
        lemma_maven_test(lines, dir, n, Seq::empty());
        if let Some(e) = strip_prefix(line, "[ERROR] "@) {
            reveal_strlit("[ERROR] ");
            assert(e == line.subrange(8, line.len() as int));
            lemma_subrange(line, 8, line.len() as int);
            lemma_split_parts(e, seq![' ']);
            if let Some((loc, _)) = split_once(e, seq![' ']) {
                lemma_colon(loc);
                if loc.len() > 1 {
                    assert(loc[1] != ':');
                }
            }
        }
    }
}

/// A log none of whose lines holds a colon yields no messages, whatever the
/// format: each format's diagnostics hold one.
pub proof fn lemma_quiet_log(
    parser: Option<ParserKind>,
    package: Option<Seq<char>>,
    log: Seq<char>,
    dir: Seq<char>,
)
    requires
        quiet(lines_of(log)),
    ensures
        expected_messages(parser, package, log, dir) == Seq::<MessageView>::empty(),
{
    let lines = lines_of(log);
    let n = lines.len() as int;
    match parser {
        Some(ParserKind::Alire) => lemma_alire(lines, dir, n),
        Some(ParserKind::Angular) => lemma_angular(lines, dir, n),
        Some(ParserKind::Biome) => lemma_biome(lines, n),
        Some(ParserKind::Cargo) => lemma_cargo(lines, dir, n),
        Some(ParserKind::Clang) => lemma_clang(lines, dir, n),
        Some(ParserKind::Dune) => lemma_dune(lines, dir, n),
        Some(ParserKind::Eslint) => lemma_eslint(lines, dir, n),
        Some(ParserKind::Gcc) => lemma_clang(lines, dir, n),
        Some(ParserKind::Go) => lemma_go(lines, dir, n),
        Some(ParserKind::Gradle) => lemma_gradle(lines, dir, n),
        Some(ParserKind::Java) => {
            if let Some(p) = package {
                lemma_java(lines, dir, p, n);
            }
        },
        Some(ParserKind::KarmaJasmine) => lemma_karma(lines, dir, n),
        Some(ParserKind::Maven) => lemma_maven(lines, dir, n),
        Some(ParserKind::Nix) => lemma_nix(lines, dir, n),
        Some(ParserKind::Odin) => lemma_odin(lines, dir, n),
        Some(ParserKind::V) => lemma_v(lines, dir, n),
        Some(ParserKind::Zig) => lemma_zig(lines, dir, n),
        None => {},
    }
}

/// The empty log yields no messages, whatever the format.
pub proof fn lemma_empty_log(parser: Option<ParserKind>, package: Option<Seq<char>>, dir: Seq<char>)
    ensures
        expected_messages(parser, package, Seq::empty(), dir) == Seq::<MessageView>::empty(),
{
    assert(crate::text::find(Seq::<char>::empty(), seq!['\n']) is None);
    assert(lines_of(Seq::empty()) == Seq::<Seq<char>>::empty());
}

} // verus!
