//! Properties that hold of the analysers for every input, proved from the
//! spec functions that their contracts state.

use crate::analyser::cargo::cargo_location;
use crate::analyser::java::{exception, frame_location, frame_locations, java_at, java_upto};
use crate::analyser::maven::{maven_messages, maven_upto, without_repeats};
use crate::config::ParserKind;
use crate::input::handle::expected_messages;
use crate::text::{
    find, find_from, is_prefix, occurs_at, skip_bytes, split_char, split_once, strip_prefix, trim,
};
use crate::types::{location, qualify, LocationView, MessageView};
use vstd::prelude::*;

verus! {

/// Analysing the same log twice gives the same messages: what an analyser
/// returns depends on its inputs alone.
pub proof fn lemma_analysis_repeats(
    parser: Option<ParserKind>,
    package: Option<Seq<char>>,
    log: Seq<char>,
    dir: Seq<char>,
    first: Seq<MessageView>,
    second: Seq<MessageView>,
)
    requires
        first == expected_messages(parser, package, log, dir),
        second == expected_messages(parser, package, log, dir),
    ensures
        first == second,
{
}

proof fn lemma_without_repeats_from(s: Seq<MessageView>)
    ensures
        forall|m: MessageView| without_repeats(s).contains(m) <==> s.contains(m),
        forall|a: int, b: int|
            0 <= a < b < without_repeats(s).len() ==> without_repeats(s)[a] != without_repeats(
                s,
            )[b],
    decreases s.len(),
{
    if s.len() > 0 {
        let p = s.drop_last();
        let x = s.last();
        lemma_without_repeats_from(p);
        let w = without_repeats(p);
        assert forall|m: MessageView| s.contains(m) <==> (p.contains(m) || m == x) by {
            if s.contains(m) {
                let k = choose|k: int| 0 <= k < s.len() && s[k] == m;
                if k < p.len() {
                    assert(p[k] == m);
                }
            }
            if p.contains(m) {
                let k = choose|k: int| 0 <= k < p.len() && p[k] == m;
                assert(s[k] == m);
            }
            if m == x {
                assert(s[s.len() - 1] == m);
            }
        }
        if !p.contains(x) {
            let r = w.push(x);
            assert forall|m: MessageView| r.contains(m) <==> (w.contains(m) || m == x) by {
                if r.contains(m) {
                    let j = choose|j: int| 0 <= j < r.len() && r[j] == m;
                    if j < w.len() {
                        assert(w[j] == m);
                    }
                }
                if w.contains(m) {
                    let j = choose|j: int| 0 <= j < w.len() && w[j] == m;
                    assert(r[j] == m);
                }
                if m == x {
                    assert(r[w.len() as int] == x);
                }
            }
            assert forall|a: int, b: int| 0 <= a < b < r.len() implies r[a] != r[b] by {
                if b == w.len() {
                    assert(r[a] == w[a]);
                    assert(w.contains(r[a]));
                } else {
                    assert(r[a] == w[a] && r[b] == w[b]);
                }
            }
        }
    }
}

/// A Maven log never yields the same message twice: of a message that Maven
/// repeats, only the first stays.
pub proof fn lemma_maven_no_repeats(lines: Seq<Seq<char>>, dir: Seq<char>)
    ensures
        forall|a: int, b: int|
            0 <= a < b < maven_messages(lines, dir).len() ==> maven_messages(lines, dir)[a]
                != maven_messages(lines, dir)[b],
        forall|m: MessageView|
            maven_messages(lines, dir).contains(m) <==> maven_upto(
                lines,
                dir,
                lines.len() as int,
            ).contains(m),
{
    lemma_without_repeats_from(maven_upto(lines, dir, lines.len() as int));
}

/// A stack frame gives a location only when its symbol begins with the
/// project's package.
pub proof fn lemma_frame_in_package(line: Seq<char>, dir: Seq<char>, package: Seq<char>)
    ensures
        frame_location(line, dir, package) is Some ==> (skip_bytes(trim(line), 3) matches Some(f)
            ==> is_prefix(package, f)),
        frame_location(line, dir, package) is Some ==> skip_bytes(trim(line), 3) is Some,
{
}

/// Whether no frame on lines `k` to `end` begins with `package`.
pub open spec fn no_frame_in_package(
    lines: Seq<Seq<char>>,
    package: Seq<char>,
    k: int,
    end: int,
) -> bool {
    forall|j: int|
        k <= j <= end && 0 <= j < lines.len() ==> match skip_bytes(trim(#[trigger] lines[j]), 3) {
            Some(f) => !is_prefix(package, f),
            None => true,
        }
}

proof fn lemma_no_frame_locations(
    lines: Seq<Seq<char>>,
    dir: Seq<char>,
    package: Seq<char>,
    k: int,
    end: int,
)
    requires
        no_frame_in_package(lines, package, k, end),
    ensures
        frame_locations(lines, dir, package, k, end) == Seq::<LocationView>::empty(),
    decreases end + 1 - k,
{
    if !(k < 0 || k > end || k >= lines.len()) {
        lemma_no_frame_locations(lines, dir, package, k + 1, end);
        assert(frame_location(lines[k], dir, package) is None);
    }
}

/// An exception is reported whenever its header holds `": "`, whatever its
/// frames are; frames outside the package add no location, so with none in
/// the package the message has no locations.
pub proof fn lemma_foreign_frames_keep_the_message(
    lines: Seq<Seq<char>>,
    dir: Seq<char>,
    package: Seq<char>,
    i: int,
    end: int,
)
    requires
        0 <= i < lines.len(),
    ensures
        exception(lines, dir, package, i, end) is Some <==> split_once(lines[i], ": "@) is Some,
        no_frame_in_package(lines, package, i + 1, end) ==> (exception(
            lines,
            dir,
            package,
            i,
            end,
        ) matches Some(m) ==> m.locations.len() == 0),
{
    if no_frame_in_package(lines, package, i + 1, end) {
        lemma_no_frame_locations(lines, dir, package, i + 1, end);
    }
}

proof fn lemma_frame_locations_no_column(
    lines: Seq<Seq<char>>,
    dir: Seq<char>,
    package: Seq<char>,
    k: int,
    end: int,
)
    ensures
        forall|j: int|
            0 <= j < frame_locations(lines, dir, package, k, end).len() ==> (#[trigger] frame_locations(
                lines,
                dir,
                package,
                k,
                end,
            )[j]).col == 0,
    decreases end + 1 - k,
{
    if !(k < 0 || k > end || k >= lines.len()) {
        lemma_frame_locations_no_column(lines, dir, package, k + 1, end);
        let head = match frame_location(lines[k], dir, package) {
            Some(l) => seq![l],
            None => Seq::empty(),
        };
        let rest = frame_locations(lines, dir, package, k + 1, end);
        assert(frame_locations(lines, dir, package, k, end) == head + rest);
        assert forall|j: int| 0 <= j < (head + rest).len() implies (#[trigger] (head + rest)[j]).col
            == 0 by {
            if j >= head.len() {
                assert((head + rest)[j] == rest[j - head.len()]);
            }
        }
    }
}

/// Java stack frames carry no column: every location of a Java exception
/// has column 0.
pub proof fn lemma_java_locations_have_no_column(
    lines: Seq<Seq<char>>,
    dir: Seq<char>,
    package: Seq<char>,
    n: int,
)
    ensures
        forall|a: int, b: int|
            0 <= a < java_upto(lines, dir, package, n).len() && 0 <= b < java_upto(
                lines,
                dir,
                package,
                n,
            )[a].locations.len() ==> #[trigger] java_upto(lines, dir, package, n)[a].locations[b].col
                == 0,
    decreases n,
{
    if n > 1 {
        lemma_java_locations_have_no_column(lines, dir, package, n - 1);
        let p = java_upto(lines, dir, package, n - 1);
        let t = java_at(lines, dir, package, n - 1);
        assert(java_upto(lines, dir, package, n) == p + t);
        let end = crate::analyser::java::block_end(lines, n, 0);
        lemma_frame_locations_no_column(lines, dir, package, n, end);
        assert forall|a: int, b: int|
            0 <= a < (p + t).len() && 0 <= b < (p + t)[a].locations.len() implies #[trigger] (p
            + t)[a].locations[b].col == 0 by {
            if a >= p.len() {
                assert((p + t)[a] == t[a - p.len()]);
            } else {
                assert((p + t)[a] == p[a]);
            }
        }
    }
}

/// A failed Maven test points at a row of its test source, never a column.
pub proof fn lemma_maven_test_has_no_column(
    lines: Seq<Seq<char>>,
    dir: Seq<char>,
    k: int,
    text: Seq<char>,
)
    ensures
        crate::analyser::maven::failed_test(lines, dir, k, text) matches Some(m) ==> m.locations.len()
            == 1 && m.locations[0].col == 0,
    decreases lines.len() - k,
{
    if 0 <= k < lines.len() {
        let t = trim(lines[k]);
        lemma_maven_test_has_no_column(lines, dir, k + 1, text);
        lemma_maven_test_has_no_column(lines, dir, k + 1, text + t);
    }
}

/// A failed Go test names a row but no column: its column is 0.
pub proof fn lemma_go_test_has_no_column(
    line: Seq<char>,
    next: Option<Seq<char>>,
    dir: Seq<char>,
)
    ensures
        crate::analyser::go::failed_test(line, next, dir) matches Some(m) ==> m.locations.len() == 1
            && m.locations[0].col == 0,
{
}

proof fn lemma_nix_entries_no_column(lines: Seq<Seq<char>>, dir: Seq<char>, k: int)
    ensures
        forall|a: int|
            0 <= a < crate::analyser::nix::entries(lines, dir, k).len() ==> (
            #[trigger] crate::analyser::nix::entries(lines, dir, k)[a]).locations.len() == 1
                && crate::analyser::nix::entries(lines, dir, k)[a].locations[0].col == 0,
    decreases lines.len() - k,
{
    if !(k < 0 || k >= lines.len() || !is_prefix("- "@, lines[k])) {
        lemma_nix_entries_no_column(lines, dir, k + 1);
        let head = if k + 1 < lines.len() {
            match crate::analyser::nix::failed_row(lines[k + 1]) {
                Some(row) => crate::types::opt_msgs(crate::analyser::nix::entry(lines[k], row, dir)),
                None => Seq::empty(),
            }
        } else {
            Seq::empty()
        };
        let rest = crate::analyser::nix::entries(lines, dir, k + 1);
        assert(crate::analyser::nix::entries(lines, dir, k) == head + rest);
        assert forall|a: int| 0 <= a < (head + rest).len() implies (#[trigger] (head + rest)[a]).locations.len()
            == 1 && (head + rest)[a].locations[0].col == 0 by {
            if a >= head.len() {
                assert((head + rest)[a] == rest[a - head.len()]);
            } else {
                assert((head + rest)[a] == head[a]);
            }
        }
    }
}

/// Nix's formatting check names rows only: every location has column 0.
pub proof fn lemma_nix_locations_have_no_column(lines: Seq<Seq<char>>, dir: Seq<char>, n: int)
    ensures
        forall|a: int|
            0 <= a < crate::analyser::nix::nix_upto(lines, dir, n).len() ==> (
            #[trigger] crate::analyser::nix::nix_upto(lines, dir, n)[a]).locations.len() == 1
                && crate::analyser::nix::nix_upto(lines, dir, n)[a].locations[0].col == 0,
    decreases n,
{
    if n > 0 {
        lemma_nix_locations_have_no_column(lines, dir, n - 1);
        lemma_nix_entries_no_column(lines, dir, n);
        let p = crate::analyser::nix::nix_upto(lines, dir, n - 1);
        let t = crate::analyser::nix::nix_at(lines, dir, n - 1);
        assert(crate::analyser::nix::nix_upto(lines, dir, n) == p + t);
        assert forall|a: int| 0 <= a < (p + t).len() implies (#[trigger] (p + t)[a]).locations.len()
            == 1 && (p + t)[a].locations[0].col == 0 by {
            if a >= p.len() {
                assert((p + t)[a] == t[a - p.len()]);
            } else {
                assert((p + t)[a] == p[a]);
            }
        }
    }
}

proof fn lemma_find_skips(s: Seq<char>, p: Seq<char>, i: int, k: int)
    requires
        0 <= i <= k,
        k + p.len() <= s.len(),
        forall|j: int| i <= j < k ==> !occurs_at(s, p, j),
    ensures
        find_from(s, p, i) == find_from(s, p, k),
    decreases k - i,
{
    if i < k {
        lemma_find_skips(s, p, i + 1, k);
    }
}

/// The first `c` in `a + [c] + b`, when `a` holds none, is right after `a`.
pub proof fn lemma_find_after(a: Seq<char>, c: char, b: Seq<char>)
    requires
        !a.contains(c),
    ensures
        find(a + seq![c] + b, seq![c]) == Some(a.len() as int),
{
    let s = a + seq![c] + b;
    assert forall|j: int| 0 <= j < a.len() implies !occurs_at(s, seq![c], j) by {
        assert(s[j] == a[j]);
        if occurs_at(s, seq![c], j) {
            assert(s.subrange(j, j + 1)[0] == s[j]);
            assert(a.contains(a[j]));
        }
    }
    lemma_find_skips(s, seq![c], 0, a.len() as int);
    assert(s.subrange(a.len() as int, a.len() + 1 as int) =~= seq![c]);
}

/// Without `c` in `s`, there is no `c` to find.
pub proof fn lemma_find_none(s: Seq<char>, c: char)
    requires
        !s.contains(c),
    ensures
        find(s, seq![c]) is None,
{
    assert forall|j: int| 0 <= j < s.len() implies !occurs_at(s, seq![c], j) by {
        if occurs_at(s, seq![c], j) {
            assert(s.subrange(j, j + 1)[0] == s[j]);
            assert(s.contains(s[j]));
        }
    }
    if s.len() > 0 {
        lemma_find_skips(s, seq![c], 0, s.len() - 1);
        assert(!occurs_at(s, seq![c], s.len() - 1));
        assert(find_from(s, seq![c], s.len() as int) is None);
    }
}

/// `a` and `b` split at the `c` between them.
pub proof fn lemma_split_char_after(a: Seq<char>, c: char, b: Seq<char>)
    requires
        !a.contains(c),
    ensures
        split_char(a + seq![c] + b, c) == seq![a] + split_char(b, c),
{
    let s = a + seq![c] + b;
    lemma_find_after(a, c, b);
    assert(s.subrange(0, a.len() as int) =~= a);
    assert(s.subrange(a.len() + 1 as int, s.len() as int) =~= b);
}

/// A piece without `c` is not split.
pub proof fn lemma_split_char_whole(s: Seq<char>, c: char)
    requires
        !s.contains(c),
    ensures
        split_char(s, c) == seq![s],
{
    lemma_find_none(s, c);
}

/// A relative path in a Cargo location, `path:row:col`, is placed under the
/// project directory: `src/main.rs` under `/tmp/project` is
/// `/tmp/project/src/main.rs`.
pub proof fn lemma_relative_path_is_qualified(
    rel: Seq<char>,
    row: Seq<char>,
    col: Seq<char>,
    dir: Seq<char>,
)
    requires
        !rel.contains(':'),
        !is_prefix("./"@, rel),
        crate::text::parse_usize(row) is Some,
        crate::text::parse_usize(col) is Some,
        !row.contains(':'),
        !col.contains(':'),
    ensures
        cargo_location(rel + seq![':'] + row + seq![':'] + col, dir) == Some(
            location(
                qualify(dir, rel),
                crate::text::parse_usize(row)->0,
                crate::text::parse_usize(col)->0,
            ),
        ),
{
    let loc = rel + seq![':'] + row + seq![':'] + col;
    assert(loc =~= rel + seq![':'] + (row + seq![':'] + col));
    lemma_split_char_after(rel, ':', row + seq![':'] + col);
    lemma_split_char_after(row, ':', col);
    lemma_split_char_whole(col, ':');
    let parts = split_char(loc, ':');
    assert(parts =~= seq![rel, row, col]);
    assert(strip_prefix(rel, "./"@) is None);
}

} // verus!
