//! Chooses the analyser for the configured format and builds the report.

use crate::analyser::{
    alire, angular, biome, cargo, clang, dune, eslint, gcc, go, gradle, java, karma_jasmine,
    maven, nix, odin, v, zig,
};
use crate::config::{Args, ParserKind};
use crate::input::split::{builds, builds_of, strings_view};
use crate::text::lines_of;
use crate::types::{messages_view, AnalyseReport, Message, MessageView};
use vstd::prelude::*;

verus! {

/// The messages that the analyser of `parser` finds in `log`. The Java
/// analyser needs the project's package; without one, and without a
/// format, there are none.
pub open spec fn expected_messages(
    parser: Option<ParserKind>,
    package: Option<Seq<char>>,
    log: Seq<char>,
    dir: Seq<char>,
) -> Seq<MessageView> {
    let lines = lines_of(log);
    match parser {
        Some(ParserKind::Alire) => alire::alire_messages(lines, dir),
        Some(ParserKind::Angular) => angular::angular_messages(lines, dir),
        Some(ParserKind::Biome) => biome::biome_messages(lines),
        Some(ParserKind::Cargo) => cargo::cargo_messages(lines, dir),
        Some(ParserKind::Clang) => clang::clang_messages(lines, dir),
        Some(ParserKind::Dune) => dune::dune_messages(lines, dir),
        Some(ParserKind::Eslint) => eslint::eslint_messages(lines, dir),
        Some(ParserKind::Gcc) => clang::clang_messages(lines, dir),
        Some(ParserKind::Go) => go::go_messages(lines, dir),
        Some(ParserKind::Gradle) => gradle::gradle_messages(lines, dir),
        Some(ParserKind::Java) => match package {
            Some(p) => java::java_messages(lines, dir, p),
            None => Seq::empty(),
        },
        Some(ParserKind::KarmaJasmine) => karma_jasmine::karma_messages(lines, dir),
        Some(ParserKind::Maven) => maven::maven_messages(lines, dir),
        Some(ParserKind::Nix) => nix::nix_messages(lines, dir),
        Some(ParserKind::Odin) => odin::odin_messages(lines, dir),
        Some(ParserKind::V) => v::v_messages(lines, dir),
        Some(ParserKind::Zig) => zig::zig_messages(lines, dir),
        None => Seq::empty(),
    }
}

/// The view of an optional string.
pub open spec fn opt_string_view(s: Option<String>) -> Option<Seq<char>> {
    match s {
        Some(x) => Some(x@),
        None => None,
    }
}

/// The messages that the analyser of `args.parser` finds in `input`.
pub fn messages_for(args: &Args, input: &str, project_dir: &str) -> (r: Vec<Message>)
    ensures
        messages_view(r@) == expected_messages(
            args.parser,
            opt_string_view(args.package),
            input@,
            project_dir@,
        ),
{
    match args.parser {
        Some(ParserKind::Alire) => alire::analyse(input, project_dir),
        Some(ParserKind::Angular) => angular::analyse(input, project_dir),
        Some(ParserKind::Biome) => biome::analyse(input, project_dir),
        Some(ParserKind::Cargo) => cargo::analyse(input, project_dir),
        Some(ParserKind::Clang) => clang::analyse(input, project_dir),
        Some(ParserKind::Dune) => dune::analyse(input, project_dir),
        Some(ParserKind::Eslint) => eslint::analyse(input, project_dir),
        Some(ParserKind::Gcc) => gcc::analyse(input, project_dir),
        Some(ParserKind::Go) => go::analyse(input, project_dir),
        Some(ParserKind::Gradle) => gradle::analyse(input, project_dir),
        Some(ParserKind::Java) => match &args.package {
            Some(package) => java::analyse(input, project_dir, package.as_str()),
            None => {
                let none: Vec<Message> = Vec::new();
                assert(messages_view(none@) =~= Seq::<MessageView>::empty());
                none
            },
        },
        Some(ParserKind::KarmaJasmine) => karma_jasmine::analyse(input, project_dir),
        Some(ParserKind::Maven) => maven::analyse(input, project_dir),
        Some(ParserKind::Nix) => nix::analyse(input, project_dir),
        Some(ParserKind::Odin) => odin::analyse(input, project_dir),
        Some(ParserKind::V) => v::analyse(input, project_dir),
        Some(ParserKind::Zig) => zig::analyse(input, project_dir),
        None => {
            let none: Vec<Message> = Vec::new();
            assert(messages_view(none@) =~= Seq::<MessageView>::empty());
            none
        },
    }
}

/// Relies on chrono's `Utc::now` and `DateTime::timestamp_millis`: the
/// time of the call, in milliseconds since the Unix epoch. Nothing is
/// promised of the value.
#[verifier::external_body]
fn now_millis() -> (r: i64) {
    chrono::Utc::now().timestamp_millis()
}

/// Analyses `input` with the analyser that `args` selects, and reports the
/// messages with their source, project and the time of the analysis.
pub fn analyse(args: &Args, source: String, input: &str, project_dir: &str) -> (r: AnalyseReport)
    ensures
        r.source == source,
        r.project@ == project_dir@,
        messages_view(r.errors@) == expected_messages(
            args.parser,
            opt_string_view(args.package),
            input@,
            project_dir@,
        ),
{
    let errors = messages_for(args, input, project_dir);
    AnalyseReport {
        source,
        project: project_dir.to_owned(),
        date: now_millis(),
        errors,
    }
}

/// The position of the last of the first `n` builds in which the analyser
/// finds messages.
pub open spec fn latest_upto(
    bs: Seq<Seq<char>>,
    parser: Option<ParserKind>,
    package: Option<Seq<char>>,
    dir: Seq<char>,
    n: int,
) -> Option<int>
    decreases n,
{
    if n <= 0 {
        None
    } else if expected_messages(parser, package, bs[n - 1], dir).len() > 0 {
        Some(n - 1)
    } else {
        latest_upto(bs, parser, package, dir, n - 1)
    }
}

/// The messages of the last build of `log` in which the analyser finds any,
/// the builds split at `args.splitby`; none without a split symbol.
pub open spec fn latest_messages(args: &Args, log: Seq<char>, dir: Seq<char>) -> Option<
    Seq<MessageView>,
> {
    match args.splitby {
        Some(symbol) => {
            let bs = builds_of(log, symbol@);
            match latest_upto(bs, args.parser, opt_string_view(args.package), dir, bs.len() as int) {
                Some(k) => Some(
                    expected_messages(args.parser, opt_string_view(args.package), bs[k], dir),
                ),
                None => None,
            }
        },
        None => None,
    }
}

/// Whether `r` is the report of the last build with messages.
pub open spec fn reports_latest(
    r: Option<AnalyseReport>,
    args: &Args,
    source: Seq<char>,
    log: Seq<char>,
    dir: Seq<char>,
) -> bool {
    match latest_messages(args, log, dir) {
        Some(ms) => r matches Some(rep) && messages_view(rep.errors@) == ms && rep.source@ == source
            && rep.project@ == dir,
        None => r is None,
    }
}

/// Splits `log` into builds at `args.splitby` and reports the last build in
/// which the analyser finds messages.
pub fn latest_report(args: &Args, source: &str, log: &str, project_dir: &str) -> (r: Option<
    AnalyseReport,
>)
    ensures
        reports_latest(r, args, source@, log@, project_dir@),
{
    let symbol = match &args.splitby {
        Some(s) => s,
        None => {
            return None;
        },
    };
    let bs = builds(log, symbol.as_str());
    let ghost bv = strings_view(bs@);
    let ghost pkg = opt_string_view(args.package);
    let mut found: Option<AnalyseReport> = None;
    let mut i: usize = 0;
    while i < bs.len()
        invariant
            i <= bs.len(),
            bv == strings_view(bs@),
            bv == builds_of(log@, symbol@),
            pkg == opt_string_view(args.package),
            match latest_upto(bv, args.parser, pkg, project_dir@, i as int) {
                Some(k) => found matches Some(rep) && messages_view(rep.errors@)
                    == expected_messages(args.parser, pkg, bv[k], project_dir@) && rep.source@
                    == source@ && rep.project@ == project_dir@,
                None => found is None,
            },
        decreases bs.len() - i,
    {
        let build = bs[i].as_str();
        assert(build@ == bv[i as int]);
        let report = analyse(args, source.to_owned(), build, project_dir);
        if report.errors.len() > 0 {
            found = Some(report);
        }
        i += 1;
    }
    found
}

/// What terminal colour codes look like: escape, `[`, numbers separated by
/// `;`, and a closing `m`, `G` or `K`.
pub const COLOR_CODE: &'static str = "\\x1B\\[(?:;?[0-9]{1,3})+[mGK]";

/// What is left of `text` when every match of the regular expression
/// `pattern` is removed.
pub uninterp spec fn regex_removed(pattern: Seq<char>, text: Seq<char>) -> Seq<char>;

/// Relies on regex's `Regex::new` and `Regex::replace_all`: when `pattern`
/// compiles, every match of it in `text` is replaced by nothing; a result
/// that depends on the two strings alone.
#[verifier::external_body]
fn remove_matches(pattern: &str, text: &str) -> (r: Option<String>)
    ensures
        r matches Some(s) ==> s@ == regex_removed(pattern@, text@),
{
    match regex::Regex::new(pattern) {
        Ok(re) => Some(re.replace_all(text, "").into_owned()),
        Err(_) => None,
    }
}

/// `text` without terminal colour codes.
pub fn strip_color(text: &str) -> (r: String)
    ensures
        r@ == regex_removed(COLOR_CODE@, text@) || r@ == text@,
{
    match remove_matches(COLOR_CODE, text) {
        Some(s) => s,
        None => text.to_owned(),
    }
}

/// Removes colour codes from a terminal's history, splits it into builds and
/// reports the last build in which the analyser finds messages.
pub fn split_analyse(args: &Args, source: &str, content: &str, project_dir: &str) -> (r: Option<
    AnalyseReport,
>)
    ensures
        exists|plain: Seq<char>|
            (plain == regex_removed(COLOR_CODE@, content@) || plain == content@) && reports_latest(
                r,
                args,
                source@,
                plain,
                project_dir@,
            ),
{
    let plain = strip_color(content);
    let r = latest_report(args, source, plain.as_str(), project_dir);
    assert(reports_latest(r, args, source@, plain@, project_dir@));
    r
}

} // verus!
