use logana::config::{Args, ParserKind};
use logana::input::handle::{latest_report, messages_for, split_analyse, strip_color};
use logana::logvec::LogVec;
use logana::types::{AnalyseReport, Location, Message};

fn msg(error: &str, path: &str, row: usize, col: usize) -> Message {
    Message {
        error: error.to_string(),
        locations: vec![Location { path: path.to_string(), row, col }],
    }
}

#[test]
fn analyse_dispatches_and_fills_the_report() {
    let args = Args { parser: Some(ParserKind::Go), ..Default::default() };
    let report = logana::analyse(&args, "stdin".to_string(), "./main.go:4:2: bad", "/tmp/project");
    assert_eq!(report.source, "stdin");
    assert_eq!(report.project, "/tmp/project");
    assert!(report.date > 0);
    assert_eq!(report.errors, vec![msg("bad", "/tmp/project/main.go", 4, 2)]);
}

#[test]
fn without_parser_there_are_no_messages() {
    let args = Args::default();
    assert!(messages_for(&args, "./main.go:4:2: bad", "/tmp/project").is_empty());
}

#[test]
fn java_without_package_gives_no_messages() {
    let args = Args { parser: Some(ParserKind::Java), ..Default::default() };
    let log = "x\njava.lang.Error: e\n\tat a.B.c(B.java:1)\n";
    assert!(messages_for(&args, log, "/p").is_empty());
    let args = Args { parser: Some(ParserKind::Java), package: Some("a".to_string()), ..Default::default() };
    assert_eq!(messages_for(&args, log, "/p"), vec![msg("e", "/p/src/main/java/a/B.java", 1, 0)]);
}

#[test]
fn gcc_dispatches_like_clang() {
    let args = Args { parser: Some(ParserKind::Gcc), ..Default::default() };
    assert_eq!(
        messages_for(&args, "src/a.c:1:2: error: x", "/p"),
        vec![msg("error: x", "/p/src/a.c", 1, 2)]
    );
}

#[test]
fn strip_color_removes_escape_codes() {
    assert_eq!(strip_color("\u{1b}[31merror\u{1b}[0m: x"), "error: x");
    assert_eq!(strip_color("plain"), "plain");
}

fn karma_args() -> Args {
    Args {
        parser: Some(ParserKind::KarmaJasmine),
        splitby: Some("Browser application bundle generation complete".to_string()),
        ..Default::default()
    }
}

const FRAME: &str = "      at MapSubscriber.call [as project] (http://localhost:9876/_karma_webpack_/webpack:/src/app/components/layout/main/command-info-dialog-modal/command-info-dialog-modal.component.ts:83:1)";

#[test]
fn split_analyse_should_work_as_intended() {
    let log = format!("Browser application bundle generation complete.\nTypeError: 0 Cannot read property 'component' of undefined\n{FRAME}\nBrowser application bundle generation complete.\nTypeError: 1 Cannot read property 'component' of undefined\n{FRAME}\nBrowser application bundle generation complete.\nTypeError: 2 Cannot read property 'component' of undefined\n{FRAME}\n");
    let result = split_analyse(&karma_args(), "pane: 1", &log, "/tmp/project");
    assert_eq!(
        result.map(|r| r.errors),
        Some(vec![msg(
            "2 Cannot read property 'component' of undefined",
            "/tmp/project/src/app/components/layout/main/command-info-dialog-modal/command-info-dialog-modal.component.ts",
            83,
            1
        )])
    );
}

#[test]
fn split_analyse_should_take() {
    let log = "Browser application bundle generation complete.\nTypeError: 2 Cannot read property 'component' of undefined\n    at Object.next (http://localhost:9876/vendor.js:1:1)\nBrowser application bundle generation complete.\nall good\n";
    let result = split_analyse(&karma_args(), "pane: 1", log, "/tmp/project");
    assert_eq!(
        result.map(|r| r.errors),
        Some(vec![Message {
            error: "2 Cannot read property 'component' of undefined".to_string(),
            locations: vec![]
        }])
    );
}

#[test]
fn split_analyse_strips_colors_first() {
    let log = "\u{1b}[32mBrowser application bundle generation complete.\u{1b}[0m\nTypeError: x: y\n";
    let result = split_analyse(&karma_args(), "pane", log, "/p");
    assert_eq!(
        result.map(|r| r.errors),
        Some(vec![Message { error: "x: y".to_string(), locations: vec![] }])
    );
}

#[test]
fn latest_report_needs_a_split_symbol() {
    let args = Args { parser: Some(ParserKind::Go), ..Default::default() };
    assert!(latest_report(&args, "pane", "$ go\n./a.go:1:1: e\n", "/p").is_none());
    let args = Args { parser: Some(ParserKind::Go), splitby: Some("$ ".to_string()), ..Default::default() };
    let report = latest_report(&args, "pane", "$ go\n./a.go:1:1: e\n$ go\nok\n", "/p").unwrap();
    assert_eq!(report.source, "pane");
    assert_eq!(report.errors, vec![msg("e", "/p/a.go", 1, 1)]);
}

#[test]
fn rendering() {
    let loc = Location { path: "/p/a.rs".to_string(), row: 12, col: 0 };
    assert_eq!(loc.to_string(), "/p/a.rs:12:0");
    let m = Message { error: "bad".to_string(), locations: vec![loc.clone(), loc] };
    assert_eq!(m.to_string(), "/p/a.rs:12:0|bad");
    let none = Message { error: "x".to_string(), locations: vec![] };
    assert_eq!(none.to_string(), "");
    let report = AnalyseReport {
        source: "stdin".to_string(),
        project: "/p".to_string(),
        date: 0,
        errors: vec![m, none, msg("other", "/p/b.rs", 1234567890, 7)],
    };
    assert_eq!(report.to_string(), "/p/a.rs:12:0|bad\n/p/b.rs:1234567890:7|other\n");
}

#[test]
fn logvec_collects_blocks() {
    let mut log = LogVec::new();
    log.insert("a");
    log.insert("b");
    assert_eq!(log.collect(), 0);
    log.insert("c");
    assert_eq!(log.collect(), 1);
    assert_eq!(log.collect(), 2);
}
