use logana::analyser::{
    alire, angular, biome, cargo, clang, dune, eslint, gcc, go, gradle, java, karma_jasmine, maven,
    nix, odin, v, zig,
};
use logana::types::{Location, Message};

fn msg(error: &str, path: &str, row: usize, col: usize) -> Message {
    Message {
        error: error.to_string(),
        locations: vec![Location { path: path.to_string(), row, col }],
    }
}

fn all(log: &str) -> Vec<Vec<Message>> {
    let dir = "/tmp/project";
    vec![
        alire::analyse(log, dir),
        angular::analyse(log, dir),
        biome::analyse(log, dir),
        cargo::analyse(log, dir),
        clang::analyse(log, dir),
        dune::analyse(log, dir),
        eslint::analyse(log, dir),
        gcc::analyse(log, dir),
        go::analyse(log, dir),
        gradle::analyse(log, dir),
        java::analyse(log, dir, "some.pkg"),
        karma_jasmine::analyse(log, dir),
        maven::analyse(log, dir),
        nix::analyse(log, dir),
        odin::analyse(log, dir),
        v::analyse(log, dir),
        zig::analyse(log, dir),
    ]
}

#[test]
fn empty_log_gives_no_messages() {
    for result in all("") {
        assert!(result.is_empty());
    }
}

#[test]
fn plain_text_gives_no_messages() {
    let log = "Compiling the project\nall done\n\n";
    for result in all(log) {
        assert!(result.is_empty());
    }
}

#[test]
fn analysing_twice_gives_equal_results() {
    let log = "./main.go:4:2: string literal not terminated\n[ERROR] /tmp/project/A.java:[1,2] x\nsrc/main.v:5:1: error: e\n";
    assert_eq!(all(log), all(log));
}

#[test]
fn maven_keeps_a_repeated_error_once() {
    let line = "[ERROR] /tmp/project/src/main/java/Main.java:[3,7] cannot find symbol";
    let log = format!("{line}\n[INFO] between\n{line}\n");
    let result = maven::analyse(&log, "/tmp/project");
    assert_eq!(
        result,
        vec![msg("cannot find symbol", "/tmp/project/src/main/java/Main.java", 3, 7)]
    );
}

#[test]
fn maven_keeps_different_errors_in_order() {
    let log = "[ERROR] /tmp/project/B.java:[2,1] b\n[ERROR] /tmp/project/A.java:[1,1] a\n[ERROR] /tmp/project/B.java:[2,1] b\n";
    let result = maven::analyse(log, "/tmp/project");
    assert_eq!(
        result,
        vec![msg("b", "/tmp/project/B.java", 2, 1), msg("a", "/tmp/project/A.java", 1, 1)]
    );
}

#[test]
fn relative_path_is_taken_from_the_project() {
    let log = "error[E0425]: cannot find value `x` in this scope\n --> src/main.rs:2:5\n";
    let result = cargo::analyse(log, "/tmp/project");
    assert_eq!(result[0].locations[0].path, "/tmp/project/src/main.rs");
    let result = v::analyse("src/main.rs:1:1: error: e", "/tmp/project");
    assert_eq!(result[0].locations[0].path, "/tmp/project/src/main.rs");
}

#[test]
fn clang_scenario() {
    let log = "/tmp/project/main.c:47:5: warning: this style of line directive is a GNU extension [-Wgnu-line-marker]";
    let result = clang::analyse(log, "/tmp/project");
    assert_eq!(
        result,
        vec![msg("warning: this style of line directive is a GNU extension [-Wgnu-line-marker]", "/tmp/project/main.c", 47, 5)]
    );
}

#[test]
fn go_scenario() {
    let result = go::analyse("./main.go:4:2: string literal not terminated", "/tmp/project");
    assert_eq!(
        result,
        vec![msg("string literal not terminated", "/tmp/project/main.go", 4, 2)]
    );
}

#[test]
fn eslint_scenario() {
    let log = "/tmp/project/index.ts\n  1:1  error    Unexpected var, use let or const instead  no-var\n";
    let result = eslint::analyse(log, "/tmp/project");
    assert_eq!(
        result,
        vec![msg("error Unexpected var, use let or const instead", "/tmp/project/index.ts", 1, 1)]
    );
}

#[test]
fn java_frames_outside_the_package_give_no_location() {
    let log = "Exception in thread main\njava.lang.IllegalStateException: broken\n\tat java.base/java.util.Objects.requireNonNull(Objects.java:233)\n\tat my.app.Service.run(Service.java:21)\n\tat my.app.Main.main(Main.java:5)\n";
    let result = java::analyse(log, "/tmp/project", "my.app");
    assert_eq!(
        result,
        vec![Message {
            error: "broken".to_string(),
            locations: vec![
                Location { path: "/tmp/project/src/main/java/my/app/Service.java".to_string(), row: 21, col: 0 },
                Location { path: "/tmp/project/src/main/java/my/app/Main.java".to_string(), row: 5, col: 0 },
            ],
        }]
    );
}

#[test]
fn java_message_stays_without_any_frame_in_the_package() {
    let log = "start\njava.lang.IllegalStateException: broken\n\tat java.base/java.util.Objects.requireNonNull(Objects.java:233)\n\tat other.lib.Thing.run(Thing.java:9)\n";
    let result = java::analyse(log, "/tmp/project", "my.app");
    assert_eq!(result, vec![Message { error: "broken".to_string(), locations: vec![] }]);
}

#[test]
fn java_frame_without_row_is_left_out() {
    let log = "start\njava.lang.RuntimeException: boom\n\tat my.app.Gen.call(Unknown Source)\n\tat my.app.Main.main(Main.java:7)\n";
    let result = java::analyse(log, "/tmp/project", "my.app");
    assert_eq!(
        result,
        vec![Message {
            error: "boom".to_string(),
            locations: vec![Location { path: "/tmp/project/src/main/java/my/app/Main.java".to_string(), row: 7, col: 0 }],
        }]
    );
}

#[test]
fn numbers_that_do_not_parse_become_zero() {
    let result = v::analyse("src/a.v:x:y: error: bad", "/tmp/project");
    assert_eq!(result, vec![msg("bad", "/tmp/project/src/a.v", 0, 0)]);
    let result = clang::analyse("src/a.c:+12:99999999999999999999999: error: big", "/tmp/project");
    assert_eq!(result, vec![msg("error: big", "/tmp/project/src/a.c", 12, 0)]);
}

#[test]
fn missing_separator_skips_the_line() {
    assert!(clang::analyse("src/a.c:12 error", "/tmp/project").is_empty());
    assert!(odin::analyse("/tmp/project/a.odin no location", "/tmp/project").is_empty());
}

#[test]
fn carriage_returns_are_dropped_from_lines() {
    let result = go::analyse("./main.go:4:2: broken\r\n", "/tmp/project");
    assert_eq!(result, vec![msg("broken", "/tmp/project/main.go", 4, 2)]);
}

#[test]
fn go_failed_test_without_column() {
    let log = "--- FAIL: TestX (0.00s)\n    x_test.go:7: wrong\n";
    let result = go::analyse(log, "/tmp/project");
    assert_eq!(result, vec![msg("wrong", "/tmp/project/x_test.go", 7, 0)]);
}

#[test]
fn dune_header_without_error_gives_nothing() {
    let log = "File \"bin/main.ml\", line 1, characters 0-3:\nWarning 32: unused value\n\nError: later\n";
    assert!(dune::analyse(log, "/tmp/project").is_empty());
}

#[test]
fn eslint_line_with_one_word_is_skipped() {
    let log = "/tmp/project/a.ts\n  lonely\n  2:3  error  Bad thing  rule\n";
    let result = eslint::analyse(log, "/tmp/project");
    assert_eq!(result, vec![msg("error Bad thing", "/tmp/project/a.ts", 2, 3)]);
}

#[test]
fn biome_path_with_drive_letter() {
    let log = "C:\\p\\a.ts:3:4 lint ━━━━━━━━━━\n\n  \u{d7} Bad.\n";
    let result = biome::analyse(log, "C:\\p");
    assert_eq!(result, vec![msg("Bad.", "C:\\p\\a.ts", 3, 4)]);
}

#[test]
fn nix_entries_end_at_the_first_other_line() {
    let log = "Failed! 2 error found at:\n- ./a/./b.nix: bad\nx failed on line 4\n- c.nix: worse\nx failed on line 9 col 1\n";
    let result = nix::analyse(log, "/tmp/project");
    assert_eq!(
        result,
        vec![msg("bad", "/tmp/project/a/./b.nix", 4, 0)]
    );
}

#[test]
fn gradle_module_comes_from_the_last_task() {
    let log = "> Task :core:compileJava\n> Task :web:test\n\nAppTest > check() FAILED\n    org.opentest4j.AssertionFailedError: expected: <1> but was: <2>\n        at app//org.x.AppTest.check(AppTest.java:9)\n";
    let result = gradle::analyse(log, "/p");
    assert_eq!(result, vec![msg("<1> but was: <2>", "/p/web/src/test/java/org/x/AppTest.java", 9, 0)]);
}

#[test]
fn gradle_error_without_marker_has_no_column() {
    let log = "/p/A.java:3: error: oops\n";
    let result = gradle::analyse(log, "/p");
    assert_eq!(result, vec![msg(" error oops", "/p/A.java", 3, 0)]);
}

#[test]
fn angular_lowercase_error_tag() {
    let result = angular::analyse("error: src/a.ts:1:2 - error TS1: x", "/p");
    assert_eq!(result, vec![msg("error TS1: x", "/p/src/a.ts", 1, 2)]);
}

#[test]
fn alire_message_is_trimmed() {
    let result = alire::analyse("a.adb:1:2:   text  ", "/p");
    assert_eq!(result, vec![msg("text", "/p/src/a.adb", 1, 2)]);
}

#[test]
fn cargo_panic_with_location_on_later_lines() {
    let log = "thread 'main' panicked at 'boom\nmore\n', src/a.rs:3:4\n', src/b.rs:5:6\n";
    let result = cargo::analyse(log, "/p");
    assert_eq!(
        result,
        vec![msg("boom", "/p/src/a.rs", 3, 4), msg("boom", "/p/src/b.rs", 5, 6)]
    );
}

#[test]
fn dune_scan_stops_at_the_next_header() {
    let log = "File \"a.ml\", line 1, characters 0-3:\n1 | let x\nFile \"b.ml\", line 2, characters 4-5:\nError: Unbound value y\n";
    let result = dune::analyse(log, "/p");
    assert_eq!(result, vec![msg("Error: Unbound value y", "/p/b.ml", 2, 4)]);
}

#[test]
fn maven_frame_without_row_number_gets_row_zero() {
    let log = "[ERROR] t  Time elapsed: 0 s  <<< FAILURE!\nboom\n\tat a.B.c(B.java:\n";
    let result = maven::analyse(log, "/p");
    assert_eq!(result, vec![msg("boom", "/p/src/test/java/a/B.java", 0, 0)]);
    let log = "[ERROR] t  Time elapsed: 0 s  <<< FAILURE!\nboom\n\tat a.B.c(B.java:12\n";
    let result = maven::analyse(log, "/p");
    assert_eq!(result, vec![msg("boom", "/p/src/test/java/a/B.java", 12, 0)]);
}

#[test]
fn clang_reads_only_lines_of_the_project() {
    let log = "a.c:1:2: warning: elsewhere\nsrc/b.c:3:4: error: here\n";
    let result = clang::analyse(log, "/p");
    assert_eq!(result, vec![msg("error: here", "/p/src/b.c", 3, 4)]);
}
